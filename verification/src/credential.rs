//! The credential store and the OAuth lifecycle around it.
//!
//! The store holds at most one live bearer credential; its unit of
//! mutation is the whole credential, so a reader observes either the old
//! value in full or the new value in full, never a mix of fields. The
//! lifecycle component drives authenticate, refresh and revoke against the
//! identity provider; the network calls themselves happen outside the
//! library, which is handed their outcome and decides what the store
//! becomes. A failed refresh leaves the store untouched; a revoke clears
//! it whether or not the provider confirmed, since local revocation is
//! decisive for subsequent local checks.

use vstd::prelude::*;

verus! {

/// A bearer credential: the token sent upstream, the refresh token that
/// can replace it, and its expiry instant where the provider gave one.
#[derive(Debug, PartialEq, Eq)]
pub struct Credential {
    pub access_token: String,
    pub refresh_token: Option<String>,
    pub expires_at_ms: Option<u64>,
}

impl Clone for Credential {
    fn clone(&self) -> (c: Self)
        ensures
            c == *self,
    {
        Credential {
            access_token: self.access_token.clone(),
            refresh_token: match &self.refresh_token {
                Some(t) => Some(t.clone()),
                None => None,
            },
            expires_at_ms: self.expires_at_ms,
        }
    }
}

/// A failure of the OAuth lifecycle: the identity rejected, the provider
/// refused the exchange, or the network failed on the way.
#[derive(Clone, Debug, PartialEq, Eq)]
pub enum AuthError {
    BadCredentials { message: String },
    ProviderRejected { message: String },
    Network { message: String },
}

/// The process-wide credential store. Readers get the whole stored
/// credential; writers replace or clear it as one value.
pub struct CredentialStore {
    cred: Option<Credential>,
}

impl CredentialStore {
    /// The credential the store holds, if any.
    pub closed spec fn spec_current(&self) -> Option<Credential> {
        self.cred
    }

    /// The store with `c` installed in place of whatever was held.
    pub closed spec fn spec_installed(&self, c: Credential) -> CredentialStore {
        CredentialStore { cred: Some(c) }
    }

    /// A store that has never been written.
    pub fn new() -> (s: CredentialStore)
        ensures
            s.spec_current() is None,
    {
        CredentialStore { cred: None }
    }

    /// Read the stored credential whole. Fails — rather than returning a
    /// stale or partial value — when nothing live is held.
    pub fn read(&self) -> (r: Result<Credential, AuthError>)
        ensures
            self.spec_current() matches Some(c) ==> r == Ok::<Credential, AuthError>(c),
            self.spec_current() is None ==> (r matches Err(e) && e is BadCredentials),
    {
        match &self.cred {
            Some(c) => Ok(c.clone()),
            None => Err(
                AuthError::BadCredentials { message: "no live credential held".to_owned() },
            ),
        }
    }

    /// Apply the outcome of an authenticate call: a success installs the
    /// fresh credential whole (last writer wins), a failure changes
    /// nothing.
    pub fn apply_authenticate(&mut self, outcome: Result<Credential, AuthError>) -> (r: Result<
        (),
        AuthError,
    >)
        ensures
            outcome matches Ok(c) ==> *final(self) == old(self).spec_installed(c) && r is Ok,
            outcome matches Err(e) ==> *final(self) == *old(self) && r == Err::<(), AuthError>(e),
    {
        match outcome {
            Ok(c) => {
                self.cred = Some(c);
                Ok(())
            },
            Err(e) => Err(e),
        }
    }

    /// Apply the outcome of a refresh call: a success atomically replaces
    /// the store's contents with the new credential; a failure leaves the
    /// old credential in place, valid until its own expiry.
    pub fn apply_refresh(&mut self, outcome: Result<Credential, AuthError>) -> (r: Result<
        (),
        AuthError,
    >)
        ensures
            outcome matches Ok(c) ==> *final(self) == old(self).spec_installed(c) && r is Ok,
            outcome matches Err(e) ==> *final(self) == *old(self) && r == Err::<(), AuthError>(e),
    {
        match outcome {
            Ok(c) => {
                self.cred = Some(c);
                Ok(())
            },
            Err(e) => Err(e),
        }
    }

    /// Apply the outcome of a revoke call: the store is cleared whatever
    /// the provider answered, so subsequent reads fail instead of handing
    /// out a revoked token.
    pub fn apply_revoke(&mut self, outcome: Result<(), AuthError>) -> (r: Result<(), AuthError>)
        ensures
            final(self).spec_current() is None,
            r == outcome,
    {
        self.cred = None;
        outcome
    }
}

/// Law (credential atomicity): installing a credential replaces the
/// store's contents as one value. Together with the contracts of
/// `apply_authenticate` and `apply_refresh` — which pin the post-state to
/// exactly `spec_installed` — a read observes either the full prior
/// credential or the full fresh one; no reachable state mixes fields of
/// the two.
pub proof fn lemma_credential_atomicity(store: CredentialStore, fresh: Credential)
    ensures
        store.spec_installed(fresh).spec_current() == Some(fresh),
        forall|c: Credential|
            store.spec_installed(fresh).spec_current() == Some(c) ==> c.access_token
                == fresh.access_token && c.refresh_token == fresh.refresh_token && c.expires_at_ms
                == fresh.expires_at_ms,
{
}

/// The states of the OAuth lifecycle for one credential.
#[derive(Clone, Copy, Debug, PartialEq, Eq, Structural)]
pub enum LifecycleState {
    Unauthenticated,
    Authenticated,
    Revoked,
}

/// The observable outcome of one provider call. A revoke is decisive
/// locally whatever the network reported, so it carries no outcome.
#[derive(Clone, Copy, Debug, PartialEq, Eq, Structural)]
pub enum LifecycleEvent {
    AuthenticateOk,
    AuthenticateFailed,
    RefreshOk,
    RefreshFailed,
    RevokeDone,
}

/// The lifecycle transition relation: authenticate reaches Authenticated
/// from anywhere, refresh renews only an authenticated session, revoke
/// ends one, and failures leave the state alone.
pub open spec fn lifecycle_next(s: LifecycleState, e: LifecycleEvent) -> LifecycleState {
    match e {
        LifecycleEvent::AuthenticateOk => LifecycleState::Authenticated,
        LifecycleEvent::AuthenticateFailed => s,
        LifecycleEvent::RefreshOk => s,
        LifecycleEvent::RefreshFailed => s,
        LifecycleEvent::RevokeDone => if s is Authenticated {
            LifecycleState::Revoked
        } else {
            s
        },
    }
}

/// Step the lifecycle by one observed event.
pub fn lifecycle_step(s: LifecycleState, e: LifecycleEvent) -> (n: LifecycleState)
    ensures
        n == lifecycle_next(s, e),
{
    match e {
        LifecycleEvent::AuthenticateOk => LifecycleState::Authenticated,
        LifecycleEvent::AuthenticateFailed => s,
        LifecycleEvent::RefreshOk => s,
        LifecycleEvent::RefreshFailed => s,
        LifecycleEvent::RevokeDone => if s == LifecycleState::Authenticated {
            LifecycleState::Revoked
        } else {
            s
        },
    }
}

/// Law: Revoked is terminal for the credential it ended — only a fresh
/// authenticate leaves it.
pub proof fn lemma_revoked_is_terminal(e: LifecycleEvent)
    ensures
        e != LifecycleEvent::AuthenticateOk ==> lifecycle_next(LifecycleState::Revoked, e)
            == LifecycleState::Revoked,
        lifecycle_next(LifecycleState::Revoked, LifecycleEvent::AuthenticateOk)
            == LifecycleState::Authenticated,
{
}

} // verus!
