//! Request construction for the typed upstream surface.
//!
//! The typed client's own work — before anything goes on the wire — is to
//! build the target URL from the configured API prefix and the call's
//! parameters, and to reject calls that are malformed before any network
//! contact: a conversation call without its conversation id, or a
//! payload-carrying dispatch with a method that cannot carry one. Those
//! decisions are made here, exactly; the dispatch itself happens outside
//! the library.

use vstd::prelude::*;

use crate::bytestr::{append_bytes, spec_dec, u64_to_dec};
use crate::route::Method;

verus! {

/// A request rejected before any upstream contact: a required parameter
/// was absent.
#[derive(Clone, Debug, PartialEq, Eq)]
pub enum ConfigError {
    RequiredParameter { name: String },
}

/// `/models`
pub open spec fn models_suffix() -> Seq<u8> {
    seq!['/' as u8, 'm' as u8, 'o' as u8, 'd' as u8, 'e' as u8, 'l' as u8, 's' as u8]
}

/// `/conversation/`
pub open spec fn conversation_seg() -> Seq<u8> {
    seq![
        '/' as u8, 'c' as u8, 'o' as u8, 'n' as u8, 'v' as u8, 'e' as u8, 'r' as u8, 's' as u8,
        'a' as u8, 't' as u8, 'i' as u8, 'o' as u8, 'n' as u8, '/' as u8,
    ]
}

/// `/conversation/gen_title/`
pub open spec fn gen_title_seg() -> Seq<u8> {
    conversation_seg() + seq![
        'g' as u8, 'e' as u8, 'n' as u8, '_' as u8, 't' as u8, 'i' as u8, 't' as u8, 'l' as u8,
        'e' as u8, '/' as u8,
    ]
}

/// `/conversations?offset=`
pub open spec fn conversations_query() -> Seq<u8> {
    seq![
        '/' as u8, 'c' as u8, 'o' as u8, 'n' as u8, 'v' as u8, 'e' as u8, 'r' as u8, 's' as u8,
        'a' as u8, 't' as u8, 'i' as u8, 'o' as u8, 'n' as u8, 's' as u8, '?' as u8, 'o' as u8,
        'f' as u8, 'f' as u8, 's' as u8, 'e' as u8, 't' as u8, '=' as u8,
    ]
}

/// `&limit=`
pub open spec fn limit_query() -> Seq<u8> {
    seq!['&' as u8, 'l' as u8, 'i' as u8, 'm' as u8, 'i' as u8, 't' as u8, '=' as u8]
}

/// `&order=updated`
pub open spec fn order_query() -> Seq<u8> {
    seq![
        '&' as u8, 'o' as u8, 'r' as u8, 'd' as u8, 'e' as u8, 'r' as u8, '=' as u8, 'u' as u8,
        'p' as u8, 'd' as u8, 'a' as u8, 't' as u8, 'e' as u8, 'd' as u8,
    ]
}

fn models_suffix_vec() -> (v: Vec<u8>)
    ensures
        v@ == models_suffix(),
{
    let mut v: Vec<u8> = Vec::new();
    v.push('/' as u8);
    v.push('m' as u8);
    v.push('o' as u8);
    v.push('d' as u8);
    v.push('e' as u8);
    v.push('l' as u8);
    v.push('s' as u8);
    proof {
        assert(v@ =~= models_suffix());
    }
    v
}

fn conversation_seg_vec() -> (v: Vec<u8>)
    ensures
        v@ == conversation_seg(),
{
    let mut v: Vec<u8> = Vec::new();
    v.push('/' as u8);
    v.push('c' as u8);
    v.push('o' as u8);
    v.push('n' as u8);
    v.push('v' as u8);
    v.push('e' as u8);
    v.push('r' as u8);
    v.push('s' as u8);
    v.push('a' as u8);
    v.push('t' as u8);
    v.push('i' as u8);
    v.push('o' as u8);
    v.push('n' as u8);
    v.push('/' as u8);
    proof {
        assert(v@ =~= conversation_seg());
    }
    v
}

fn gen_title_seg_vec() -> (v: Vec<u8>)
    ensures
        v@ == gen_title_seg(),
{
    let mut v = conversation_seg_vec();
    v.push('g' as u8);
    v.push('e' as u8);
    v.push('n' as u8);
    v.push('_' as u8);
    v.push('t' as u8);
    v.push('i' as u8);
    v.push('t' as u8);
    v.push('l' as u8);
    v.push('e' as u8);
    v.push('/' as u8);
    proof {
        assert(v@ =~= gen_title_seg());
    }
    v
}

fn conversations_query_vec() -> (v: Vec<u8>)
    ensures
        v@ == conversations_query(),
{
    let mut v: Vec<u8> = Vec::new();
    v.push('/' as u8);
    v.push('c' as u8);
    v.push('o' as u8);
    v.push('n' as u8);
    v.push('v' as u8);
    v.push('e' as u8);
    v.push('r' as u8);
    v.push('s' as u8);
    v.push('a' as u8);
    v.push('t' as u8);
    v.push('i' as u8);
    v.push('o' as u8);
    v.push('n' as u8);
    v.push('s' as u8);
    v.push('?' as u8);
    v.push('o' as u8);
    v.push('f' as u8);
    v.push('f' as u8);
    v.push('s' as u8);
    v.push('e' as u8);
    v.push('t' as u8);
    v.push('=' as u8);
    proof {
        assert(v@ =~= conversations_query());
    }
    v
}

fn limit_query_vec() -> (v: Vec<u8>)
    ensures
        v@ == limit_query(),
{
    let mut v: Vec<u8> = Vec::new();
    v.push('&' as u8);
    v.push('l' as u8);
    v.push('i' as u8);
    v.push('m' as u8);
    v.push('i' as u8);
    v.push('t' as u8);
    v.push('=' as u8);
    proof {
        assert(v@ =~= limit_query());
    }
    v
}

fn order_query_vec() -> (v: Vec<u8>)
    ensures
        v@ == order_query(),
{
    let mut v: Vec<u8> = Vec::new();
    v.push('&' as u8);
    v.push('o' as u8);
    v.push('r' as u8);
    v.push('d' as u8);
    v.push('e' as u8);
    v.push('r' as u8);
    v.push('=' as u8);
    v.push('u' as u8);
    v.push('p' as u8);
    v.push('d' as u8);
    v.push('a' as u8);
    v.push('t' as u8);
    v.push('e' as u8);
    v.push('d' as u8);
    proof {
        assert(v@ =~= order_query());
    }
    v
}

/// Whether a payload-carrying dispatch may use this method; a GET cannot
/// carry one and is rejected before any upstream contact.
pub fn method_carries_payload(m: Method) -> (r: bool)
    ensures
        r == !(m is Get),
{
    m != Method::Get
}

/// The models listing URL: `<base>/models`.
pub fn models_url(base: &[u8]) -> (url: Vec<u8>)
    ensures
        url@ == base@ + models_suffix(),
{
    let mut url: Vec<u8> = Vec::new();
    append_bytes(&mut url, base);
    let suffix = models_suffix_vec();
    append_bytes(&mut url, suffix.as_slice());
    proof {
        assert(Seq::<u8>::empty() + base@ =~= base@);
    }
    url
}

/// The URL of one conversation: `<base>/conversation/<id>`. A call
/// without its conversation id is rejected — exactly then — before any
/// upstream contact.
pub fn conversation_url(base: &[u8], conversation_id: Option<&Vec<u8>>) -> (r: Result<
    Vec<u8>,
    ConfigError,
>)
    ensures
        conversation_id matches Some(id) ==> (r matches Ok(url) && url@ == base@
            + conversation_seg() + id@),
        conversation_id is None ==> (r matches Err(e) && e matches
            ConfigError::RequiredParameter { name } && name@ == "conversation_id"@),
{
    match conversation_id {
        Some(id) => {
            let mut url: Vec<u8> = Vec::new();
            append_bytes(&mut url, base);
            let seg = conversation_seg_vec();
            append_bytes(&mut url, seg.as_slice());
            append_bytes(&mut url, id.as_slice());
            proof {
                assert(Seq::<u8>::empty() + base@ =~= base@);
            }
            Ok(url)
        },
        None => Err(
            ConfigError::RequiredParameter { name: "conversation_id".to_owned() },
        ),
    }
}

/// The gen-title URL: `<base>/conversation/gen_title/<id>`.
pub fn gen_title_url(base: &[u8], conversation_id: &[u8]) -> (url: Vec<u8>)
    ensures
        url@ == base@ + gen_title_seg() + conversation_id@,
{
    let mut url: Vec<u8> = Vec::new();
    append_bytes(&mut url, base);
    let seg = gen_title_seg_vec();
    append_bytes(&mut url, seg.as_slice());
    append_bytes(&mut url, conversation_id);
    proof {
        assert(Seq::<u8>::empty() + base@ =~= base@);
    }
    url
}

/// The conversation listing URL:
/// `<base>/conversations?offset=<offset>&limit=<limit>&order=updated`.
pub fn conversations_url(base: &[u8], offset: u64, limit: u64) -> (url: Vec<u8>)
    ensures
        url@ == base@ + conversations_query() + spec_dec(offset as int) + limit_query()
            + spec_dec(limit as int) + order_query(),
{
    let mut url: Vec<u8> = Vec::new();
    append_bytes(&mut url, base);
    let q = conversations_query_vec();
    append_bytes(&mut url, q.as_slice());
    let off = u64_to_dec(offset);
    append_bytes(&mut url, off.as_slice());
    let lq = limit_query_vec();
    append_bytes(&mut url, lq.as_slice());
    let lim = u64_to_dec(limit);
    append_bytes(&mut url, lim.as_slice());
    let oq = order_query_vec();
    append_bytes(&mut url, oq.as_slice());
    proof {
        assert(Seq::<u8>::empty() + base@ =~= base@);
    }
    url
}

} // verus!
