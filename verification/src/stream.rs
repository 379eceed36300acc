//! The streaming translator.
//!
//! The upstream answers a conversation request with a chunked byte stream
//! whose payload is line-delimited, prefix-tagged JSON records: each data
//! record is a JSON payload on its own line behind the fixed `data: `
//! prefix, and a line holding exactly `data: [DONE]` is the sentinel that
//! ends the stream. Passthrough mode hands the bytes on untouched and
//! needs no code here; decode-and-collect mode is this module. It splits
//! each chunk into lines, skips blank and unrecognised lines, collects the
//! payload of every data record in input order, stops at the sentinel and
//! discards what follows, and treats one undecodable record as a hard
//! error for the whole call — collectors downstream expect a complete,
//! ordered list or nothing.

use vstd::prelude::*;

use crate::bytestr::{append_bytes, bytes_eq, find_byte, is_prefix_of, spec_find, starts_with};

verus! {

/// The tag in front of every data record: `data: `.
pub open spec fn data_prefix() -> Seq<u8> {
    seq!['d' as u8, 'a' as u8, 't' as u8, 'a' as u8, ':' as u8, ' ' as u8]
}

/// The sentinel line that ends the stream: `data: [DONE]`.
pub open spec fn sentinel_line() -> Seq<u8> {
    data_prefix() + seq!['[' as u8, 'D' as u8, 'O' as u8, 'N' as u8, 'E' as u8, ']' as u8]
}

/// Whether the bytes parse as one JSON value. The judgment is made by the
/// JSON parser the gateway ships with; it depends on the bytes alone.
pub uninterp spec fn json_ok(payload: Seq<u8>) -> bool;

/// Relies on serde_json::from_slice::<serde_json::Value>: whether bytes
/// parse as a JSON document is a function of the bytes alone.
#[verifier::external_body]
fn json_record_ok(payload: &[u8]) -> (r: bool)
    ensures
        r == json_ok(payload@),
{
    serde_json::from_slice::<serde_json::Value>(payload).is_ok()
}

/// A record that failed to decode; it carries the offending payload.
#[derive(Clone, Debug, PartialEq, Eq)]
pub struct DecodeError {
    pub payload: Vec<u8>,
}

/// A data record: tagged with the prefix, and not the sentinel.
pub open spec fn is_data_line(line: Seq<u8>) -> bool {
    is_prefix_of(data_prefix(), line) && line != sentinel_line()
}

/// The JSON payload of a data record: the line with the tag stripped.
pub open spec fn payload_of(line: Seq<u8>) -> Seq<u8> {
    line.skip(data_prefix().len() as int)
}

/// A chunk split at every newline; the final fragment (possibly empty) is
/// a line too.
pub open spec fn spec_split_lines(s: Seq<u8>) -> Seq<Seq<u8>>
    decreases s.len(),
{
    let i = spec_find(s, '\n' as u8);
    if i < 0 || i >= s.len() {
        seq![s]
    } else {
        seq![s.take(i)] + spec_split_lines(s.skip(i + 1))
    }
}

/// All lines of a chunk sequence, chunk by chunk, in input order.
pub open spec fn spec_chunk_lines(chunks: Seq<Seq<u8>>) -> Seq<Seq<u8>>
    decreases chunks.len(),
{
    if chunks.len() == 0 {
        Seq::empty()
    } else {
        spec_split_lines(chunks[0]) + spec_chunk_lines(chunks.drop_first())
    }
}

/// What collecting a line sequence is owed: payloads of the data records
/// in input order up to the first sentinel line; blank and unrecognised
/// lines skipped; the first undecodable record before the sentinel fails
/// the whole collection.
pub open spec fn spec_collect_lines(lines: Seq<Seq<u8>>) -> Result<Seq<Seq<u8>>, Seq<u8>>
    decreases lines.len(),
{
    if lines.len() == 0 {
        Ok(Seq::empty())
    } else {
        let line = lines[0];
        if line == sentinel_line() {
            Ok(Seq::empty())
        } else if is_data_line(line) {
            if json_ok(payload_of(line)) {
                match spec_collect_lines(lines.drop_first()) {
                    Ok(rest) => Ok(seq![payload_of(line)] + rest),
                    Err(e) => Err(e),
                }
            } else {
                Err(payload_of(line))
            }
        } else {
            spec_collect_lines(lines.drop_first())
        }
    }
}

/// Decoding an entire chunked stream: collecting the lines of all chunks.
pub open spec fn spec_decode(chunks: Seq<Seq<u8>>) -> Result<Seq<Seq<u8>>, Seq<u8>> {
    spec_collect_lines(spec_chunk_lines(chunks))
}

/// The data-record tag as bytes.
fn data_prefix_vec() -> (v: Vec<u8>)
    ensures
        v@ == data_prefix(),
{
    let mut v: Vec<u8> = Vec::new();
    v.push('d' as u8);
    v.push('a' as u8);
    v.push('t' as u8);
    v.push('a' as u8);
    v.push(':' as u8);
    v.push(' ' as u8);
    proof {
        assert(v@ =~= data_prefix());
    }
    v
}

/// The sentinel line as bytes.
fn sentinel_vec() -> (v: Vec<u8>)
    ensures
        v@ == sentinel_line(),
{
    let mut v = data_prefix_vec();
    v.push('[' as u8);
    v.push('D' as u8);
    v.push('O' as u8);
    v.push('N' as u8);
    v.push('E' as u8);
    v.push(']' as u8);
    proof {
        assert(v@ =~= sentinel_line());
    }
    v
}

/// Split one chunk into its lines.
pub fn split_lines(chunk: &[u8]) -> (r: Vec<Vec<u8>>)
    ensures
        r.deep_view() == spec_split_lines(chunk@),
{
    let mut out: Vec<Vec<u8>> = Vec::new();
    let mut rest: &[u8] = chunk;
    proof {
        assert(out.deep_view() =~= Seq::<Seq<u8>>::empty());
        assert(spec_split_lines(chunk@) =~= out.deep_view() + spec_split_lines(rest@));
    }
    loop
        invariant
            spec_split_lines(chunk@) == out.deep_view() + spec_split_lines(rest@),
        decreases rest@.len(),
    {
        let ghost prev_out = out.deep_view();
        match find_byte(rest, '\n' as u8) {
            None => {
                let line = vstd::slice::slice_to_vec(rest);
                out.push(line);
                proof {
                    assert(spec_split_lines(rest@) == seq![rest@]);
                    assert(out.deep_view() =~~= prev_out + seq![rest@]);
                    assert(prev_out + seq![rest@] =~= spec_split_lines(chunk@));
                }
                return out;
            },
            Some(i) => {
                let rlen = rest.len();
                let line = vstd::slice::slice_to_vec(
                    vstd::slice::slice_subrange(rest, 0, i),
                );
                out.push(line);
                let next: &[u8] = vstd::slice::slice_subrange(rest, i + 1, rlen);
                proof {
                    assert(line@ =~= rest@.take(i as int));
                    assert(next@ =~= rest@.skip(i + 1));
                    assert(out.deep_view() =~~= prev_out + seq![rest@.take(i as int)]);
                    assert(spec_split_lines(rest@) == seq![rest@.take(i as int)]
                        + spec_split_lines(rest@.skip(i + 1)));
                    assert(prev_out + (seq![rest@.take(i as int)] + spec_split_lines(
                        rest@.skip(i + 1),
                    )) =~= (prev_out + seq![rest@.take(i as int)]) + spec_split_lines(
                        rest@.skip(i + 1),
                    ));
                }
                rest = next;
            },
        }
    }
}

/// A collection already holding `prefix`, continued by `r`.
pub open spec fn spec_glue(prefix: Seq<Seq<u8>>, r: Result<Seq<Seq<u8>>, Seq<u8>>) -> Result<
    Seq<Seq<u8>>,
    Seq<u8>,
> {
    match r {
        Ok(rest) => Ok(prefix + rest),
        Err(e) => Err(e),
    }
}

/// Decode-and-collect over a chunked stream, consumed exactly once: the
/// payload of every data record in input order up to the sentinel, or the
/// first undecodable record as a hard error for the whole call.
pub fn decode_collect(chunks: Vec<Vec<u8>>) -> (r: Result<Vec<Vec<u8>>, DecodeError>)
    ensures
        r matches Ok(records) ==> spec_decode(chunks.deep_view()) == Ok::<Seq<Seq<u8>>, Seq<u8>>(
            records.deep_view(),
        ),
        r matches Err(e) ==> spec_decode(chunks.deep_view()) == Err::<Seq<Seq<u8>>, Seq<u8>>(
            e.payload@,
        ),
{
    let sentinel = sentinel_vec();
    let prefix = data_prefix_vec();
    let mut acc: Vec<Vec<u8>> = Vec::new();
    let ghost all = chunks.deep_view();
    let mut ci: usize = 0;
    proof {
        assert(acc.deep_view() =~= Seq::<Seq<u8>>::empty());
        assert(all.skip(0) =~= all);
        assert(spec_decode(all) == spec_glue(
            acc.deep_view(),
            spec_collect_lines(spec_chunk_lines(all.skip(ci as int))),
        ));
    }
    while ci < chunks.len()
        invariant
            all == chunks.deep_view(),
            0 <= ci <= chunks.len(),
            sentinel@ == sentinel_line(),
            prefix@ == data_prefix(),
            spec_decode(all) == spec_glue(
                acc.deep_view(),
                spec_collect_lines(spec_chunk_lines(all.skip(ci as int))),
            ),
        decreases chunks.len() - ci,
    {
        let lines = split_lines(chunks[ci].as_slice());
        let ghost restlines = spec_chunk_lines(all.skip(ci + 1));
        proof {
            let s = all.skip(ci as int);
            assert(s.len() > 0);
            assert(chunks@[ci as int].deep_view() =~= chunks@[ci as int]@);
            assert(s[0] == chunks@[ci as int]@);
            assert(s.drop_first() =~= all.skip(ci + 1));
            assert(spec_chunk_lines(s) == spec_split_lines(chunks@[ci as int]@) + restlines);
        }
        let mut li: usize = 0;
        proof {
            assert(lines.deep_view().skip(0) =~= lines.deep_view());
            assert(spec_decode(all) == spec_glue(
                acc.deep_view(),
                spec_collect_lines(lines.deep_view().skip(li as int) + restlines),
            ));
        }
        while li < lines.len()
            invariant
                all == chunks.deep_view(),
                0 <= li <= lines.len(),
                sentinel@ == sentinel_line(),
                prefix@ == data_prefix(),
                spec_decode(all) == spec_glue(
                    acc.deep_view(),
                    spec_collect_lines(lines.deep_view().skip(li as int) + restlines),
                ),
            decreases lines.len() - li,
        {
            let line: &Vec<u8> = &lines[li];
            let ghost cur = lines.deep_view().skip(li as int) + restlines;
            proof {
                assert(cur.len() > 0);
                assert(lines@[li as int].deep_view() =~= line@);
                assert(cur[0] == line@);
                assert(cur.drop_first() =~= lines.deep_view().skip(li + 1) + restlines);
            }
            if bytes_eq(line.as_slice(), sentinel.as_slice()) {
                proof {
                    assert(spec_collect_lines(cur) == Ok::<Seq<Seq<u8>>, Seq<u8>>(Seq::empty()));
                    assert(acc.deep_view() + Seq::<Seq<u8>>::empty() =~= acc.deep_view());
                }
                return Ok(acc);
            } else if starts_with(line.as_slice(), prefix.as_slice()) {
                let payload = vstd::slice::slice_to_vec(
                    vstd::slice::slice_subrange(line.as_slice(), 6, line.len()),
                );
                proof {
                    assert(line@.subrange(6, line@.len() as int) =~= payload_of(line@));
                    assert(is_data_line(line@));
                }
                if json_record_ok(payload.as_slice()) {
                    let ghost prev_acc = acc.deep_view();
                    acc.push(payload);
                    proof {
                        assert(acc.deep_view() =~~= prev_acc + seq![payload_of(line@)]);
                        assert(spec_collect_lines(cur) == match spec_collect_lines(
                            cur.drop_first(),
                        ) {
                            Ok(rest) => Ok::<Seq<Seq<u8>>, Seq<u8>>(
                                seq![payload_of(line@)] + rest,
                            ),
                            Err(e) => Err(e),
                        });
                        if spec_collect_lines(cur.drop_first()) is Ok {
                            let rest = spec_collect_lines(cur.drop_first())->Ok_0;
                            assert(prev_acc + (seq![payload_of(line@)] + rest) =~= (prev_acc
                                + seq![payload_of(line@)]) + rest);
                        }
                    }
                } else {
                    proof {
                        assert(spec_collect_lines(cur) == Err::<Seq<Seq<u8>>, Seq<u8>>(
                            payload_of(line@),
                        ));
                    }
                    return Err(DecodeError { payload });
                }
            } else {
                proof {
                    assert(spec_collect_lines(cur) == spec_collect_lines(cur.drop_first()));
                }
            }
            li += 1;
        }
        proof {
            assert(lines.deep_view().skip(lines.len() as int) =~= Seq::<Seq<u8>>::empty());
            assert(lines.deep_view().skip(lines.len() as int) + restlines =~= restlines);
        }
        ci += 1;
    }
    proof {
        assert(all.skip(chunks.len() as int) =~= Seq::<Seq<u8>>::empty());
        assert(spec_chunk_lines(Seq::empty()) == Seq::<Seq<u8>>::empty());
        assert(spec_collect_lines(Seq::empty()) == Ok::<Seq<Seq<u8>>, Seq<u8>>(Seq::empty()));
        assert(acc.deep_view() + Seq::<Seq<u8>>::empty() =~= acc.deep_view());
    }
    Ok(acc)
}

/// Law (stream ordering): a line stream framed as any number of
/// well-formed data records followed by the sentinel collects to exactly
/// those payloads, in input order — and collection stops at the sentinel,
/// so whatever lines follow it, malformed ones included, change nothing.
pub proof fn lemma_stream_ordering(payloads: Seq<Seq<u8>>, junk: Seq<Seq<u8>>)
    requires
        forall|i: int| 0 <= i < payloads.len() ==> json_ok(#[trigger] payloads[i]),
        forall|i: int|
            0 <= i < payloads.len() ==> data_prefix() + #[trigger] payloads[i] != sentinel_line(),
    ensures
        spec_collect_lines(
            payloads.map_values(|p: Seq<u8>| data_prefix() + p) + seq![sentinel_line()] + junk,
        ) == Ok::<Seq<Seq<u8>>, Seq<u8>>(payloads),
    decreases payloads.len(),
{
    let f = |p: Seq<u8>| data_prefix() + p;
    let lines = payloads.map_values(f) + seq![sentinel_line()] + junk;
    if payloads.len() == 0 {
        assert(lines[0] == sentinel_line());
        assert(payloads =~= Seq::<Seq<u8>>::empty());
    } else {
        let line = lines[0];
        assert(line == data_prefix() + payloads[0]);
        assert(line.take(6) =~= data_prefix());
        assert(is_data_line(line));
        assert(payload_of(line) =~= payloads[0]);
        lemma_stream_ordering(payloads.drop_first(), junk);
        assert(lines.drop_first() =~= payloads.drop_first().map_values(f) + seq![
            sentinel_line(),
        ] + junk);
        assert(seq![payload_of(line)] + payloads.drop_first() =~= payloads);
    }
}

/// The records joined with commas.
pub open spec fn spec_joined(records: Seq<Seq<u8>>) -> Seq<u8>
    decreases records.len(),
{
    if records.len() == 0 {
        Seq::empty()
    } else if records.len() == 1 {
        records[0]
    } else {
        records[0] + seq![',' as u8] + spec_joined(records.drop_first())
    }
}

/// A collected stream re-emitted as one JSON array document.
pub open spec fn spec_json_array(records: Seq<Seq<u8>>) -> Seq<u8> {
    seq!['[' as u8] + spec_joined(records) + seq![']' as u8]
}

proof fn lemma_joined_push(records: Seq<Seq<u8>>, x: Seq<u8>)
    ensures
        spec_joined(records.push(x)) == if records.len() == 0 {
            x
        } else {
            spec_joined(records) + seq![',' as u8] + x
        },
    decreases records.len(),
{
    if records.len() == 0 {
        assert(records.push(x) =~= seq![x]);
        assert(spec_joined(seq![x]) == x);
    } else {
        lemma_joined_push(records.drop_first(), x);
        assert(records.push(x).drop_first() =~= records.drop_first().push(x));
        if records.len() == 1 {
        } else {
            assert(records[0] + seq![',' as u8] + (spec_joined(records.drop_first()) + seq![
                ',' as u8,
            ] + x) =~= (records[0] + seq![',' as u8] + spec_joined(records.drop_first())) + seq![
                ',' as u8,
            ] + x);
        }
    }
}

/// Render collected records as a JSON array, ready to hand back to the
/// caller as the response body of a collect-mode request.
pub fn render_json_array(records: &Vec<Vec<u8>>) -> (out: Vec<u8>)
    ensures
        out@ == spec_json_array(records.deep_view()),
{
    let mut out: Vec<u8> = Vec::new();
    out.push('[' as u8);
    let mut i: usize = 0;
    proof {
        assert(out@ =~= seq!['[' as u8] + spec_joined(records.deep_view().take(0)));
    }
    while i < records.len()
        invariant
            0 <= i <= records@.len(),
            out@ == seq!['[' as u8] + spec_joined(records.deep_view().take(i as int)),
        decreases records@.len() - i,
    {
        let ghost d = records.deep_view();
        let ghost before = out@;
        if i > 0 {
            out.push(',' as u8);
        }
        append_bytes(&mut out, records[i].as_slice());
        proof {
            assert(d.take(i as int).push(d[i as int]) =~= d.take(i + 1));
            lemma_joined_push(d.take(i as int), d[i as int]);
            assert(records@[i as int].deep_view() =~= records@[i as int]@);
            if i == 0 {
                assert(out@ =~= seq!['[' as u8] + spec_joined(d.take(i + 1)));
            } else {
                assert(out@ =~= seq!['[' as u8] + spec_joined(d.take(i + 1)));
            }
        }
        i += 1;
    }
    out.push(']' as u8);
    proof {
        let d = records.deep_view();
        assert(d.take(d.len() as int) =~= d);
        assert(out@ =~= spec_json_array(d));
    }
    out
}

} // verus!
