//! The producer side of the token relay: per-stream state that ingests raw
//! chunks, reassembles and parses event blocks, and reports the extracted
//! tokens in emission order together with the stream's status.
//!
//! [`spec_run`] is the model: what reading a sequence of complete blocks
//! emits, and where it leaves the stream.  The laws of the pipeline —
//! chunk-boundary invariance, order stability, and idempotent termination —
//! are proved about it below.

use vstd::prelude::*;
use vstd::string::StringExecFns;
use vstd::utf8::{decode_utf8, valid_utf8};

use crate::api::{process_sse, spec_outcome, ApiProvider, SpecOutcome, StreamFault, StreamStatus,
    TokenOutcome};
use crate::buffer::{convert_chunk, first_delim, frames, lemma_frames_concat, lemma_frames_unfold,
    lemma_rest_no_delim, process_buffer, rest_of};
use crate::sse::{convert_sse, spec_parse_block, BlockReading};
use crate::text::{lemma_views_of_push, views_of};

verus! {

/// The tokens and the resulting status of reading a sequence of complete
/// blocks in order, stopping at the first terminal outcome.
pub open spec fn spec_run(p: &ApiProvider, blocks: Seq<Seq<char>>) -> (Seq<Seq<char>>, StreamStatus)
    decreases blocks.len(),
{
    if blocks.len() == 0 {
        (Seq::<Seq<char>>::empty(), StreamStatus::Open)
    } else {
        match spec_parse_block(blocks[0]) {
            BlockReading::Malformed => (
                Seq::<Seq<char>>::empty(),
                StreamStatus::Failed(StreamFault::MalformedEventError),
            ),
            BlockReading::Skip => spec_run(p, blocks.drop_first()),
            BlockReading::Event(n, d) => match spec_outcome(p, n, d) {
                SpecOutcome::Bad => (
                    Seq::<Seq<char>>::empty(),
                    StreamStatus::Failed(StreamFault::PayloadDecodeError),
                ),
                SpecOutcome::Done => (Seq::<Seq<char>>::empty(), StreamStatus::Done),
                SpecOutcome::NoToken => spec_run(p, blocks.drop_first()),
                SpecOutcome::Token(t) => {
                    let rec = spec_run(p, blocks.drop_first());
                    (seq![t] + rec.0, rec.1)
                },
            },
        }
    }
}

/// Reading blocks in two batches agrees with reading them in one: if the
/// first batch leaves the stream open, the whole run emits the first batch's
/// tokens followed by the second batch's and ends in the second's status;
/// if the first batch terminates, the later blocks change nothing.
pub proof fn lemma_spec_run_append(p: &ApiProvider, bs1: Seq<Seq<char>>, bs2: Seq<Seq<char>>)
    ensures
        spec_run(p, bs1).1 == StreamStatus::Open ==> spec_run(p, bs1 + bs2).0 == spec_run(
            p,
            bs1,
        ).0 + spec_run(p, bs2).0 && spec_run(p, bs1 + bs2).1 == spec_run(p, bs2).1,
        spec_run(p, bs1).1 != StreamStatus::Open ==> spec_run(p, bs1 + bs2) == spec_run(p, bs1),
    decreases bs1.len(),
{
    if bs1.len() == 0 {
        assert(bs1 + bs2 =~= bs2);
        assert(spec_run(p, bs1).0 + spec_run(p, bs2).0 =~= spec_run(p, bs2).0);
    } else {
        assert((bs1 + bs2)[0] == bs1[0]);
        assert((bs1 + bs2).drop_first() =~= bs1.drop_first() + bs2);
        lemma_spec_run_append(p, bs1.drop_first(), bs2);
        match spec_parse_block(bs1[0]) {
            BlockReading::Event(n, d) => match spec_outcome(p, n, d) {
                SpecOutcome::Token(t) => {
                    if spec_run(p, bs1.drop_first()).1 == StreamStatus::Open {
                        assert(seq![t] + (spec_run(p, bs1.drop_first()).0 + spec_run(p, bs2).0)
                            =~= (seq![t] + spec_run(p, bs1.drop_first()).0) + spec_run(p, bs2).0);
                    }
                },
                _ => {},
            },
            _ => {},
        }
    }
}

/// Chunk-boundary invariance: relative to any buffered text, feeding `c1`
/// and then `c2` yields exactly the tokens, the status, and the leftover of
/// feeding `c1 + c2` at once.
pub proof fn lemma_chunk_boundary_invariance(
    p: &ApiProvider,
    buf: Seq<char>,
    c1: Seq<char>,
    c2: Seq<char>,
)
    ensures
        ({
            let whole = spec_run(p, frames(buf + (c1 + c2)));
            let first = spec_run(p, frames(buf + c1));
            let second = spec_run(p, frames(rest_of(buf + c1) + c2));
            &&& (first.1 == StreamStatus::Open ==> whole.0 == first.0 + second.0 && whole.1
                == second.1)
            &&& (first.1 != StreamStatus::Open ==> whole == first)
        }),
        rest_of(buf + (c1 + c2)) == rest_of(rest_of(buf + c1) + c2),
{
    assert(buf + (c1 + c2) =~= (buf + c1) + c2);
    lemma_frames_concat(buf + c1, c2);
    lemma_spec_run_append(p, frames(buf + c1), frames(rest_of(buf + c1) + c2));
}

/// The text of a sequence of chunks, in arrival order.
pub open spec fn concat_chunks(chunks: Seq<Seq<char>>) -> Seq<char>
    decreases chunks.len(),
{
    if chunks.len() == 0 {
        Seq::empty()
    } else {
        chunks[0] + concat_chunks(chunks.drop_first())
    }
}

/// Feeding chunks one by one into a buffered text: the tokens of each chunk
/// in turn, and the final status, with nothing read once the stream has
/// terminated.
pub open spec fn spec_feed_all(p: &ApiProvider, buf: Seq<char>, chunks: Seq<Seq<char>>) -> (
    Seq<Seq<char>>,
    StreamStatus,
)
    decreases chunks.len(),
{
    if chunks.len() == 0 {
        (Seq::<Seq<char>>::empty(), StreamStatus::Open)
    } else {
        let first = spec_run(p, frames(buf + chunks[0]));
        if first.1 != StreamStatus::Open {
            first
        } else {
            let rec = spec_feed_all(p, rest_of(buf + chunks[0]), chunks.drop_first());
            (first.0 + rec.0, rec.1)
        }
    }
}

/// Chunk-boundary invariance, in full: however the remaining text is split
/// into chunks, feeding them one by one into an accumulator at rest — one
/// holding no complete block — yields exactly the tokens and the status of
/// feeding the whole text at once.
pub proof fn lemma_rechunking_invariance(p: &ApiProvider, buf: Seq<char>, chunks: Seq<Seq<char>>)
    requires
        first_delim(buf) is None,
    ensures
        spec_feed_all(p, buf, chunks) == spec_run(p, frames(buf + concat_chunks(chunks))),
    decreases chunks.len(),
{
    if chunks.len() == 0 {
        assert(buf + concat_chunks(chunks) =~= buf);
        lemma_frames_unfold(buf);
    } else {
        let c0 = chunks[0];
        let rest = concat_chunks(chunks.drop_first());
        assert(buf + concat_chunks(chunks) =~= (buf + c0) + rest);
        lemma_frames_concat(buf + c0, rest);
        lemma_spec_run_append(p, frames(buf + c0), frames(rest_of(buf + c0) + rest));
        lemma_rest_no_delim(buf + c0);
        lemma_rechunking_invariance(p, rest_of(buf + c0), chunks.drop_first());
    }
}

/// Chunk-boundary invariance at the byte level: splitting the same bytes
/// into two valid chunks feeds the pipeline the same text as feeding them at
/// once, so the tokens, the status, and the leftover agree.
pub proof fn lemma_byte_rechunking(p: &ApiProvider, buf: Seq<char>, c1: Seq<u8>, c2: Seq<u8>)
    requires
        valid_utf8(c1),
        valid_utf8(c2),
    ensures
        valid_utf8(c1 + c2),
        ({
            let whole = spec_run(p, frames(buf + decode_utf8(c1 + c2)));
            let first = spec_run(p, frames(buf + decode_utf8(c1)));
            let second = spec_run(
                p,
                frames(rest_of(buf + decode_utf8(c1)) + decode_utf8(c2)),
            );
            &&& (first.1 == StreamStatus::Open ==> whole.0 == first.0 + second.0 && whole.1
                == second.1)
            &&& (first.1 != StreamStatus::Open ==> whole == first)
        }),
{
    crate::buffer::lemma_decode_utf8_concat(c1, c2);
    lemma_chunk_boundary_invariance(p, buf, decode_utf8(c1), decode_utf8(c2));
}

/// Idempotent termination: a run that has terminated — normally or on a
/// fault — emits nothing more, whatever blocks follow.
pub proof fn lemma_termination_is_final(p: &ApiProvider, bs1: Seq<Seq<char>>, bs2: Seq<Seq<char>>)
    ensures
        spec_run(p, bs1).1 != StreamStatus::Open ==> spec_run(p, bs1 + bs2) == spec_run(p, bs1),
{
    lemma_spec_run_append(p, bs1, bs2);
}

/// Order stability: the tokens a run emits are a stable prefix — reading
/// further blocks only appends tokens, never reorders or drops earlier ones.
pub proof fn lemma_emission_order(p: &ApiProvider, bs1: Seq<Seq<char>>, bs2: Seq<Seq<char>>)
    ensures
        spec_run(p, bs1 + bs2).0.take(spec_run(p, bs1).0.len() as int) == spec_run(p, bs1).0,
{
    lemma_spec_run_append(p, bs1, bs2);
    if spec_run(p, bs1).1 == StreamStatus::Open {
        assert((spec_run(p, bs1).0 + spec_run(p, bs2).0).take(spec_run(p, bs1).0.len() as int)
            =~= spec_run(p, bs1).0);
    } else {
        assert(spec_run(p, bs1).0.take(spec_run(p, bs1).0.len() as int) =~= spec_run(p, bs1).0);
    }
}

/// The per-stream state of the producer: the reassembly accumulator, and
/// whether the stream has terminated.
pub struct StreamState {
    /// The partial block that past chunks left behind.
    pub buffer: String,
    /// True once the stream has terminated, normally or on a fault.
    pub closed: bool,
}

impl StreamState {
    /// A fresh stream: empty accumulator, open.
    pub fn new() -> (r: StreamState)
        ensures
            r.buffer@ == Seq::<char>::empty(),
            !r.closed,
    {
        StreamState { buffer: String::new(), closed: false }
    }

    /// Feeds one chunk of already-decoded text: reassembles blocks, parses
    /// and reads each complete event in order, and reports the tokens in
    /// emission order together with the stream's status.  A closed stream
    /// swallows the chunk and emits nothing.
    pub fn ingest_text(&mut self, provider: &ApiProvider, chunk: &str) -> (r: (
        Vec<String>,
        StreamStatus,
    ))
        ensures
            old(self).closed ==> final(self).buffer@ == old(self).buffer@ && final(self).closed && r.0@
                == Seq::<String>::empty() && r.1 == StreamStatus::Done,
            !old(self).closed ==> ({
                let run = spec_run(provider, frames(old(self).buffer@ + chunk@));
                &&& views_of(r.0@) == run.0
                &&& r.1 == run.1
                &&& final(self).buffer@ == rest_of(old(self).buffer@ + chunk@)
                &&& final(self).closed == (run.1 != StreamStatus::Open)
            }),
    {
        if self.closed {
            return (Vec::new(), StreamStatus::Done);
        }
        self.buffer.append(chunk);
        let (blocks, remainder) = process_buffer(&self.buffer);
        self.buffer = remainder;
        let ghost bs = views_of(blocks@);
        let mut tokens: Vec<String> = Vec::new();
        let mut status: StreamStatus = StreamStatus::Open;
        let mut i: usize = 0;
        proof {
            assert(bs.skip(0) =~= bs);
            assert(views_of(tokens@) + spec_run(provider, bs).0 =~= spec_run(provider, bs).0);
        }
        while i < blocks.len() && status == StreamStatus::Open
            invariant
                0 <= i <= blocks.len(),
                bs == views_of(blocks@),
                status == StreamStatus::Open ==> ({
                    let rec = spec_run(provider, bs.skip(i as int));
                    spec_run(provider, bs).0 == views_of(tokens@) + rec.0 && spec_run(
                        provider,
                        bs,
                    ).1 == rec.1
                }),
                status != StreamStatus::Open ==> spec_run(provider, bs).0 == views_of(tokens@)
                    && spec_run(provider, bs).1 == status,
            decreases blocks.len() - i, if status == StreamStatus::Open {
                1int
            } else {
                0int
            },
        {
            let ghost tail = bs.skip(i as int);
            proof {
                assert(tail[0] == bs[i as int]);
                assert(tail.drop_first() =~= bs.skip(i as int + 1));
            }
            let block = &blocks[i];
            match convert_sse(block.as_str()) {
                Err(f) => {
                    status = StreamStatus::Failed(f);
                },
                Ok(None) => {
                    i = i + 1;
                },
                Ok(Some(ev)) => {
                    match process_sse(provider, ev) {
                        Err(f) => {
                            status = StreamStatus::Failed(f);
                        },
                        Ok(TokenOutcome::StreamDone) => {
                            status = StreamStatus::Done;
                        },
                        Ok(TokenOutcome::NoToken) => {
                            i = i + 1;
                        },
                        Ok(TokenOutcome::Token(t)) => {
                            let ghost prev = tokens@;
                            let ghost tv = t@;
                            proof {
                                lemma_views_of_push(prev, t);
                            }
                            tokens.push(t);
                            proof {
                                let rec = spec_run(provider, tail.drop_first());
                                assert(views_of(prev) + (seq![tv] + rec.0) =~= views_of(
                                    tokens@,
                                ) + rec.0);
                            }
                            i = i + 1;
                        },
                    }
                },
            }
        }
        proof {
            if status == StreamStatus::Open {
                assert(bs.skip(blocks@.len() as int) =~= Seq::<Seq<char>>::empty());
                assert(views_of(tokens@) + Seq::<Seq<char>>::empty() =~= views_of(tokens@));
            }
        }
        if !(status == StreamStatus::Open) {
            self.closed = true;
        }
        (tokens, status)
    }

    /// Feeds one raw chunk of bytes.  A chunk that is not valid text on its
    /// own is the fatal [`StreamFault::DecodingError`]; otherwise the decoded
    /// text is ingested.
    pub fn ingest_chunk(&mut self, provider: &ApiProvider, chunk: &[u8]) -> (r: (
        Vec<String>,
        StreamStatus,
    ))
        ensures
            old(self).closed ==> final(self).buffer@ == old(self).buffer@ && final(self).closed && r.0@
                == Seq::<String>::empty() && r.1 == StreamStatus::Done,
            !old(self).closed && !valid_utf8(chunk@) ==> ({
                &&& r.0@ == Seq::<String>::empty()
                &&& r.1 == StreamStatus::Failed(StreamFault::DecodingError)
                &&& final(self).buffer@ == old(self).buffer@
                &&& final(self).closed
            }),
            !old(self).closed && valid_utf8(chunk@) ==> ({
                let run = spec_run(provider, frames(old(self).buffer@ + decode_utf8(chunk@)));
                &&& views_of(r.0@) == run.0
                &&& r.1 == run.1
                &&& final(self).buffer@ == rest_of(old(self).buffer@ + decode_utf8(chunk@))
                &&& final(self).closed == (run.1 != StreamStatus::Open)
            }),
    {
        if self.closed {
            return (Vec::new(), StreamStatus::Done);
        }
        match convert_chunk(chunk) {
            Ok(text) => self.ingest_text(provider, text.as_str()),
            Err(f) => {
                self.closed = true;
                (Vec::new(), StreamStatus::Failed(f))
            },
        }
    }
}

} // verus!
