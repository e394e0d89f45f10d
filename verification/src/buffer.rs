//! Chunk reassembly: raw text fragments accumulate in a buffer, and every
//! complete event block — the text strictly before a blank-line delimiter
//! (`"\n\n"`) — is extracted in arrival order.  The trailing partial block
//! stays in the buffer for the next chunk.
//!
//! The model is given by [`frames`] (the complete blocks of a text, in order)
//! and [`rest_of`] (the partial block left over); [`process_buffer`] computes
//! both.

use vstd::prelude::*;
use vstd::string::StrSliceExecFns;
use vstd::utf8::{decode_utf8, decode_utf8_split, is_char_boundary, length_of_first_scalar,
    pop_first_scalar, valid_utf8, valid_utf8_concat};

use crate::api::StreamFault;
use crate::text::{lemma_views_of_push, views_of};

verus! {

/// Relies on std::str::from_utf8: it succeeds exactly on valid UTF-8 input
/// and returns the text that the bytes decode to.
#[verifier::external_body]
fn utf8_chunk_text(chunk: &[u8]) -> (r: Option<String>)
    ensures
        r is Some <==> valid_utf8(chunk@),
        r is Some ==> r.unwrap()@ == decode_utf8(chunk@),
{
    match std::str::from_utf8(chunk) {
        Ok(s) => Some(s.to_owned()),
        Err(_) => None,
    }
}

/// The end of a valid chunk is a character boundary of any valid text it
/// begins.
proof fn lemma_boundary_at_prefix(c1: Seq<u8>, c2: Seq<u8>)
    requires
        valid_utf8(c1),
        valid_utf8(c1 + c2),
    ensures
        is_char_boundary(c1 + c2, c1.len() as int),
    decreases c1.len(),
{
    if c1.len() == 0 {
    } else {
        let k = length_of_first_scalar(c1);
        assert((c1 + c2)[0] == c1[0]);
        assert(1 <= k <= c1.len());
        assert(length_of_first_scalar(c1 + c2) == k);
        assert(pop_first_scalar(c1 + c2) =~= pop_first_scalar(c1) + c2);
        lemma_boundary_at_prefix(pop_first_scalar(c1), c2);
    }
}

/// Decoding respects chunk boundaries: two valid chunks decode, together, to
/// the decoding of the one and then the other.
pub proof fn lemma_decode_utf8_concat(c1: Seq<u8>, c2: Seq<u8>)
    requires
        valid_utf8(c1),
        valid_utf8(c2),
    ensures
        valid_utf8(c1 + c2),
        decode_utf8(c1 + c2) == decode_utf8(c1) + decode_utf8(c2),
{
    valid_utf8_concat(c1, c2);
    lemma_boundary_at_prefix(c1, c2);
    decode_utf8_split(c1 + c2, c1.len() as int);
    assert((c1 + c2).subrange(0, c1.len() as int) =~= c1);
    assert((c1 + c2).subrange(c1.len() as int, (c1 + c2).len() as int) =~= c2);
}

/// Decodes one raw chunk, or reports the fatal
/// [`StreamFault::DecodingError`] when the chunk is not valid text on its
/// own (for instance, when a chunk boundary split a multi-byte character).
pub fn convert_chunk(chunk: &[u8]) -> (r: Result<String, StreamFault>)
    ensures
        valid_utf8(chunk@) ==> (r matches Ok(s) && s@ == decode_utf8(chunk@)),
        !valid_utf8(chunk@) ==> r == Err::<String, StreamFault>(StreamFault::DecodingError),
{
    match utf8_chunk_text(chunk) {
        Some(s) => Ok(s),
        None => Err(StreamFault::DecodingError),
    }
}

/// A blank-line delimiter starts at index `i` of `s`.
pub open spec fn delim_at(s: Seq<char>, i: int) -> bool {
    0 <= i && i + 1 < s.len() && s[i] == '\n' && s[i + 1] == '\n'
}

/// The least index of `s` where a blank-line delimiter starts, if any.
pub open spec fn first_delim(s: Seq<char>) -> Option<int>
    decreases s.len(),
{
    if s.len() < 2 {
        None
    } else if s[0] == '\n' && s[1] == '\n' {
        Some(0int)
    } else {
        match first_delim(s.drop_first()) {
            Some(i) => Some(i + 1),
            None => None,
        }
    }
}

/// The complete event blocks of `s`, in order: each is the text strictly
/// before a blank-line delimiter, starting after the previous delimiter.
pub open spec fn frames(s: Seq<char>) -> Seq<Seq<char>>
    decreases s.len(),
{
    match first_delim(s) {
        Some(i) => if 0 <= i && i + 2 <= s.len() {
            seq![s.take(i)] + frames(s.skip(i + 2))
        } else {
            Seq::empty()
        },
        None => Seq::empty(),
    }
}

/// The trailing partial block of `s`: what remains after every complete
/// block and its delimiter.
pub open spec fn rest_of(s: Seq<char>) -> Seq<char>
    decreases s.len(),
{
    match first_delim(s) {
        Some(i) => if 0 <= i && i + 2 <= s.len() {
            rest_of(s.skip(i + 2))
        } else {
            s
        },
        None => s,
    }
}

/// `first_delim` finds exactly the least delimiter position.
pub proof fn lemma_first_delim(s: Seq<char>)
    ensures
        match first_delim(s) {
            Some(i) => delim_at(s, i) && (forall|j: int| 0 <= j < i ==> !delim_at(s, j)),
            None => forall|j: int| !delim_at(s, j),
        },
    decreases s.len(),
{
    if s.len() < 2 {
    } else if s[0] == '\n' && s[1] == '\n' {
    } else {
        lemma_first_delim(s.drop_first());
        assert forall|j: int| 1 <= j implies delim_at(s, j) == delim_at(s.drop_first(), j - 1) by {
            if 0 <= j - 1 && j + 1 < s.len() {
                assert(s.drop_first()[j - 1] == s[j]);
                assert(s.drop_first()[j] == s[j + 1]);
            }
        }
    }
}

/// Conversely, the least delimiter position determines `first_delim`.
pub proof fn lemma_first_delim_is(s: Seq<char>, i: int)
    requires
        delim_at(s, i),
        forall|j: int| 0 <= j < i ==> !delim_at(s, j),
    ensures
        first_delim(s) == Some(i),
    decreases s.len(),
{
    if i == 0 {
    } else {
        assert(!delim_at(s, 0));
        assert(delim_at(s.drop_first(), i - 1)) by {
            assert(s.drop_first()[i - 1] == s[i]);
            assert(s.drop_first()[i] == s[i + 1]);
        }
        assert forall|j: int| 0 <= j < i - 1 implies !delim_at(s.drop_first(), j) by {
            assert(!delim_at(s, j + 1));
            assert(s.drop_first()[j] == s[j + 1]);
            if j + 2 < s.len() {
                assert(s.drop_first()[j + 1] == s[j + 2]);
            }
        }
        lemma_first_delim_is(s.drop_first(), i - 1);
    }
}

/// Unfolds `frames` and `rest_of` one step, with the delimiter bounds that
/// [`lemma_first_delim`] guarantees.
pub proof fn lemma_frames_unfold(s: Seq<char>)
    ensures
        match first_delim(s) {
            Some(i) => 0 <= i && i + 2 <= s.len() && frames(s) == seq![s.take(i)] + frames(
                s.skip(i + 2),
            ) && rest_of(s) == rest_of(s.skip(i + 2)),
            None => frames(s) == Seq::<Seq<char>>::empty() && rest_of(s) == s,
        },
{
    lemma_first_delim(s);
}

/// The leftover of a text holds no delimiter.
pub proof fn lemma_rest_no_delim(s: Seq<char>)
    ensures
        first_delim(rest_of(s)) is None,
    decreases s.len(),
{
    lemma_frames_unfold(s);
    match first_delim(s) {
        Some(i) => {
            lemma_rest_no_delim(s.skip(i + 2));
        },
        None => {
            lemma_first_delim(s);
            if first_delim(rest_of(s)) is Some {
                lemma_first_delim(rest_of(s));
            }
        },
    }
}

/// The accumulator at rest holds no complete block: after extraction, the
/// leftover text has no frame of its own.
pub proof fn lemma_rest_at_rest(s: Seq<char>)
    ensures
        first_delim(rest_of(s)) is None,
        frames(rest_of(s)) == Seq::<Seq<char>>::empty(),
{
    lemma_rest_no_delim(s);
    lemma_frames_unfold(rest_of(s));
}

/// The text of a sequence of blocks, each closed by its delimiter.
pub open spec fn glue_frames(bs: Seq<Seq<char>>) -> Seq<char>
    decreases bs.len(),
{
    if bs.len() == 0 {
        Seq::empty()
    } else {
        bs[0] + "\n\n"@ + glue_frames(bs.drop_first())
    }
}

/// The blocks and the leftover reconstruct the text: nothing is dropped,
/// invented, or reordered by extraction.
pub proof fn lemma_frames_reconstruct(s: Seq<char>)
    ensures
        glue_frames(frames(s)) + rest_of(s) == s,
    decreases s.len(),
{
    reveal_strlit("\n\n");
    lemma_frames_unfold(s);
    match first_delim(s) {
        Some(i) => {
            lemma_first_delim(s);
            lemma_frames_reconstruct(s.skip(i + 2));
            assert(frames(s).drop_first() =~= frames(s.skip(i + 2)));
            assert(glue_frames(frames(s)) == s.take(i) + "\n\n"@ + glue_frames(
                frames(s.skip(i + 2)),
            ));
            assert((s.take(i) + "\n\n"@ + glue_frames(frames(s.skip(i + 2)))) + rest_of(s)
                =~= (s.take(i) + "\n\n"@) + (glue_frames(frames(s.skip(i + 2))) + rest_of(
                s.skip(i + 2),
            )));
            assert((s.take(i) + "\n\n"@) + s.skip(i + 2) =~= s);
        },
        None => {
            assert(glue_frames(frames(s)) + rest_of(s) =~= s);
        },
    }
}

/// A delimiter of the prefix is found at the same place in the whole.
proof fn lemma_first_delim_prefix(a: Seq<char>, b: Seq<char>, i: int)
    requires
        first_delim(a) == Some(i),
    ensures
        first_delim(a + b) == Some(i),
{
    lemma_first_delim(a);
    assert(delim_at(a + b, i)) by {
        assert((a + b)[i] == a[i]);
        assert((a + b)[i + 1] == a[i + 1]);
    }
    assert forall|j: int| 0 <= j < i implies !delim_at(a + b, j) by {
        assert(!delim_at(a, j));
        assert((a + b)[j] == a[j]);
        assert((a + b)[j + 1] == a[j + 1]);
    }
    lemma_first_delim_is(a + b, i);
}

/// Blocks are extracted exactly as if all of the text had been seen at once:
/// the blocks of `a + b` are the blocks of `a` followed by the blocks of
/// `a`'s leftover extended by `b`, and the leftovers agree.
pub proof fn lemma_frames_concat(a: Seq<char>, b: Seq<char>)
    ensures
        frames(a + b) == frames(a) + frames(rest_of(a) + b),
        rest_of(a + b) == rest_of(rest_of(a) + b),
    decreases a.len(),
{
    lemma_frames_unfold(a);
    match first_delim(a) {
        Some(i) => {
            lemma_first_delim_prefix(a, b, i);
            lemma_frames_unfold(a + b);
            assert((a + b).take(i) =~= a.take(i));
            assert((a + b).skip(i + 2) =~= a.skip(i + 2) + b);
            lemma_frames_concat(a.skip(i + 2), b);
            assert(frames(a + b) =~= frames(a) + frames(rest_of(a) + b));
        },
        None => {
            assert(rest_of(a) + b =~= a + b);
            assert(frames(a + b) =~= frames(a) + frames(rest_of(a) + b));
        },
    }
}

/// Finds the least blank-line delimiter of `s` at or after `from`.
fn find_delim_from(s: &str, from: usize) -> (r: Option<usize>)
    requires
        from <= s@.len(),
    ensures
        match r {
            Some(j) => from <= j && delim_at(s@, j as int) && (forall|k: int|
                from <= k < j ==> !delim_at(s@, k)),
            None => forall|k: int| from <= k ==> !delim_at(s@, k),
        },
{
    let n: usize = s.unicode_len();
    let mut j: usize = from;
    while j < n
        invariant
            from <= j <= n,
            n == s@.len(),
            forall|k: int| from <= k < j ==> !delim_at(s@, k),
        decreases n - j,
    {
        if j + 1 < n {
            let c0 = s.get_char(j);
            let c1 = s.get_char(j + 1);
            if c0 == '\n' && c1 == '\n' {
                return Some(j);
            }
        }
        j = j + 1;
    }
    None
}

/// Splits accumulated text into its complete event blocks, in order, and the
/// trailing partial block.
pub fn process_buffer(input: &String) -> (r: (Vec<String>, String))
    ensures
        views_of(r.0@) == frames(input@),
        r.1@ == rest_of(input@),
{
    let s: &str = input.as_str();
    let n: usize = s.unicode_len();
    let mut blocks: Vec<String> = Vec::new();
    let mut pos: usize = 0;
    let mut scanning: bool = true;
    proof {
        assert(input@.skip(0) =~= input@);
        assert(views_of(blocks@) + frames(input@) =~= frames(input@));
    }
    while scanning
        invariant
            s@ == input@,
            n == input@.len(),
            0 <= pos <= n,
            views_of(blocks@) + frames(input@.skip(pos as int)) == frames(input@),
            rest_of(input@.skip(pos as int)) == rest_of(input@),
            !scanning ==> first_delim(input@.skip(pos as int)) is None,
        decreases n - pos, if scanning {
            1int
        } else {
            0int
        },
    {
        let ghost t = input@.skip(pos as int);
        match find_delim_from(s, pos) {
            Some(j) => {
                proof {
                    let di = j - pos;
                    assert(delim_at(t, di)) by {
                        assert(t[di] == input@[pos + di]);
                        assert(t[di + 1] == input@[pos + di + 1]);
                    }
                    assert forall|m: int| 0 <= m < di implies !delim_at(t, m) by {
                        assert(!delim_at(input@, pos + m));
                        assert(t[m] == input@[pos + m]);
                        if pos + m + 1 < input@.len() {
                            assert(t[m + 1] == input@[pos + m + 1]);
                        }
                    }
                    lemma_first_delim_is(t, di);
                    lemma_frames_unfold(t);
                }
                let block = s.substring_char(pos, j).to_owned();
                let ghost prev = blocks@;
                blocks.push(block);
                proof {
                    let di = j - pos;
                    lemma_views_of_push(prev, block);
                    assert(t.take(di) =~= input@.subrange(pos as int, j as int));
                    assert(t.skip(di + 2) =~= input@.skip(j as int + 2));
                    assert(views_of(blocks@) + frames(input@.skip(j as int + 2)) =~= views_of(
                        prev,
                    ) + (seq![t.take(di)] + frames(t.skip(di + 2))));
                }
                pos = j + 2;
            },
            None => {
                proof {
                    lemma_first_delim(t);
                    if first_delim(t) is Some {
                        let di = first_delim(t).unwrap();
                        assert(delim_at(input@, pos + di)) by {
                            assert(t[di] == input@[pos + di]);
                            assert(t[di + 1] == input@[pos + di + 1]);
                        }
                        assert(false);
                    }
                }
                scanning = false;
            },
        }
    }
    proof {
        lemma_frames_unfold(input@.skip(pos as int));
        assert(views_of(blocks@) =~= views_of(blocks@) + frames(input@.skip(pos as int)));
        assert(input@.skip(pos as int) =~= input@.subrange(pos as int, n as int));
    }
    let remainder = s.substring_char(pos, n).to_owned();
    (blocks, remainder)
}

} // verus!
