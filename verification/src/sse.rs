//! The Server-Sent-Event grammar: one block is either empty (no event), or a
//! mandatory `data: <payload>` line optionally preceded by an `event: <name>`
//! line, where the name is one or more word characters and the payload is the
//! remainder of its line.  Content after the data line is tolerated and
//! ignored; anything else is a framing fault.

use vstd::prelude::*;
use vstd::string::StrSliceExecFns;

use crate::api::StreamFault;
use crate::text::{check_prefix_at, find_char_from, find_char_in, lemma_find_char_from,
    starts_with_at};

verus! {

/// One parsed event: an optional name and the data payload.
#[derive(Debug)]
pub struct SSEvent {
    pub event: Option<String>,
    pub data: String,
}

impl SSEvent {
    /// The event name at the character level.
    pub open spec fn name_view(&self) -> Option<Seq<char>> {
        match self.event {
            Some(s) => Some(s@),
            None => None,
        }
    }
}

/// The line prefix that names an event.
pub open spec fn event_prefix() -> Seq<char> {
    "event: "@
}

/// The line prefix that carries an event's payload.
pub open spec fn data_prefix() -> Seq<char> {
    "data: "@
}

/// A word character: an ASCII letter, a digit, or an underscore.
pub open spec fn is_word_char(c: char) -> bool {
    (97 <= c as u32 && c as u32 <= 122)  // 'a' ..= 'z'
     || (65 <= c as u32 && c as u32 <= 90)  // 'A' ..= 'Z'
     || (48 <= c as u32 && c as u32 <= 57)  // '0' ..= '9'
     || c as u32 == 95  // '_'

}

/// A legal event name: one or more word characters.
pub open spec fn is_word_seq(s: Seq<char>) -> bool {
    s.len() > 0 && (forall|i: int| 0 <= i < s.len() ==> is_word_char(s[i]))
}

/// Where the line that starts at `from` ends: the index of the next newline,
/// or the end of the block.
pub open spec fn line_end(b: Seq<char>, from: int) -> int {
    match find_char_from(b, from, '\n') {
        Some(k) => k,
        None => b.len() as int,
    }
}

/// What one event block parses to.
pub enum BlockReading {
    /// An empty block: no event there, silently skipped.
    Skip,
    /// An event: its optional name and its data payload.
    Event(Option<Seq<char>>, Seq<char>),
    /// Neither form of the grammar: a framing fault.
    Malformed,
}

/// The grammar of one block that begins with the `event: ` prefix.
pub open spec fn spec_parse_named(b: Seq<char>) -> BlockReading {
    let k = line_end(b, event_prefix().len() as int);
    let name = b.subrange(event_prefix().len() as int, k);
    let dstart = k + 1 + data_prefix().len();
    if is_word_seq(name) && starts_with_at(b, data_prefix(), k + 1) {
        BlockReading::Event(Some(name), b.subrange(dstart, line_end(b, dstart)))
    } else {
        BlockReading::Malformed
    }
}

/// The grammar of one event block.
pub open spec fn spec_parse_block(b: Seq<char>) -> BlockReading {
    if b.len() == 0 {
        BlockReading::Skip
    } else if starts_with_at(b, data_prefix(), 0) {
        BlockReading::Event(
            None,
            b.subrange(data_prefix().len() as int, line_end(b, data_prefix().len() as int)),
        )
    } else if starts_with_at(b, event_prefix(), 0) {
        spec_parse_named(b)
    } else {
        BlockReading::Malformed
    }
}

/// Decides [`is_word_seq`].
fn word_check(s: &str) -> (r: bool)
    ensures
        r == is_word_seq(s@),
{
    let n: usize = s.unicode_len();
    if n == 0 {
        return false;
    }
    let mut i: usize = 0;
    while i < n
        invariant
            0 <= i <= n,
            n == s@.len(),
            forall|j: int| 0 <= j < i ==> is_word_char(s@[j]),
        decreases n - i,
    {
        let c = s.get_char(i);
        let u = c as u32;
        if !((97 <= u && u <= 122) || (65 <= u && u <= 90) || (48 <= u && u <= 57) || u == 95) {
            return false;
        }
        i = i + 1;
    }
    true
}

/// Parses one event block: an empty block is no event, a block of the
/// two-line grammar is an event, and anything else is a
/// [`StreamFault::MalformedEventError`].
pub fn convert_sse(message: &str) -> (r: Result<Option<SSEvent>, StreamFault>)
    ensures
        match spec_parse_block(message@) {
            BlockReading::Skip => r == Ok::<Option<SSEvent>, StreamFault>(None),
            BlockReading::Event(n, d) => (r matches Ok(Some(ev)) && ev.name_view() == n
                && ev.data@ == d),
            BlockReading::Malformed => r == Err::<Option<SSEvent>, StreamFault>(
                StreamFault::MalformedEventError,
            ),
        },
{
    let n: usize = message.unicode_len();
    if n == 0 {
        return Ok(None);
    }
    proof {
        reveal_strlit("data: ");
        reveal_strlit("event: ");
    }
    if check_prefix_at(message, "data: ", 0) {
        let dstart: usize = 6;
        let dend: usize = match find_char_in(message, dstart, '\n') {
            Some(k) => k,
            None => n,
        };
        proof {
            lemma_find_char_from(message@, dstart as int, '\n');
        }
        let payload = message.substring_char(dstart, dend);
        return Ok(Some(SSEvent { event: None, data: payload.to_owned() }));
    }
    if check_prefix_at(message, "event: ", 0) {
        let estart: usize = 7;
        let k: usize = match find_char_in(message, estart, '\n') {
            Some(k) => k,
            None => n,
        };
        proof {
            lemma_find_char_from(message@, estart as int, '\n');
        }
        let name = message.substring_char(estart, k);
        if !word_check(name) {
            return Err(StreamFault::MalformedEventError);
        }
        if k >= n {
            return Err(StreamFault::MalformedEventError);
        }
        if !check_prefix_at(message, "data: ", k + 1) {
            return Err(StreamFault::MalformedEventError);
        }
        let dstart: usize = k + 7;
        let dend: usize = match find_char_in(message, dstart, '\n') {
            Some(x) => x,
            None => n,
        };
        proof {
            lemma_find_char_from(message@, dstart as int, '\n');
        }
        let payload = message.substring_char(dstart, dend);
        return Ok(Some(SSEvent { event: Some(name.to_owned()), data: payload.to_owned() }));
    }
    Err(StreamFault::MalformedEventError)
}

} // verus!
