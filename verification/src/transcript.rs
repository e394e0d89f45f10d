//! Structuring raw input into a chat request: a transcript is a sequence of
//! sections introduced by separator lines naming the speaker; a leading
//! system section becomes the system prompt; input without separators is one
//! user message under the default prompt.

use vstd::prelude::*;
use vstd::string::{StrSliceExecFns, StringExecFns};

use crate::api::{ChatMessage, ChatRequest, ChatRole};
use crate::text::{find_char_from, find_char_in, lemma_find_char_from, str_eq, views_of};

verus! {

/// The transcript separator lines, and the role each introduces.
pub open spec fn spec_separator(line: Seq<char>) -> Option<ChatRole> {
    if line == "===SYSTEM==="@ {
        Some(ChatRole::System)
    } else if line == "===USER==="@ {
        Some(ChatRole::User)
    } else if line == "===ASSISSTANT==="@ {
        Some(ChatRole::Assistant)
    } else {
        None
    }
}

/// Decides [`spec_separator`].
pub fn match_separator(line: &str) -> (r: Option<ChatRole>)
    ensures
        r == spec_separator(line@),
{
    if str_eq(line, "===SYSTEM===") {
        Some(ChatRole::System)
    } else if str_eq(line, "===USER===") {
        Some(ChatRole::User)
    } else if str_eq(line, "===ASSISSTANT===") {
        Some(ChatRole::Assistant)
    } else {
        None
    }
}

/// The prompt that stands when the input supplies no system section.
pub open spec fn default_prompt() -> Seq<char> {
    "You are a helpful assistant who provides brief explanations and short code snippets for linux command-line tools and languages like neovim, Docker, rust and python. Your user is an expert programmer. You do not show lengthy steps or setup instructions. Only provide answers in cases where you know the answer. Feel free to say \"I don't know.\" Do not suggest contacting support."@
}

/// The default system prompt.
pub fn get_default_prompt() -> (r: String)
    ensures
        r@ == default_prompt(),
{
    String::from_str(
        "You are a helpful assistant who provides brief explanations and short code snippets for linux command-line tools and languages like neovim, Docker, rust and python. Your user is an expert programmer. You do not show lengthy steps or setup instructions. Only provide answers in cases where you know the answer. Feel free to say \"I don't know.\" Do not suggest contacting support.",
    )
}

/// A newline-terminated line's content: a trailing carriage return is not
/// part of it.
pub open spec fn strip_cr(l: Seq<char>) -> Seq<char> {
    if l.len() > 0 && l[l.len() - 1] == '\r' {
        l.drop_last()
    } else {
        l
    }
}

/// The lines of `s` from index `from` on: split at newlines, a carriage
/// return before a newline dropped, no empty final line after a trailing
/// newline.
pub open spec fn spec_lines_from(s: Seq<char>, from: int) -> Seq<Seq<char>>
    decreases s.len() - from,
{
    if from < 0 || from >= s.len() {
        Seq::empty()
    } else {
        match find_char_from(s, from, '\n') {
            Some(k) => if from <= k < s.len() {
                seq![strip_cr(s.subrange(from, k))] + spec_lines_from(s, k + 1)
            } else {
                Seq::empty()
            },
            None => seq![s.subrange(from, s.len() as int)],
        }
    }
}

/// Splits text into its lines.
pub fn split_lines(s: &str) -> (r: Vec<String>)
    ensures
        views_of(r@) == spec_lines_from(s@, 0),
{
    let n: usize = s.unicode_len();
    let mut lines: Vec<String> = Vec::new();
    let mut pos: usize = 0;
    proof {
        assert(views_of(lines@) + spec_lines_from(s@, 0) =~= spec_lines_from(s@, 0));
    }
    while pos < n
        invariant
            0 <= pos <= n,
            n == s@.len(),
            views_of(lines@) + spec_lines_from(s@, pos as int) == spec_lines_from(s@, 0),
        decreases n - pos,
    {
        let ghost prev = lines@;
        match find_char_in(s, pos, '\n') {
            Some(k) => {
                proof {
                    lemma_find_char_from(s@, pos as int, '\n');
                }
                let lend: usize = if k > pos && s.get_char(k - 1) == '\r' {
                    k - 1
                } else {
                    k
                };
                let line = s.substring_char(pos, lend).to_owned();
                lines.push(line);
                proof {
                    assert(strip_cr(s@.subrange(pos as int, k as int)) =~= s@.subrange(
                        pos as int,
                        lend as int,
                    ));
                    assert(views_of(lines@) =~= views_of(prev).push(line@));
                    assert(views_of(prev).push(line@) + spec_lines_from(s@, k as int + 1)
                        =~= views_of(prev) + (seq![strip_cr(s@.subrange(pos as int, k as int))]
                        + spec_lines_from(s@, k as int + 1)));
                }
                pos = k + 1;
            },
            None => {
                let line = s.substring_char(pos, n).to_owned();
                lines.push(line);
                proof {
                    assert(views_of(lines@) =~= views_of(prev).push(line@));
                    assert(views_of(prev).push(line@) + spec_lines_from(s@, n as int)
                        =~= views_of(prev) + seq![s@.subrange(pos as int, n as int)]);
                }
                pos = n;
            },
        }
    }
    proof {
        assert(views_of(lines@) + spec_lines_from(s@, n as int) =~= views_of(lines@));
    }
    lines
}

/// One step of transcript accumulation per line: a separator line opens a
/// new, empty message with its role; any other line is appended,
/// newline-terminated, to the message being built.
pub open spec fn spec_fold_lines(
    acc: Seq<(ChatRole, Seq<char>)>,
    lines: Seq<Seq<char>>,
) -> Seq<(ChatRole, Seq<char>)>
    recommends
        acc.len() > 0,
    decreases lines.len(),
{
    if lines.len() == 0 {
        acc
    } else {
        let acc2 = match spec_separator(lines[0]) {
            Some(role) => acc.push((role, Seq::<char>::empty())),
            None => acc.update(
                acc.len() - 1,
                (acc.last().0, acc.last().1 + lines[0] + "\n"@),
            ),
        };
        spec_fold_lines(acc2, lines.drop_first())
    }
}

/// Folding lines never empties the accumulator.
pub proof fn lemma_fold_nonempty(acc: Seq<(ChatRole, Seq<char>)>, lines: Seq<Seq<char>>)
    requires
        acc.len() > 0,
    ensures
        spec_fold_lines(acc, lines).len() > 0,
    decreases lines.len(),
{
    if lines.len() > 0 {
        match spec_separator(lines[0]) {
            Some(role) => {
                lemma_fold_nonempty(acc.push((role, Seq::<char>::empty())), lines.drop_first());
            },
            None => {
                lemma_fold_nonempty(
                    acc.update(acc.len() - 1, (acc.last().0, acc.last().1 + lines[0] + "\n"@)),
                    lines.drop_first(),
                );
            },
        }
    }
}

/// The system prompt and the transcript that a first role and the lines
/// after its separator build: a leading system message becomes the prompt,
/// otherwise the default prompt stands.
pub open spec fn spec_request(first: ChatRole, lines: Seq<Seq<char>>) -> (
    Seq<char>,
    Seq<(ChatRole, Seq<char>)>,
) {
    let t = spec_fold_lines(seq![(first, Seq::<char>::empty())], lines);
    if t.len() > 0 && t[0].0 == ChatRole::System {
        (t[0].1, t.drop_first())
    } else {
        (default_prompt(), t)
    }
}

/// The role and content of each message, at the character level.
pub open spec fn msgs_view(v: Seq<ChatMessage>) -> Seq<(ChatRole, Seq<char>)> {
    v.map_values(|m: ChatMessage| (m.role, m.content@))
}

/// Builds a request from a leading separator's role and the lines after it.
pub fn parse_transcript(first_role: ChatRole, lines: &Vec<String>) -> (r: ChatRequest)
    ensures
        ({
            let out = spec_request(first_role, views_of(lines@));
            r.system_prompt@ == out.0 && msgs_view(r.transcript@) == out.1
        }),
{
    let ghost all = views_of(lines@);
    let ghost init: Seq<(ChatRole, Seq<char>)> = seq![(first_role, Seq::<char>::empty())];
    let mut msgs: Vec<ChatMessage> = Vec::new();
    msgs.push(ChatMessage { role: first_role, content: String::new() });
    proof {
        assert(msgs_view(msgs@) =~= init);
        assert(all.skip(0) =~= all);
    }
    let mut i: usize = 0;
    while i < lines.len()
        invariant
            0 <= i <= lines.len(),
            all == views_of(lines@),
            msgs@.len() > 0,
            spec_fold_lines(msgs_view(msgs@), all.skip(i as int)) == spec_fold_lines(init, all),
        decreases lines.len() - i,
    {
        let ghost tail = all.skip(i as int);
        proof {
            assert(tail[0] == all[i as int]);
            assert(tail.drop_first() =~= all.skip(i as int + 1));
        }
        let ghost prev = msgs_view(msgs@);
        let line = &lines[i];
        match match_separator(line.as_str()) {
            Some(role) => {
                msgs.push(ChatMessage { role, content: String::new() });
                proof {
                    assert(msgs_view(msgs@) =~= prev.push((role, Seq::<char>::empty())));
                }
            },
            None => {
                let mut m = msgs.pop().unwrap();
                m.content.append(line.as_str());
                m.content.append("\n");
                msgs.push(m);
                proof {
                    assert(msgs_view(msgs@) =~= prev.update(
                        prev.len() - 1,
                        (prev.last().0, prev.last().1 + tail[0] + "\n"@),
                    ));
                }
            },
        }
        i = i + 1;
    }
    proof {
        assert(all.skip(lines@.len() as int) =~= Seq::<Seq<char>>::empty());
        lemma_fold_nonempty(init, all);
    }
    let is_system = match msgs[0].role {
        ChatRole::System => true,
        _ => false,
    };
    if is_system {
        let ghost whole = msgs_view(msgs@);
        let first = msgs.remove(0);
        proof {
            assert(msgs_view(msgs@) =~= whole.drop_first());
        }
        ChatRequest { system_prompt: first.content, transcript: msgs }
    } else {
        ChatRequest { system_prompt: get_default_prompt(), transcript: msgs }
    }
}

/// What raw input structures to: input whose first line is a separator is a
/// transcript; anything else is one user message under the default prompt.
pub open spec fn spec_structure(input: Seq<char>) -> (Seq<char>, Seq<(ChatRole, Seq<char>)>) {
    let lines = spec_lines_from(input, 0);
    if lines.len() > 0 && spec_separator(lines[0]) is Some {
        spec_request(spec_separator(lines[0]).unwrap(), lines.drop_first())
    } else {
        (default_prompt(), seq![(ChatRole::User, input)])
    }
}

/// Structures raw input into a chat request.
pub fn structure_request(input: &str) -> (r: ChatRequest)
    ensures
        ({
            let out = spec_structure(input@);
            r.system_prompt@ == out.0 && msgs_view(r.transcript@) == out.1
        }),
{
    let mut lines = split_lines(input);
    if lines.len() > 0 {
        let first = match_separator(lines[0].as_str());
        proof {
            assert(views_of(lines@)[0] == lines@[0]@);
        }
        match first {
            Some(first_role) => {
                let ghost whole = views_of(lines@);
                let removed = lines.remove(0);
                proof {
                    assert(views_of(lines@) =~= whole.drop_first());
                }
                return parse_transcript(first_role, &lines);
            },
            None => {},
        }
    }
    let content = String::from_str(input);
    let msgs = vec![ChatMessage { role: ChatRole::User, content }];
    proof {
        assert(msgs_view(msgs@) =~= seq![(ChatRole::User, input@)]);
    }
    ChatRequest { system_prompt: get_default_prompt(), transcript: msgs }
}

} // verus!
