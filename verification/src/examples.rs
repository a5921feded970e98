//! Worked example transcripts. An example is a set of topic tags and a
//! transcript whose lines are role-tagged (`U:` user, `A:` assistant,
//! `S:` system). A selector outside the crate picks which tags fit the
//! request; here stand the verified pieces: whether an example's tags are
//! among the chosen ones, and the parse of a transcript into context
//! messages.

use vstd::prelude::*;

verus! {

use crate::context::{Message, Role};
use crate::extract::{contains_key, split_by, split_chars};
use crate::text::{chars_of, string_from_chars};

/// The role a transcript line is tagged with, if any.
pub open spec fn line_role(line: Seq<char>) -> Option<Role> {
    if line.len() >= 2 && line[1] == ':' {
        if line[0] == 'U' {
            Some(Role::User)
        } else if line[0] == 'A' {
            Some(Role::Assistant)
        } else if line[0] == 'S' {
            Some(Role::System)
        } else {
            None
        }
    } else {
        None
    }
}

/// The messages of a transcript, line by line, in order; a line without a
/// role tag carries nothing.
pub open spec fn transcript_messages(lines: Seq<Seq<char>>) -> Seq<(Role, Seq<char>)>
    decreases lines.len(),
{
    if lines.len() == 0 {
        Seq::empty()
    } else {
        let rest = transcript_messages(lines.drop_last());
        match line_role(lines.last()) {
            Some(role) => rest.push((role, lines.last().skip(2))),
            None => rest,
        }
    }
}

/// The parsed messages carry exactly the given roles and line contents.
pub open spec fn messages_match(msgs: Seq<Message>, parsed: Seq<(Role, Seq<char>)>) -> bool {
    &&& msgs.len() == parsed.len()
    &&& forall|i: int| 0 <= i < parsed.len() ==> {
        &&& (#[trigger] msgs[i]).role == parsed[i].0
        &&& msgs[i].content@ == parsed[i].1
    }
}

/// Parse one role-tagged transcript into context messages: each line
/// beginning `U:`, `A:` or `S:` becomes one message of that role with
/// the rest of the line as content; any other line is dropped.
pub fn parse_transcript(text: &str) -> (r: Vec<Message>)
    ensures
        messages_match(r@, transcript_messages(split_by(text@, '\n'))),
{
    let chars = chars_of(text);
    let lines = split_chars(&chars, '\n');
    let ghost all = split_by(text@, '\n');
    let mut out: Vec<Message> = Vec::new();
    let n = lines.len();
    let mut i: usize = 0;
    proof {
        assert(all.take(0) =~= Seq::<Seq<char>>::empty());
    }
    while i < n
        invariant
            n == lines.len(),
            lines.deep_view() == all,
            all.len() == n,
            i <= n,
            messages_match(out@, transcript_messages(all.take(i as int))),
        decreases n - i,
    {
        let ghost line_spec = all[i as int];
        proof {
            assert(all.take(i as int + 1).drop_last() =~= all.take(i as int));
            assert(all.take(i as int + 1).last() == line_spec);
            assert(lines.deep_view()[i as int] == lines@[i as int].deep_view());
            assert(lines@[i as int].deep_view() =~= lines@[i as int]@);
        }
        let m = lines[i].len();
        if m >= 2 && lines[i][1] == ':' {
            let tag = lines[i][0];
            let role = if tag == 'U' {
                Some(Role::User)
            } else if tag == 'A' {
                Some(Role::Assistant)
            } else if tag == 'S' {
                Some(Role::System)
            } else {
                None
            };
            if let Some(role) = role {
                let mut content_chars: Vec<char> = Vec::new();
                let mut j: usize = 2;
                while j < m
                    invariant
                        i < lines@.len(),
                        m == lines@[i as int]@.len(),
                        2 <= j <= m,
                        content_chars@ == lines@[i as int]@.subrange(2, j as int),
                    decreases m - j,
                {
                    content_chars.push(lines[i][j]);
                    proof {
                        assert(content_chars@
                            =~= lines@[i as int]@.subrange(2, j as int + 1));
                    }
                    j += 1;
                }
                proof {
                    assert(content_chars@ =~= line_spec.skip(2));
                }
                let content = string_from_chars(&content_chars);
                let ghost out0 = out@;
                out.push(Message { role, content });
                proof {
                    assert(transcript_messages(all.take(i as int + 1))
                        == transcript_messages(all.take(i as int)).push(
                            (role, line_spec.skip(2))));
                    assert forall|k: int| 0 <= k < out@.len() - 1
                        implies out@[k] == out0[k] by {};
                }
            }
        }
        proof {
            if line_role(line_spec) is None {
                assert(transcript_messages(all.take(i as int + 1))
                    == transcript_messages(all.take(i as int)));
            }
        }
        i += 1;
    }
    proof {
        assert(all.take(n as int) =~= all);
    }
    out
}

/// Whether any of an example's tags stands among the chosen tags.
pub fn any_tag_chosen(tags: &Vec<String>, chosen: &Vec<String>) -> (b: bool)
    ensures
        b == (exists|i: int|
            0 <= i < tags.deep_view().len()
                && chosen.deep_view().contains(#[trigger] tags.deep_view()[i])),
{
    let n = tags.len();
    let mut i: usize = 0;
    while i < n
        invariant
            n == tags.len(),
            i <= n,
            forall|j: int| 0 <= j < i
                ==> !chosen.deep_view().contains(#[trigger] tags.deep_view()[j]),
        decreases n - i,
    {
        proof {
            assert(tags.deep_view()[i as int] == tags@[i as int].deep_view());
        }
        if contains_key(chosen, &tags[i]) {
            proof {
                assert(chosen.deep_view().contains(tags.deep_view()[i as int]));
            }
            return true;
        }
        i += 1;
    }
    proof {
        assert(tags.deep_view().len() == tags@.len());
    }
    false
}

} // verus!
