//! The conversation context: the ordered message sequence handed to the
//! model on every call. Built once per request from the persona, the
//! plugin catalog, the prior-turn history and the user's utterance; one
//! synthetic result message is appended after each tool round.

use vstd::prelude::*;
use vstd::string::StrSliceExecFns;
use vstd::string::StringExecFns;

verus! {

use crate::text::replaced;

/// The speaker of one context message.
#[derive(Clone, Copy, PartialEq, Eq, Structural, Debug)]
pub enum Role {
    System,
    User,
    Assistant,
    Function,
}

/// One message of the conversation context.
#[derive(Debug)]
pub struct Message {
    pub role: Role,
    pub content: String,
}

/// The ordered message sequence for one request. Append-only within a
/// request; the first message is always the system persona.
#[derive(Debug)]
pub struct ConversationContext {
    pub messages: Vec<Message>,
}

impl ConversationContext {
    /// Well-formed: never empty, and headed by a system message.
    pub open spec fn wf(self) -> bool {
        &&& self.messages@.len() >= 1
        &&& self.messages@[0].role == Role::System
    }
}

/// The persona text, with the current date and time filled in.
pub open spec fn persona_text(date: Seq<char>, time: Seq<char>) -> Seq<char> {
    ("You are media management assistant called CineMatic, enthusiastic, knowledgeable and passionate about all things media\nYou always run lookups to ensure correct id, do not rely on chat history, if the data you have received does not contain what you need you reply with the truthful answer of unknown, responses should all be on one line (with comma separation) and compact language, use emojis to express emotion to the user. The current date is ")@
        + date + ", the current time is "@ + time
}

/// The system persona message content for one request.
pub fn build_persona(date: &str, time: &str) -> (r: String)
    ensures
        r@ == persona_text(date@, time@),
{
    let mut s = String::from_str("You are media management assistant called CineMatic, enthusiastic, knowledgeable and passionate about all things media\nYou always run lookups to ensure correct id, do not rely on chat history, if the data you have received does not contain what you need you reply with the truthful answer of unknown, responses should all be on one line (with comma separation) and compact language, use emojis to express emotion to the user. The current date is ");
    s.append(date);
    s.append(", the current time is ");
    s.append(time);
    s
}

/// Index of the last `c` in `s`, or -1 where there is none.
pub open spec fn last_index_of(s: Seq<char>, c: char) -> int
    decreases s.len(),
{
    if s.len() == 0 {
        -1
    } else if s.last() == c {
        s.len() - 1
    } else {
        last_index_of(s.drop_last(), c)
    }
}

proof fn lemma_last_index_at(s: Seq<char>, c: char, k: int)
    requires
        0 <= k < s.len(),
        s[k] == c,
        forall|m: int| k < m < s.len() ==> s[m] != c,
    ensures
        last_index_of(s, c) == k,
    decreases s.len(),
{
    if k < s.len() - 1 {
        assert(s.last() != c);
        assert(s.drop_last()[k] == s[k]);
        assert forall|m: int| k < m < s.drop_last().len()
            implies s.drop_last()[m] != c by {
            assert(s.drop_last()[m] == s[m]);
        };
        lemma_last_index_at(s.drop_last(), c, k);
    }
}

proof fn lemma_last_index_none(s: Seq<char>, c: char)
    requires
        forall|m: int| 0 <= m < s.len() ==> s[m] != c,
    ensures
        last_index_of(s, c) == -1,
    decreases s.len(),
{
    if s.len() > 0 {
        assert forall|m: int| 0 <= m < s.drop_last().len()
            implies s.drop_last()[m] != c by {
            assert(s.drop_last()[m] == s[m]);
        };
        lemma_last_index_none(s.drop_last(), c);
    }
}

/// The history message a raw reply transcript owes the context, if any:
/// the transcript minus its final character, cut before its last line
/// break (the line under reply is not history), with the user and
/// assistant tags rewritten to plain names. A transcript whose remainder
/// holds no line break — empty, or a single line — owes no message.
pub open spec fn prepared_history(h: Seq<char>) -> Option<Seq<char>> {
    let body = if h.len() == 0 {
        h
    } else {
        h.drop_last()
    };
    if last_index_of(body, '\n') >= 0 {
        let cut = body.subrange(0, last_index_of(body, '\n'));
        Some(replaced(replaced(cut, "💬 "@, "User: "@), "☑️ "@, "CineMatic: "@))
    } else {
        None
    }
}

/// Prepare a raw reply transcript for the context, as `prepared_history`
/// says.
pub fn prepare_history(history: &str) -> (r: Option<String>)
    ensures
        match r {
            Some(s) => prepared_history(history@) == Some(s@),
            None => prepared_history(history@) is None,
        },
{
    let mut chars = crate::text::chars_of(history);
    if chars.len() > 0 {
        chars.pop();
    }
    let ghost body = chars@;
    proof {
        if history@.len() > 0 {
            assert(body == history@.drop_last());
        }
    }
    let n = chars.len();
    let mut found: Option<usize> = None;
    let mut i: usize = 0;
    while i < n
        invariant
            n == chars@.len(),
            i <= n,
            match found {
                Some(k) => k < i && chars@[k as int] == '\n'
                    && forall|m: int| k < m < i ==> chars@[m] != '\n',
                None => forall|m: int| 0 <= m < i ==> chars@[m] != '\n',
            },
        decreases n - i,
    {
        if chars[i] == '\n' {
            found = Some(i);
        }
        i += 1;
    }
    match found {
        None => {
            proof {
                lemma_last_index_none(body, '\n');
            }
            None
        },
        Some(k) => {
            proof {
                lemma_last_index_at(body, '\n', k as int);
            }
            let mut cut_chars: Vec<char> = Vec::new();
            let mut j: usize = 0;
            while j < k
                invariant
                    k < chars@.len(),
                    j <= k,
                    cut_chars@ == chars@.subrange(0, j as int),
                decreases k - j,
            {
                cut_chars.push(chars[j]);
                proof {
                    assert(cut_chars@ =~= chars@.subrange(0, j as int + 1));
                }
                j += 1;
            }
            let cut = crate::text::string_from_chars(&cut_chars);
            let step = crate::text::replace_all(cut.as_str(), "💬 ", "User: ");
            let done = crate::text::replace_all(step.as_str(), "☑️ ", "CineMatic: ");
            Some(done)
        },
    }
}

/// Relies on chrono's `Local::now`: the wall clock, read and formatted
/// as `DD/MM/YYYY` and `HH:MM`. Nothing is promised of the clock's value.
#[verifier::external_body]
fn current_date_time() -> (r: (String, String)) {
    let now = chrono::Local::now();
    (now.format("%d/%m/%Y").to_string(), now.format("%H:%M").to_string())
}

/// The persona message for a request started now: the persona text with
/// the current date and time filled in, whatever the clock read.
pub fn build_persona_now() -> (r: String)
    ensures
        exists|d: Seq<char>, t: Seq<char>| r@ == persona_text(d, t),
{
    let stamp = current_date_time();
    let r = build_persona(stamp.0.as_str(), stamp.1.as_str());
    proof {
        assert(r@ == persona_text(stamp.0@, stamp.1@));
    }
    r
}

/// Build the context for one request: the system persona and plugin
/// catalog, the prepared prior-turn history where the raw transcript
/// yields one (an empty or single-line transcript is omitted entirely),
/// and the user's utterance.
pub fn build_context(persona: &str, plugin_data: &str, history: &str, user_text: &str)
    -> (r: ConversationContext)
    ensures
        r.wf(),
        prepared_history(history@) is None ==> {
            &&& r.messages@.len() == 2
            &&& r.messages@[1].role == Role::User
            &&& r.messages@[1].content@ == user_text@
        },
        prepared_history(history@) matches Some(h) ==> {
            &&& r.messages@.len() == 3
            &&& r.messages@[1].role == Role::System
            &&& r.messages@[1].content@ == "Message history:\n"@ + h
            &&& r.messages@[2].role == Role::User
            &&& r.messages@[2].content@ == user_text@
        },
        r.messages@[0].role == Role::System,
        r.messages@[0].content@ == persona@ + "\n"@ + plugin_data@,
{
    let mut system = persona.to_owned();
    system.append("\n");
    system.append(plugin_data);
    let mut messages: Vec<Message> = Vec::new();
    messages.push(Message { role: Role::System, content: system });
    if let Some(prepared) = prepare_history(history) {
        let mut h = String::from_str("Message history:\n");
        h.append(prepared.as_str());
        messages.push(Message { role: Role::System, content: h });
    }
    messages.push(Message { role: Role::User, content: user_text.to_owned() });
    ConversationContext { messages }
}

} // verus!
