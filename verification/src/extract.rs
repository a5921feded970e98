//! Command extraction: turning the model's accumulated output text into the
//! tool commands it embeds and the text that stays visible to the user.
//!
//! A command is written `[NAME~arg~arg~...]`. The buffer is scanned left to
//! right: a `[` opens a span, the next `]` closes it, and the text between
//! the brackets is one raw command. Text outside recognized spans is the
//! visible text. A span that never closes is not a command, and nothing of
//! it is shown: an unclosed `[` suppresses everything from that point on.
//!
//! Extraction is re-run on every snapshot of the growing buffer, so the
//! dispatcher pairs it with a set of raw commands already seen: only the
//! first occurrence of a raw command not yet seen is handed on.

use vstd::prelude::*;

verus! {

use crate::text::{chars_of, string_from_chars};

/// Result of scanning a buffer: the raw commands of all closed spans in
/// order, the visible text, and the contents of a still-open span, if any.
pub ghost struct Scan {
    pub cmds: Seq<Seq<char>>,
    pub visible: Seq<char>,
    pub open: Option<Seq<char>>,
}

/// Left-to-right scan of the whole buffer, one character at a time.
pub open spec fn scan(s: Seq<char>) -> Scan
    decreases s.len(),
{
    if s.len() == 0 {
        Scan { cmds: Seq::empty(), visible: Seq::empty(), open: None }
    } else {
        let r = scan(s.drop_last());
        let c = s.last();
        match r.open {
            Some(span) => {
                if c == ']' {
                    Scan { cmds: r.cmds.push(span), visible: r.visible, open: None }
                } else {
                    Scan { cmds: r.cmds, visible: r.visible, open: Some(span.push(c)) }
                }
            },
            None => {
                if c == '[' {
                    Scan { cmds: r.cmds, visible: r.visible, open: Some(Seq::empty()) }
                } else {
                    Scan { cmds: r.cmds, visible: r.visible.push(c), open: None }
                }
            },
        }
    }
}

/// The raw commands embedded in a buffer, in textual order, repeats kept.
pub open spec fn raw_commands(s: Seq<char>) -> Seq<Seq<char>> {
    scan(s).cmds
}

/// The text of a buffer that is shown to the user.
pub open spec fn visible_text(s: Seq<char>) -> Seq<char> {
    scan(s).visible
}

/// Scan a buffer snapshot: all closed command spans in order (repeats
/// kept), and the visible text.
pub fn scan_buffer(buffer: &str) -> (r: (Vec<Vec<char>>, String))
    ensures
        r.0.deep_view() == raw_commands(buffer@),
        r.1@ == visible_text(buffer@),
{
    let chars = chars_of(buffer);
    let n = chars.len();
    let mut cmds: Vec<Vec<char>> = Vec::new();
    let mut visible: Vec<char> = Vec::new();
    let mut open: Option<Vec<char>> = None;
    let mut i: usize = 0;
    while i < n
        invariant
            n == chars.len(),
            chars@ == buffer@,
            i <= n,
            cmds.deep_view() == scan(buffer@.subrange(0, i as int)).cmds,
            visible@ == scan(buffer@.subrange(0, i as int)).visible,
            match open {
                Some(span) => scan(buffer@.subrange(0, i as int)).open == Some(span@),
                None => scan(buffer@.subrange(0, i as int)).open is None,
            },
        decreases n - i,
    {
        let ghost pre = buffer@.subrange(0, i as int);
        let ghost post = buffer@.subrange(0, i as int + 1);
        proof {
            assert(post.drop_last() =~= pre);
            assert(post.last() == buffer@[i as int]);
        }
        let c = chars[i];
        let is_open = open.is_some();
        if is_open {
            let mut span = open.take().unwrap();
            if c == ']' {
                cmds.push(span);
                proof {
                    assert(cmds.deep_view() =~~= scan(post).cmds);
                }
            } else {
                span.push(c);
                open = Some(span);
            }
        } else {
            if c == '[' {
                open = Some(Vec::new());
                proof {
                    assert(scan(post).open == Some(Seq::<char>::empty()));
                }
            } else {
                visible.push(c);
            }
        }
        i += 1;
    }
    proof {
        assert(buffer@.subrange(0, n as int) =~= buffer@);
    }
    let visible_string = string_from_chars(&visible);
    (cmds, visible_string)
}

/// `s` split at every occurrence of `sep`; always at least one part, and
/// the separator appears in none of them.
pub open spec fn split_by(s: Seq<char>, sep: char) -> Seq<Seq<char>>
    decreases s.len(),
{
    if s.len() == 0 {
        seq![Seq::empty()]
    } else {
        let r = split_by(s.drop_last(), sep);
        if s.last() == sep {
            r.push(Seq::empty())
        } else {
            r.update(r.len() - 1, r.last().push(s.last()))
        }
    }
}

pub proof fn lemma_split_by_len(s: Seq<char>, sep: char)
    ensures
        split_by(s, sep).len() >= 1,
    decreases s.len(),
{
    if s.len() > 0 {
        lemma_split_by_len(s.drop_last(), sep);
    }
}

/// The name of a raw command: what stands before the first `~`.
pub open spec fn command_name(raw: Seq<char>) -> Seq<char> {
    split_by(raw, '~')[0]
}

/// The arguments of a raw command: the parts after the first `~`.
pub open spec fn command_args(raw: Seq<char>) -> Seq<Seq<char>> {
    split_by(raw, '~').drop_first()
}

/// Split a character vector at every occurrence of `sep`.
pub fn split_chars(s: &Vec<char>, sep: char) -> (parts: Vec<Vec<char>>)
    ensures
        parts.deep_view() == split_by(s@, sep),
        parts.len() >= 1,
{
    let mut parts: Vec<Vec<char>> = Vec::new();
    parts.push(Vec::new());
    proof {
        assert(parts.deep_view() =~~= split_by(s@.subrange(0, 0), sep));
    }
    let n = s.len();
    let mut i: usize = 0;
    while i < n
        invariant
            n == s.len(),
            i <= n,
            parts.len() >= 1,
            parts.deep_view() == split_by(s@.subrange(0, i as int), sep),
        decreases n - i,
    {
        let ghost pre = s@.subrange(0, i as int);
        let ghost post = s@.subrange(0, i as int + 1);
        proof {
            assert(post.drop_last() =~= pre);
            assert(post.last() == s@[i as int]);
        }
        let c = s[i];
        if c == sep {
            parts.push(Vec::new());
            proof {
                assert(parts.deep_view() =~~= split_by(post, sep));
            }
        } else {
            let mut tail = parts.pop().unwrap();
            tail.push(c);
            parts.push(tail);
            proof {
                assert(parts.deep_view() =~~= split_by(post, sep));
            }
        }
        i += 1;
    }
    proof {
        assert(s@.subrange(0, n as int) =~= s@);
    }
    parts
}

/// One parsed tool command, ready for dispatch. The dedup key is the raw
/// text of the command exactly as it stood between the brackets.
pub struct ToolInvocation {
    pub dedup_key: String,
    pub name: String,
    pub args: Vec<String>,
}

impl ToolInvocation {
    /// The invocation is the parse of the raw command text `raw`.
    pub open spec fn parses(self, raw: Seq<char>) -> bool {
        &&& self.dedup_key@ == raw
        &&& self.name@ == command_name(raw)
        &&& self.args.deep_view() == command_args(raw)
    }
}

/// Parse one raw command: the part before the first `~` is the name, the
/// parts after it are the arguments.
pub fn parse_invocation(raw: &Vec<char>) -> (inv: ToolInvocation)
    ensures
        inv.parses(raw@),
{
    let parts = split_chars(raw, '~');
    let dedup_key = string_from_chars(raw);
    let name = string_from_chars(&parts[0]);
    proof {
        assert(parts.deep_view()[0] == parts@[0].deep_view());
        assert(parts@[0].deep_view() =~= parts@[0]@);
    }
    let mut args: Vec<String> = Vec::new();
    let mut i: usize = 1;
    while i < parts.len()
        invariant
            1 <= i <= parts.len(),
            parts.deep_view() == split_by(raw@, '~'),
            args.deep_view() == split_by(raw@, '~').subrange(1, i as int),
        decreases parts.len() - i,
    {
        proof {
            assert(parts.deep_view()[i as int] == parts@[i as int].deep_view());
            assert(parts@[i as int].deep_view() =~= parts@[i as int]@);
            assert(args.deep_view().len() == i - 1);
            assert(args@.len() == i - 1);
        }
        args.push(string_from_chars(&parts[i]));
        proof {
            assert(args.deep_view() =~~= split_by(raw@, '~').subrange(1, i as int + 1));
        }
        i += 1;
    }
    proof {
        assert(args.deep_view() =~~= command_args(raw@));
    }
    ToolInvocation { dedup_key, name, args }
}

/// Each invocation of `invs` is the parse of the matching raw command of
/// `raws`.
pub open spec fn invocations_parse(invs: Seq<ToolInvocation>, raws: Seq<Seq<char>>) -> bool {
    &&& invs.len() == raws.len()
    &&& forall|i: int| 0 <= i < invs.len() ==> #[trigger] invs[i].parses(raws[i])
}

/// Whether `key` stands among the raw commands of `seen`.
pub(crate) fn contains_key(seen: &Vec<String>, key: &String) -> (b: bool)
    ensures
        b == seen.deep_view().contains(key@),
{
    let n = seen.len();
    let mut i: usize = 0;
    while i < n
        invariant
            n == seen.len(),
            i <= n,
            forall|j: int| 0 <= j < i ==> seen.deep_view()[j] != key@,
        decreases n - i,
    {
        proof {
            assert(seen.deep_view()[i as int] == seen@[i as int].deep_view());
        }
        if seen[i].eq(key) {
            proof {
                assert(seen.deep_view()[i as int] == key@);
            }
            return true;
        }
        i += 1;
    }
    proof {
        assert(seen.deep_view().len() == seen@.len());
        if seen.deep_view().contains(key@) {
            let j = choose|j: int|
                0 <= j < seen.deep_view().len() && seen.deep_view()[j] == key@;
        }
    }
    false
}

/// Whether some invocation of `v` carries the dedup key `key`.
fn contains_invocation(v: &Vec<ToolInvocation>, key: &String) -> (b: bool)
    ensures
        b == (exists|j: int| 0 <= j < v@.len() && v@[j].dedup_key@ == key@),
{
    let n = v.len();
    let mut i: usize = 0;
    while i < n
        invariant
            n == v.len(),
            i <= n,
            forall|j: int| 0 <= j < i ==> v@[j].dedup_key@ != key@,
        decreases n - i,
    {
        if v[i].dedup_key.eq(key) {
            return true;
        }
        i += 1;
    }
    false
}

/// The raw commands of `cmds` that are neither in `seen` nor repeated
/// earlier in `cmds` itself: what a round dispatches from one snapshot,
/// in textual order.
pub open spec fn news(cmds: Seq<Seq<char>>, seen: Set<Seq<char>>) -> Seq<Seq<char>>
    decreases cmds.len(),
{
    if cmds.len() == 0 {
        Seq::empty()
    } else {
        let rest = news(cmds.drop_first(), seen.insert(cmds[0]));
        if seen.contains(cmds[0]) {
            rest
        } else {
            seq![cmds[0]] + rest
        }
    }
}

/// What dispatching from a snapshot adds: exactly the commands of the
/// buffer not yet seen, each once, so re-streamed repeats never double.
pub proof fn lemma_news_props(cmds: Seq<Seq<char>>, seen: Set<Seq<char>>)
    requires
        seen.finite(),
    ensures
        news(cmds, seen).no_duplicates(),
        news(cmds, seen).to_set() =~= cmds.to_set().difference(seen),
    decreases cmds.len(),
{
    if cmds.len() == 0 {
        assert(news(cmds, seen).to_set() =~= cmds.to_set().difference(seen));
    } else {
        let head = cmds[0];
        let rest = news(cmds.drop_first(), seen.insert(head));
        lemma_news_props(cmds.drop_first(), seen.insert(head));
        assert(cmds.to_set() =~= cmds.drop_first().to_set().insert(head)) by {
            assert forall|x: Seq<char>| cmds.to_set().contains(x)
                implies cmds.drop_first().to_set().insert(head).contains(x) by {
                let i = choose|i: int| 0 <= i < cmds.len() && cmds[i] == x;
                if i > 0 {
                    assert(cmds.drop_first()[i - 1] == x);
                }
            };
            assert forall|x: Seq<char>| cmds.drop_first().to_set().insert(head).contains(x)
                implies cmds.to_set().contains(x) by {
                if x == head {
                    assert(cmds[0] == x);
                } else {
                    let i = choose|i: int| 0 <= i < cmds.drop_first().len()
                        && cmds.drop_first()[i] == x;
                    assert(cmds[i + 1] == x);
                }
            };
        }
        if seen.contains(head) {
            assert(news(cmds, seen).to_set() =~= cmds.to_set().difference(seen));
        } else {
            assert(news(cmds, seen) == seq![head] + rest);
            assert(news(cmds, seen).to_set() =~= rest.to_set().insert(head)) by {
                assert forall|x: Seq<char>| news(cmds, seen).to_set().contains(x)
                    implies rest.to_set().insert(head).contains(x) by {
                    let i = choose|i: int| 0 <= i < news(cmds, seen).len()
                        && news(cmds, seen)[i] == x;
                    if i > 0 {
                        assert(rest[i - 1] == x);
                    }
                };
                assert forall|x: Seq<char>| rest.to_set().insert(head).contains(x)
                    implies news(cmds, seen).to_set().contains(x) by {
                    if x == head {
                        assert(news(cmds, seen)[0] == x);
                    } else {
                        let i = choose|i: int| 0 <= i < rest.len() && rest[i] == x;
                        assert(news(cmds, seen)[i + 1] == x);
                    }
                };
            }
            assert(news(cmds, seen).to_set() =~= cmds.to_set().difference(seen));
            assert(!rest.to_set().contains(head));
            assert forall|i: int, j: int|
                0 <= i < j < news(cmds, seen).len()
                implies news(cmds, seen)[i] != news(cmds, seen)[j] by {
                if i == 0 {
                    assert(rest.to_set().contains(rest[j - 1]));
                } else {
                    assert(rest[i - 1] == news(cmds, seen)[i]);
                    assert(rest[j - 1] == news(cmds, seen)[j]);
                }
            };
        }
    }
}

/// Extract from a buffer snapshot the invocations that are new: commands
/// of the buffer whose raw text stands neither in `seen` nor earlier in
/// the buffer. Returned in textual order, together with the visible text.
pub fn extract_new(buffer: &str, seen: &Vec<String>) -> (r: (Vec<ToolInvocation>, String))
    ensures
        invocations_parse(r.0@, news(raw_commands(buffer@), seen.deep_view().to_set())),
        r.1@ == visible_text(buffer@),
{
    let (cmds, visible) = scan_buffer(buffer);
    let ghost all = raw_commands(buffer@);
    let ghost s0 = seen.deep_view().to_set();
    let ghost mut cur = s0;
    let ghost mut emitted = Seq::<Seq<char>>::empty();
    let mut out: Vec<ToolInvocation> = Vec::new();
    let n = cmds.len();
    let mut i: usize = 0;
    proof {
        assert(cmds.deep_view().len() == cmds@.len());
        assert(all.skip(0) =~= all);
    }
    while i < n
        invariant
            n == cmds.len(),
            i <= n,
            cmds.deep_view() == all,
            all.len() == n,
            s0 == seen.deep_view().to_set(),
            invocations_parse(out@, emitted),
            news(all, s0) == emitted + news(all.skip(i as int), cur),
            forall|k: Seq<char>| #[trigger] cur.contains(k)
                <==> (s0.contains(k) || emitted.contains(k)),
        decreases n - i,
    {
        let ghost rest = all.skip(i as int);
        let ghost h = all[i as int];
        let ghost cur0 = cur;
        let ghost em0 = emitted;
        proof {
            assert(rest.len() > 0);
            assert(rest[0] == h);
            assert(rest.drop_first() =~= all.skip(i as int + 1));
            assert(cmds.deep_view()[i as int] == cmds@[i as int].deep_view());
            assert(cmds@[i as int].deep_view() =~= cmds@[i as int]@);
        }
        let inv = parse_invocation(&cmds[i]);
        let in_seen = contains_key(seen, &inv.dedup_key);
        let in_out = contains_invocation(&out, &inv.dedup_key);
        proof {
            if in_out {
                let j = choose|j: int| 0 <= j < out@.len() && out@[j].dedup_key@ == h;
                assert(out@[j].parses(em0[j]));
                assert(em0.contains(h));
            }
            if em0.contains(h) {
                let j = choose|j: int| 0 <= j < em0.len() && em0[j] == h;
                assert(out@[j].parses(em0[j]));
                assert(out@[j].dedup_key@ == h);
            }
            assert(s0.contains(h) == seen.deep_view().contains(h));
            assert(in_seen == s0.contains(h));
            assert(in_out == em0.contains(h));
            assert((in_seen || in_out) == cur0.contains(h));
        }
        if !(in_seen || in_out) {
            out.push(inv);
            proof {
                emitted = em0.push(h);
                assert(invocations_parse(out@, emitted)) by {
                    assert(forall|j: int| 0 <= j < out@.len() - 1 ==> out@[j] == #[trigger] out@.drop_last()[j]);
                    assert forall|j: int| 0 <= j < out@.len()
                        implies #[trigger] out@[j].parses(emitted[j]) by {
                        if j < out@.len() - 1 {
                            assert(out@[j].parses(em0[j]));
                        }
                    };
                };
            }
        }
        proof {
            cur = cur0.insert(h);
            let tail_news = news(rest.drop_first(), cur0.insert(h));
            assert(news(rest.drop_first(), cur0.insert(h))
                == news(all.skip(i as int + 1), cur));
            if cur0.contains(h) {
                assert(news(rest, cur0) == tail_news);
                assert(news(all, s0) == emitted + news(all.skip(i as int + 1), cur));
            } else {
                assert(news(rest, cur0) == seq![h] + tail_news);
                assert(em0 + (seq![h] + tail_news) =~= emitted + tail_news);
                assert(news(all, s0) == emitted + news(all.skip(i as int + 1), cur));
            }
            assert forall|k: Seq<char>| #[trigger] cur.contains(k)
                implies (s0.contains(k) || emitted.contains(k)) by {
                if k == h {
                    if !cur0.contains(h) {
                        assert(emitted[emitted.len() - 1] == h);
                    }
                } else {
                    assert(cur0.contains(k));
                    if em0.contains(k) {
                        let j = choose|j: int| 0 <= j < em0.len() && em0[j] == k;
                        assert(emitted[j] == k);
                    }
                }
            };
            assert forall|k: Seq<char>| s0.contains(k) || emitted.contains(k)
                implies #[trigger] cur.contains(k) by {
                if emitted.contains(k) {
                    let j = choose|j: int| 0 <= j < emitted.len() && emitted[j] == k;
                    if j < em0.len() {
                        assert(em0[j] == k);
                        assert(cur0.contains(k));
                    }
                }
            };
        }
        i += 1;
    }
    proof {
        assert(all.skip(n as int) =~= Seq::<Seq<char>>::empty());
        assert(emitted + news(all.skip(n as int), cur) =~= emitted);
    }
    (out, visible)
}

/// Extraction is pure: commands, dispatch selection and visible text are
/// functions of the buffer and the seen set alone, so re-running it on an
/// identical buffer yields an identical result.
pub proof fn lemma_extraction_pure(b1: Seq<char>, b2: Seq<char>, seen: Set<Seq<char>>)
    requires
        b1 == b2,
    ensures
        raw_commands(b1) == raw_commands(b2),
        news(raw_commands(b1), seen) == news(raw_commands(b2), seen),
        visible_text(b1) == visible_text(b2),
{
}

/// Extending a buffer never loses a recognized command: the commands of a
/// prefix stand, in order, at the head of the commands of the whole.
pub proof fn lemma_scan_extends(s: Seq<char>, t: Seq<char>)
    requires
        s.is_prefix_of(t),
    ensures
        scan(s).cmds.is_prefix_of(scan(t).cmds),
    decreases t.len(),
{
    if t.len() > s.len() {
        assert(s.is_prefix_of(t.drop_last())) by {
            assert(t.drop_last().subrange(0, s.len() as int) =~= t.subrange(0, s.len() as int));
        }
        lemma_scan_extends(s, t.drop_last());
        let prev = scan(t.drop_last()).cmds;
        assert(prev.is_prefix_of(scan(t).cmds)) by {
            if scan(t).cmds.len() > prev.len() {
                assert(scan(t).cmds =~= prev.push(scan(t.drop_last()).open->0));
                assert(scan(t).cmds.subrange(0, prev.len() as int) =~= prev);
            } else {
                assert(scan(t).cmds.subrange(0, prev.len() as int) =~= prev);
            }
        }
        assert(scan(s).cmds.is_prefix_of(scan(t).cmds)) by {
            assert(scan(s).cmds =~= prev.subrange(0, scan(s).cmds.len() as int));
            assert(scan(s).cmds =~= scan(t).cmds.subrange(0, scan(s).cmds.len() as int));
        }
    } else {
        assert(s =~= t);
    }
}

/// Two runs without repeats and without overlap concatenate to a run
/// without repeats.
pub proof fn lemma_nodup_concat(a: Seq<Seq<char>>, b: Seq<Seq<char>>)
    requires
        a.no_duplicates(),
        b.no_duplicates(),
        forall|x: Seq<char>| b.contains(x) ==> !a.contains(x),
    ensures
        (a + b).no_duplicates(),
{
    assert forall|i: int, j: int| 0 <= i < j < (a + b).len()
        implies (a + b)[i] != (a + b)[j] by {
        if i < a.len() && j >= a.len() {
            assert(b.contains(b[j - a.len()]));
            assert(a.contains(a[i]));
        }
    };
}

/// The dispatch record a round builds up over a sequence of buffer
/// snapshots: from each snapshot, the commands not dispatched before.
pub open spec fn dispatched_after(snapshots: Seq<Seq<char>>) -> Seq<Seq<char>>
    decreases snapshots.len(),
{
    if snapshots.len() == 0 {
        Seq::empty()
    } else {
        let prev = dispatched_after(snapshots.drop_last());
        prev + news(raw_commands(snapshots.last()), prev.to_set())
    }
}

/// Dedup correctness of a round: dispatching from every snapshot of one
/// growing buffer dispatches each raw command once, and the number of
/// dispatched invocations equals the number of distinct raw commands of
/// the round's final buffer.
pub proof fn lemma_dispatch_count(snapshots: Seq<Seq<char>>)
    requires
        snapshots.len() > 0,
        forall|i: int| 0 <= i < snapshots.len() - 1
            ==> (#[trigger] snapshots[i]).is_prefix_of(snapshots[i + 1]),
    ensures
        dispatched_after(snapshots).no_duplicates(),
        dispatched_after(snapshots).to_set()
            =~= raw_commands(snapshots.last()).to_set(),
        dispatched_after(snapshots).len()
            == raw_commands(snapshots.last()).to_set().len(),
    decreases snapshots.len(),
{
    broadcast use vstd::seq_lib::seq_to_set_is_finite;
    let d = dispatched_after(snapshots);
    let last = snapshots.last();
    if snapshots.len() == 1 {
        assert(snapshots.drop_last() =~= Seq::<Seq<char>>::empty());
        assert(dispatched_after(Seq::<Seq<char>>::empty()) =~= Seq::<Seq<char>>::empty());
        assert(dispatched_after(snapshots.drop_last()) =~= Seq::<Seq<char>>::empty());
        let fresh = news(raw_commands(last), Seq::<Seq<char>>::empty().to_set());
        lemma_news_props(raw_commands(last), Seq::<Seq<char>>::empty().to_set());
        assert(d =~= fresh);
        assert(d.to_set() =~= raw_commands(last).to_set());
    } else {
        let head = snapshots.drop_last();
        lemma_dispatch_count(head);
        let prev = dispatched_after(head);
        let fresh = news(raw_commands(last), prev.to_set());
        lemma_news_props(raw_commands(last), prev.to_set());
        assert(head.last() == snapshots[snapshots.len() - 2]);
        assert(head.last().is_prefix_of(last));
        lemma_scan_extends(head.last(), last);
        assert forall|x: Seq<char>| prev.to_set().contains(x)
            implies raw_commands(last).to_set().contains(x) by {
            assert(raw_commands(head.last()).to_set().contains(x));
            let i = choose|i: int| 0 <= i < raw_commands(head.last()).len()
                && raw_commands(head.last())[i] == x;
            assert(raw_commands(last)[i] == x);
        };
        assert forall|x: Seq<char>| fresh.contains(x) implies !prev.contains(x) by {
            assert(fresh.to_set().contains(x));
        };
        lemma_nodup_concat(prev, fresh);
        assert(d.to_set() =~= raw_commands(last).to_set()) by {
            assert forall|x: Seq<char>| d.to_set().contains(x)
                implies raw_commands(last).to_set().contains(x) by {
                let i = choose|i: int| 0 <= i < d.len() && d[i] == x;
                if i < prev.len() {
                    assert(prev.contains(x));
                    assert(prev.to_set().contains(x));
                } else {
                    assert(fresh.contains(x));
                    assert(fresh.to_set().contains(x));
                }
            };
            assert forall|x: Seq<char>| raw_commands(last).to_set().contains(x)
                implies d.to_set().contains(x) by {
                if prev.to_set().contains(x) {
                    let i = choose|i: int| 0 <= i < prev.len() && prev[i] == x;
                    assert(d[i] == x);
                } else {
                    assert(fresh.to_set().contains(x));
                    let i = choose|i: int| 0 <= i < fresh.len() && fresh[i] == x;
                    assert(d[prev.len() + i] == x);
                }
            };
        }
    }
    d.unique_seq_to_set();
}

} // verus!
