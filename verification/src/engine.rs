//! The iteration controller and tool dispatcher of one request.
//!
//! One request runs as a bounded sequence of rounds. In a round the model
//! streams text into a buffer; every snapshot of the buffer is scanned for
//! embedded commands, and each distinct raw command is dispatched at most
//! once. Results arrive in any order and are recorded under the round's
//! state together with one status line each; when the round ends (all
//! results in, or the driver's deadline passed), the results at hand are
//! folded into the conversation context and the next round begins. The
//! request ends with the model's own text once a round requests no tool,
//! by force once the round cap is reached, or in failure once the model
//! transport gives up.
//!
//! The engine holds the decisions; the driver outside the crate holds the
//! clock, the transport and the spawned tool tasks, and feeds buffers,
//! results and deadlines back in as plain values.

use vstd::prelude::*;
use vstd::string::StringExecFns;

verus! {

use crate::context::{ConversationContext, Message, Role};
use crate::extract::{
    extract_new, invocations_parse, news, raw_commands, scan_buffer,
    visible_text, ToolInvocation, command_name, lemma_news_props, lemma_nodup_concat,
};
use crate::plugins::{
    get_processing_message, is_known_command, known_command, processing_message_of,
    PluginReturn,
};
use crate::progress::Glyph;
use crate::text::{truncate_with_ellipsis, truncated};

/// The fixed policy of one request.
#[derive(Clone, Copy, PartialEq, Eq, Structural, Debug)]
pub struct EngineConfig {
    /// Cap on tool rounds; reaching it forces termination.
    pub max_rounds: u32,
    /// Characters of a tool's user-facing status kept before the ellipsis.
    pub to_user_cap: usize,
    /// Minimum milliseconds between two progress publishes.
    pub publish_interval_ms: u64,
    /// Milliseconds a round waits for its results before moving on.
    pub round_deadline_ms: u64,
    /// Model-call attempts before the request fails.
    pub max_attempts: u32,
}

impl EngineConfig {
    pub open spec fn wf(self) -> bool {
        &&& self.max_rounds >= 1
        &&& self.max_attempts >= 1
    }

    /// The stock policy: ten rounds, 150-character statuses, one publish
    /// a second, a ten-second round deadline, three model attempts.
    pub fn standard() -> (r: Self)
        ensures
            r.wf(),
            r.max_rounds == 10,
            r.to_user_cap == 150,
            r.publish_interval_ms == 1000,
            r.round_deadline_ms == 10000,
            r.max_attempts == 3,
    {
        EngineConfig {
            max_rounds: 10,
            to_user_cap: 150,
            publish_interval_ms: 1000,
            round_deadline_ms: 10000,
            max_attempts: 3,
        }
    }
}

/// How a finished request ended.
#[derive(Clone, Copy, PartialEq, Eq, Structural, Debug)]
pub enum RequestOutcome {
    /// A round requested no tools: the model's own text stands.
    Success,
    /// The round cap forced termination with the text at hand.
    ForcedStop,
    /// The model transport gave up; partial text at best.
    Failure,
}

/// One round's dispatch record: the keys dispatched so far, in dispatch
/// order, and the results recorded so far, in completion order. The
/// command dispatched as `dispatched[i]` owns the progress line at
/// `line_base + i`.
pub struct RoundState {
    pub dispatched: Vec<String>,
    pub results: Vec<(String, PluginReturn)>,
    pub line_base: usize,
}

impl RoundState {
    /// The dispatched raw commands, in dispatch order.
    pub open spec fn keys(self) -> Seq<Seq<char>> {
        self.dispatched.deep_view()
    }

    /// The raw commands a result came back for, in completion order.
    pub open spec fn recorded_keys(self) -> Seq<Seq<char>> {
        Seq::new(self.results@.len(), |i: int| self.results@[i].0@)
    }

    /// Each key dispatched once; each result for a dispatched key, once.
    pub open spec fn wf(self) -> bool {
        &&& self.keys().no_duplicates()
        &&& self.recorded_keys().no_duplicates()
        &&& forall|i: int| 0 <= i < self.recorded_keys().len()
            ==> self.keys().contains(#[trigger] self.recorded_keys()[i])
    }

    /// Every dispatched invocation has its result in.
    pub open spec fn complete(self) -> bool {
        self.results@.len() == self.dispatched@.len()
    }

    pub fn new(line_base: usize) -> (r: Self)
        ensures
            r.wf(),
            r.dispatched@.len() == 0,
            r.results@.len() == 0,
            r.line_base == line_base,
    {
        RoundState { dispatched: Vec::new(), results: Vec::new(), line_base }
    }
}

/// The retry policy of the model-call driver: a fixed number of attempts,
/// no backoff.
pub struct RetryState {
    pub attempts: u32,
    pub max_attempts: u32,
}

impl RetryState {
    pub open spec fn wf(self) -> bool {
        self.attempts <= self.max_attempts
    }

    pub fn new(max_attempts: u32) -> (r: Self)
        ensures
            r.wf(),
            r.attempts == 0,
            r.max_attempts == max_attempts,
    {
        RetryState { attempts: 0, max_attempts }
    }

    /// Record one transport failure; true when another attempt is still
    /// allowed, false when the attempts are exhausted and the request
    /// must fail.
    pub fn on_failure(&mut self) -> (retry: bool)
        requires
            old(self).wf(),
        ensures
            final(self).wf(),
            final(self).max_attempts == old(self).max_attempts,
            old(self).attempts < old(self).max_attempts
                ==> final(self).attempts == old(self).attempts + 1,
            old(self).attempts == old(self).max_attempts
                ==> final(self).attempts == old(self).attempts,
            retry == (final(self).attempts < final(self).max_attempts),
    {
        if self.attempts < self.max_attempts {
            self.attempts = self.attempts + 1;
        }
        self.attempts < self.max_attempts
    }
}

/// The raw commands of `raws` whose name a plugin answers to, in order.
pub open spec fn known_raws(raws: Seq<Seq<char>>) -> Seq<Seq<char>>
    decreases raws.len(),
{
    if raws.len() == 0 {
        Seq::empty()
    } else {
        let rest = known_raws(raws.drop_last());
        if is_known_command(command_name(raws.last())) {
            rest.push(raws.last())
        } else {
            rest
        }
    }
}

/// The raw commands of `raws` with a name no plugin answers to, in order.
pub open spec fn unknown_raws(raws: Seq<Seq<char>>) -> Seq<Seq<char>>
    decreases raws.len(),
{
    if raws.len() == 0 {
        Seq::empty()
    } else {
        let rest = unknown_raws(raws.drop_last());
        if is_known_command(command_name(raws.last())) {
            rest
        } else {
            rest.push(raws.last())
        }
    }
}

/// The two selections take commands from `raws`, and keep a run without
/// repeats free of them.
proof fn lemma_selections(raws: Seq<Seq<char>>)
    ensures
        forall|x: Seq<char>| known_raws(raws).contains(x) ==> raws.contains(x),
        forall|x: Seq<char>| unknown_raws(raws).contains(x) ==> raws.contains(x),
        raws.no_duplicates() ==> known_raws(raws).no_duplicates(),
        raws.no_duplicates() ==> unknown_raws(raws).no_duplicates(),
    decreases raws.len(),
{
    if raws.len() > 0 {
        let head = raws.drop_last();
        lemma_selections(head);
        assert(head.no_duplicates() ==> known_raws(head).no_duplicates());
        assert forall|x: Seq<char>| known_raws(raws).contains(x)
            implies raws.contains(x) by {
            let kr = known_raws(raws);
            let rest = known_raws(head);
            let i = choose|i: int| 0 <= i < kr.len() && kr[i] == x;
            if is_known_command(command_name(raws.last())) && i == rest.len() {
                assert(x == raws.last());
                assert(raws[raws.len() - 1] == x);
            } else {
                assert(kr[i] == rest[i]);
                assert(rest.contains(x));
                assert(head.contains(x));
                let j = choose|j: int| 0 <= j < head.len() && head[j] == x;
                assert(raws[j] == x);
            }
        };
        assert forall|x: Seq<char>| unknown_raws(raws).contains(x)
            implies raws.contains(x) by {
            let ur = unknown_raws(raws);
            let rest = unknown_raws(head);
            let i = choose|i: int| 0 <= i < ur.len() && ur[i] == x;
            if !is_known_command(command_name(raws.last())) && i == rest.len() {
                assert(x == raws.last());
                assert(raws[raws.len() - 1] == x);
            } else {
                assert(ur[i] == rest[i]);
                assert(rest.contains(x));
                assert(head.contains(x));
                let j = choose|j: int| 0 <= j < head.len() && head[j] == x;
                assert(raws[j] == x);
            }
        };
        if raws.no_duplicates() {
            assert(head.no_duplicates()) by {
                assert forall|i: int, j: int| 0 <= i < j < head.len()
                    implies head[i] != head[j] by {
                    assert(raws[i] == head[i]);
                    assert(raws[j] == head[j]);
                };
            };
            assert(!head.contains(raws.last())) by {
                if head.contains(raws.last()) {
                    let j = choose|j: int| 0 <= j < head.len() && head[j] == raws.last();
                    assert(raws[j] == raws.last());
                    assert(raws[raws.len() - 1] == raws.last());
                }
            };
            assert(!known_raws(head).contains(raws.last()));
            assert(!unknown_raws(head).contains(raws.last()));
            if is_known_command(command_name(raws.last())) {
                assert(known_raws(raws) == known_raws(head).push(raws.last()));
                assert(known_raws(raws).no_duplicates()) by {
                    let kr = known_raws(raws);
                    let rest = known_raws(head);
                    assert forall|i: int, j: int| 0 <= i < j < kr.len()
                        implies kr[i] != kr[j] by {
                        if j == kr.len() - 1 {
                            assert(kr[i] == rest[i]);
                            assert(rest.contains(rest[i]));
                        }
                    };
                };
            } else {
                assert(unknown_raws(raws) == unknown_raws(head).push(raws.last()));
                assert(unknown_raws(raws).no_duplicates()) by {
                    let ur = unknown_raws(raws);
                    let rest = unknown_raws(head);
                    assert forall|i: int, j: int| 0 <= i < j < ur.len()
                        implies ur[i] != ur[j] by {
                        if j == ur.len() - 1 {
                            assert(ur[i] == rest[i]);
                            assert(rest.contains(rest[i]));
                        }
                    };
                };
            }
        }
    }
}

/// The status line a command starts with when dispatched: the processing
/// message while a known command runs; an unknown command completes at
/// once, so its line is its capped error status.
pub open spec fn initial_line(raw: Seq<char>, cap: nat) -> Seq<char> {
    if is_known_command(command_name(raw)) {
        processing_message_of(raw)
    } else {
        truncated("❌ Attempted invalid command"@, cap)
    }
}

/// The status lines a snapshot's fresh commands start with, in order.
pub open spec fn initial_lines(raws: Seq<Seq<char>>, cap: nat) -> Seq<Seq<char>> {
    Seq::new(raws.len(), |i: int| initial_line(raws[i], cap))
}

/// The first position of `key` in `keys`, or -1 where there is none.
pub open spec fn key_slot(keys: Seq<Seq<char>>, key: Seq<char>) -> int
    decreases keys.len(),
{
    if keys.len() == 0 {
        -1
    } else if keys[0] == key {
        0
    } else if key_slot(keys.drop_first(), key) == -1 {
        -1
    } else {
        1 + key_slot(keys.drop_first(), key)
    }
}

proof fn lemma_key_slot(keys: Seq<Seq<char>>, key: Seq<char>)
    ensures
        keys.contains(key) <==> 0 <= key_slot(keys, key) < keys.len(),
        keys.contains(key) ==> keys[key_slot(keys, key)] == key,
        keys.contains(key) ==> forall|j: int| 0 <= j < key_slot(keys, key) ==> keys[j] != key,
    decreases keys.len(),
{
    if keys.len() > 0 && keys[0] != key {
        lemma_key_slot(keys.drop_first(), key);
        if keys.contains(key) {
            let i = choose|i: int| 0 <= i < keys.len() && keys[i] == key;
            assert(keys.drop_first()[i - 1] == key);
            assert(keys.drop_first().contains(key));
        }
        if keys.drop_first().contains(key) {
            let i = choose|i: int|
                0 <= i < keys.drop_first().len() && keys.drop_first()[i] == key;
            assert(keys[i + 1] == key);
        }
        if keys.contains(key) {
            assert forall|j: int| 0 <= j < key_slot(keys, key)
                implies keys[j] != key by {
                if j > 0 {
                    assert(keys.drop_first()[j - 1] == keys[j]);
                }
            };
        }
    }
}

/// The progress log as shown: every status line closed by a line break.
pub open spec fn joined_lines(lines: Seq<Seq<char>>) -> Seq<char>
    decreases lines.len(),
{
    if lines.len() == 0 {
        Seq::empty()
    } else {
        joined_lines(lines.drop_last()) + lines.last() + "\n"@
    }
}

/// Append a status line, stated over the log's view.
fn push_line(lines: &mut Vec<String>, line: String)
    ensures
        final(lines).deep_view() == old(lines).deep_view().push(line@),
{
    let ghost l0 = lines@;
    let ghost dv0 = lines.deep_view();
    proof {
        assert(dv0.len() == l0.len());
    }
    lines.push(line);
    proof {
        assert forall|j: int| 0 <= j < dv0.len()
            implies lines.deep_view()[j] == dv0[j] by {
            assert(lines@[j] == l0[j]);
        };
        assert(lines.deep_view()[l0.len() as int] == line@);
        assert(lines.deep_view() =~= dv0.push(line@));
    }
}

/// Replace a status line, stated over the log's view.
fn set_line(lines: &mut Vec<String>, i: usize, line: String)
    requires
        i < old(lines)@.len(),
    ensures
        final(lines).deep_view() == old(lines).deep_view().update(i as int, line@),
        final(lines)@.len() == old(lines)@.len(),
{
    let ghost l0 = lines@;
    let ghost dv0 = lines.deep_view();
    proof {
        assert(dv0.len() == l0.len());
    }
    lines.set(i, line);
    proof {
        assert forall|j: int| 0 <= j < dv0.len() && j != i
            implies lines.deep_view()[j] == dv0[j] by {
            assert(lines@[j] == l0[j]);
        };
        assert(lines.deep_view()[i as int] == line@);
        assert(lines.deep_view() =~= dv0.update(i as int, line@));
    }
}

/// The first position of `key` among the dispatched keys, if any.
fn find_slot(keys: &Vec<String>, key: &String) -> (r: Option<usize>)
    ensures
        match r {
            Some(i) => i < keys.deep_view().len() && keys.deep_view()[i as int] == key@
                && forall|j: int| 0 <= j < i ==> keys.deep_view()[j] != key@,
            None => !keys.deep_view().contains(key@),
        },
{
    let n = keys.len();
    let mut i: usize = 0;
    while i < n
        invariant
            n == keys.len(),
            i <= n,
            forall|j: int| 0 <= j < i ==> keys.deep_view()[j] != key@,
        decreases n - i,
    {
        proof {
            assert(keys.deep_view()[i as int] == keys@[i as int].deep_view());
        }
        if keys[i].eq(key) {
            return Some(i);
        }
        i += 1;
    }
    proof {
        assert(keys.deep_view().len() == keys@.len());
        if keys.deep_view().contains(key@) {
            let j = choose|j: int|
                0 <= j < keys.deep_view().len() && keys.deep_view()[j] == key@;
        }
    }
    None
}

/// One request's orchestration state. The progress log holds one status
/// line per dispatched tool of the whole request: the tool's processing
/// message while it runs, replaced by its capped result status when the
/// result lands.
pub struct Engine {
    pub config: EngineConfig,
    pub context: ConversationContext,
    pub round: RoundState,
    pub rounds_done: u32,
    pub progress_lines: Vec<String>,
    pub outcome: Option<RequestOutcome>,
    pub final_text: String,
}

impl Engine {
    pub open spec fn wf(self) -> bool {
        &&& self.config.wf()
        &&& self.context.wf()
        &&& self.round.wf()
        &&& self.rounds_done <= self.config.max_rounds
        &&& (self.outcome is None ==> self.rounds_done < self.config.max_rounds)
        &&& self.round.line_base + self.round.dispatched@.len()
            == self.progress_lines@.len()
    }

    /// A fresh request over a built context.
    pub fn new(config: EngineConfig, context: ConversationContext) -> (r: Self)
        requires
            config.wf(),
            context.wf(),
        ensures
            r.wf(),
            r.config == config,
            r.context == context,
            r.rounds_done == 0,
            r.round.dispatched@.len() == 0,
            r.round.results@.len() == 0,
            r.progress_lines@.len() == 0,
            r.outcome is None,
            r.final_text@ == Seq::<char>::empty(),
    {
        Engine {
            config,
            context,
            round: RoundState::new(0),
            rounds_done: 0,
            progress_lines: Vec::new(),
            outcome: None,
            final_text: String::new(),
        }
    }

    /// Take one snapshot of the round's buffer: dispatch every command
    /// not dispatched before. Commands with a known name come back for
    /// the driver to run; the rest are answered on the spot with an error
    /// result and a status line. Also returns the buffer's visible text.
    pub fn on_buffer(&mut self, buffer: &str) -> (r: (Vec<ToolInvocation>, String))
        requires
            old(self).wf(),
            old(self).outcome is None,
        ensures
            final(self).wf(),
            final(self).outcome is None,
            ({
                let fresh = news(raw_commands(buffer@), old(self).round.keys().to_set());
                let unknowns = unknown_raws(fresh);
                &&& final(self).round.keys() == old(self).round.keys() + fresh
                &&& invocations_parse(r.0@, known_raws(fresh))
                &&& final(self).round.recorded_keys()
                    == old(self).round.recorded_keys() + unknowns
                &&& forall|i: int| 0 <= i < old(self).round.results@.len()
                    ==> final(self).round.results@[i] == old(self).round.results@[i]
                &&& forall|i: int| 0 <= i < unknowns.len() ==> {
                    let p = #[trigger] final(self).round.results@[
                        old(self).round.results@.len() + i];
                    &&& p.1.result@ == "Function not found"@
                    &&& p.1.to_user@ == "❌ Attempted invalid command"@
                }
                &&& final(self).progress_lines.deep_view()
                    == old(self).progress_lines.deep_view()
                        + initial_lines(fresh, old(self).config.to_user_cap as nat)
            }),
            final(self).round.line_base == old(self).round.line_base,
            r.1@ == visible_text(buffer@),
            final(self).config == old(self).config,
            final(self).context == old(self).context,
            final(self).rounds_done == old(self).rounds_done,
            final(self).final_text == old(self).final_text,
    {
        broadcast use vstd::seq_lib::seq_to_set_is_finite;
        let ghost init = *self;
        let ghost old_keys = self.round.keys();
        let (invs, visible) = extract_new(buffer, &self.round.dispatched);
        let ghost fresh = news(raw_commands(buffer@), old_keys.to_set());
        proof {
            lemma_news_props(raw_commands(buffer@), old_keys.to_set());
            lemma_selections(fresh);
        }
        let mut rest = invs;
        let mut to_run: Vec<ToolInvocation> = Vec::new();
        let ghost mut k: int = 0;
        proof {
            assert(fresh.take(0) =~= Seq::<Seq<char>>::empty());
            assert(known_raws(fresh.take(0)) =~= Seq::<Seq<char>>::empty());
            assert(unknown_raws(fresh.take(0)) =~= Seq::<Seq<char>>::empty());
            assert(self.round.keys() + fresh.take(0) =~= self.round.keys());
            assert(rest@ =~= invs@.skip(0));
            assert(init.progress_lines.deep_view()
                + initial_lines(fresh.take(0), init.config.to_user_cap as nat)
                =~= init.progress_lines.deep_view());
        }
        while rest.len() > 0
            invariant
                self.config == init.config,
                self.config.wf(),
                self.context == init.context,
                self.rounds_done == init.rounds_done,
                self.final_text == init.final_text,
                self.outcome == init.outcome,
                init.round.wf(),
                init.rounds_done <= init.config.max_rounds,
                invocations_parse(invs@, fresh),
                fresh.no_duplicates(),
                fresh.to_set() =~= raw_commands(buffer@).to_set().difference(
                    init.round.keys().to_set()),
                0 <= k <= invs@.len(),
                rest@ == invs@.skip(k),
                self.round.dispatched.deep_view() == init.round.keys() + fresh.take(k),
                invocations_parse(to_run@, known_raws(fresh.take(k))),
                self.round.recorded_keys()
                    == init.round.recorded_keys() + unknown_raws(fresh.take(k)),
                forall|i: int| 0 <= i < init.round.results@.len()
                    ==> self.round.results@[i] == init.round.results@[i],
                forall|i: int| 0 <= i < unknown_raws(fresh.take(k)).len() ==> {
                    let p = #[trigger] self.round.results@[
                        init.round.results@.len() + i];
                    &&& p.1.result@ == "Function not found"@
                    &&& p.1.to_user@ == "❌ Attempted invalid command"@
                },
                self.round.line_base == init.round.line_base,
                init.round.line_base + init.round.dispatched@.len()
                    == init.progress_lines@.len(),
                self.progress_lines.deep_view() == init.progress_lines.deep_view()
                    + initial_lines(fresh.take(k), init.config.to_user_cap as nat),
            decreases rest@.len(),
        {
            let ghost h = fresh[k];
            proof {
                assert(invs@.skip(k)[0] == invs@[k]);
                assert(invs@[k].parses(fresh[k]));
                assert(fresh.take(k + 1).drop_last() =~= fresh.take(k));
                assert(fresh.take(k + 1).last() == h);
            }
            let inv = rest.remove(0);
            proof {
                assert(rest@ =~= invs@.skip(k + 1)) by {
                    assert(rest@ =~= invs@.skip(k).drop_first());
                    assert(invs@.skip(k).drop_first() =~= invs@.skip(k + 1));
                }
            }
            proof {
                assert(self.round.dispatched.deep_view().len()
                    == init.round.keys().len() + k);
                assert(self.round.dispatched@.len() == init.round.keys().len() + k);
                assert(inv.name@ == command_name(h));
            }
            let key_copy = inv.dedup_key.clone();
            let ghost disp0 = self.round.dispatched@;
            let ghost dv0 = self.round.dispatched.deep_view();
            self.round.dispatched.push(key_copy);
            proof {
                assert(key_copy@ == h);
                assert(self.round.dispatched@ == disp0.push(key_copy));
                assert forall|j: int| 0 <= j < dv0.len()
                    implies self.round.dispatched.deep_view()[j] == dv0[j] by {
                    assert(self.round.dispatched@[j] == disp0[j]);
                    assert(self.round.dispatched.deep_view()[j]
                        == self.round.dispatched@[j].deep_view());
                    assert(dv0[j] == disp0[j].deep_view());
                };
                assert(self.round.dispatched.deep_view()[disp0.len() as int]
                    == key_copy.deep_view());
                let lhs = self.round.dispatched.deep_view();
                let rhs = init.round.keys() + fresh.take(k + 1);
                let m = init.round.keys().len() as int;
                assert(dv0.len() == m + k);
                assert(lhs.len() == m + k + 1);
                assert(rhs.len() == m + k + 1);
                assert forall|j: int| 0 <= j < m + k + 1 implies lhs[j] == rhs[j] by {
                    if j < m {
                        assert(lhs[j] == dv0[j]);
                        assert(dv0[j] == init.round.keys()[j]);
                        assert(rhs[j] == init.round.keys()[j]);
                    } else if j < m + k {
                        assert(lhs[j] == dv0[j]);
                        assert(dv0[j] == fresh.take(k)[j - m]);
                        assert(fresh.take(k)[j - m] == fresh[j - m]);
                        assert(rhs[j] == fresh.take(k + 1)[j - m]);
                        assert(fresh.take(k + 1)[j - m] == fresh[j - m]);
                    } else {
                        assert(lhs[j] == key_copy.deep_view());
                        assert(rhs[j] == fresh.take(k + 1)[k]);
                        assert(fresh.take(k + 1)[k] == fresh[k]);
                    }
                };
                assert(self.round.dispatched.deep_view()
                    =~= init.round.keys() + fresh.take(k + 1));
            }
            let known = known_command(&inv.name);
            let line = if known {
                get_processing_message(inv.dedup_key.as_str())
            } else {
                truncate_with_ellipsis("❌ Attempted invalid command", self.config.to_user_cap)
            };
            proof {
                assert(line@ == initial_line(h, init.config.to_user_cap as nat));
            }
            let ghost lines0 = self.progress_lines.deep_view();
            push_line(&mut self.progress_lines, line);
            proof {
                let cap = init.config.to_user_cap as nat;
                let lhs = self.progress_lines.deep_view();
                let rhs = init.progress_lines.deep_view() + initial_lines(fresh.take(k + 1), cap);
                let m = init.progress_lines.deep_view().len() as int;
                assert(lines0.len() == m + k);
                assert(lhs.len() == m + k + 1);
                assert(rhs.len() == m + k + 1);
                assert forall|j: int| 0 <= j < m + k + 1 implies lhs[j] == rhs[j] by {
                    if j < m {
                        assert(lhs[j] == lines0[j]);
                        assert(lines0[j] == init.progress_lines.deep_view()[j]);
                    } else if j < m + k {
                        assert(lhs[j] == lines0[j]);
                        assert(lines0[j] == initial_lines(fresh.take(k), cap)[j - m]);
                        assert(initial_lines(fresh.take(k), cap)[j - m]
                            == initial_line(fresh[j - m], cap));
                        assert(rhs[j] == initial_lines(fresh.take(k + 1), cap)[j - m]);
                        assert(initial_lines(fresh.take(k + 1), cap)[j - m]
                            == initial_line(fresh[j - m], cap));
                    } else {
                        assert(lhs[j] == line@);
                        assert(rhs[j] == initial_lines(fresh.take(k + 1), cap)[k]);
                        assert(initial_lines(fresh.take(k + 1), cap)[k]
                            == initial_line(fresh[k], cap));
                    }
                };
                assert(lhs =~= rhs);
            }
            if known {
                to_run.push(inv);
                proof {
                    assert(known_raws(fresh.take(k + 1))
                        == known_raws(fresh.take(k)).push(h));
                    assert(unknown_raws(fresh.take(k + 1)) == unknown_raws(fresh.take(k)));
                    assert(invocations_parse(to_run@, known_raws(fresh.take(k + 1)))) by {
                        assert(forall|j: int| 0 <= j < to_run@.len() - 1
                            ==> to_run@[j] == #[trigger] to_run@.drop_last()[j]);
                        assert forall|j: int| 0 <= j < to_run@.len()
                            implies #[trigger] to_run@[j].parses(
                                known_raws(fresh.take(k + 1))[j]) by {
                            if j < to_run@.len() - 1 {
                                assert(to_run@[j].parses(known_raws(fresh.take(k))[j]));
                            }
                        };
                    };
                }
            } else {
                let to_user = String::from_str("❌ Attempted invalid command");
                let res = PluginReturn {
                    result: String::from_str("Function not found"),
                    to_user,
                };
                proof {
                    assert(self.round.recorded_keys().len() == self.round.results@.len());
                    assert(self.round.results@.len()
                        == init.round.results@.len() + unknown_raws(fresh.take(k)).len());
                }
                let ghost res0 = self.round.results@;
                let ghost rk0 = self.round.recorded_keys();
                let ghost key_spec = inv.dedup_key;
                self.round.results.push((inv.dedup_key, res));
                proof {
                    assert(unknown_raws(fresh.take(k + 1))
                        == unknown_raws(fresh.take(k)).push(h));
                    assert(known_raws(fresh.take(k + 1)) == known_raws(fresh.take(k)));
                    assert forall|j: int| 0 <= j < rk0.len()
                        implies self.round.recorded_keys()[j] == rk0[j] by {
                        assert(self.round.results@[j] == res0[j]);
                    };
                    assert(self.round.recorded_keys()[rk0.len() as int] == key_spec@);
                    assert(key_spec@ == h);
                    let lhs = self.round.recorded_keys();
                    let rhs = init.round.recorded_keys() + unknown_raws(fresh.take(k + 1));
                    let m = init.round.recorded_keys().len() as int;
                    let u0 = unknown_raws(fresh.take(k));
                    assert(rk0.len() == m + u0.len());
                    assert(lhs.len() == m + u0.len() + 1);
                    assert(rhs.len() == m + u0.len() + 1);
                    assert forall|j: int| 0 <= j < lhs.len() implies lhs[j] == rhs[j] by {
                        if j < m {
                            assert(lhs[j] == rk0[j]);
                            assert(rk0[j] == init.round.recorded_keys()[j]);
                            assert(rhs[j] == init.round.recorded_keys()[j]);
                        } else if j < m + u0.len() {
                            assert(lhs[j] == rk0[j]);
                            assert(rk0[j] == u0[j - m]);
                            assert(rhs[j] == unknown_raws(fresh.take(k + 1))[j - m]);
                            assert(unknown_raws(fresh.take(k + 1))[j - m] == u0[j - m]);
                        } else {
                            assert(lhs[j] == key_spec@);
                            assert(rhs[j] == unknown_raws(fresh.take(k + 1))[u0.len() as int]);
                            assert(unknown_raws(fresh.take(k + 1))[u0.len() as int] == h);
                        }
                    };
                    assert(self.round.recorded_keys()
                        =~= init.round.recorded_keys() + unknown_raws(fresh.take(k + 1)));
                }
            }
            proof {
                k = k + 1;
            }
        }
        proof {
            assert(invs@.skip(invs@.len() as int).len() == 0);
            assert(k == invs@.len());
            assert(fresh.take(k) =~= fresh);
            lemma_selections(fresh.take(k));
            assert(self.round.wf()) by {
                assert forall|x: Seq<char>| fresh.contains(x)
                    implies !init.round.keys().contains(x) by {
                    assert(fresh.to_set().contains(x));
                    if init.round.keys().contains(x) {
                        assert(init.round.keys().to_set().contains(x));
                    }
                };
                assert forall|x: Seq<char>| unknown_raws(fresh).contains(x)
                    implies !init.round.recorded_keys().contains(x) by {
                    assert(fresh.contains(x));
                    if init.round.recorded_keys().contains(x) {
                        let i = choose|i: int| 0 <= i < init.round.recorded_keys().len()
                            && init.round.recorded_keys()[i] == x;
                        assert(init.round.keys().contains(init.round.recorded_keys()[i]));
                        assert(init.round.keys().to_set().contains(x));
                        assert(fresh.to_set().contains(x));
                    }
                };
                lemma_nodup_concat(init.round.keys(), fresh);
                lemma_nodup_concat(init.round.recorded_keys(), unknown_raws(fresh));
                assert forall|i: int| 0 <= i < self.round.recorded_keys().len()
                    implies self.round.keys().contains(
                        #[trigger] self.round.recorded_keys()[i]) by {
                    if i < init.round.recorded_keys().len() {
                        assert(init.round.recorded_keys()[i]
                            == self.round.recorded_keys()[i]);
                        assert(init.round.keys().contains(init.round.recorded_keys()[i]));
                        let j = choose|j: int| 0 <= j < init.round.keys().len()
                            && init.round.keys()[j] == init.round.recorded_keys()[i];
                        assert(self.round.keys()[j] == init.round.recorded_keys()[i]);
                    } else {
                        let x = self.round.recorded_keys()[i];
                        assert(unknown_raws(fresh).contains(x));
                        assert(fresh.contains(x));
                        let j = choose|j: int| 0 <= j < fresh.len() && fresh[j] == x;
                        assert(self.round.keys()[init.round.keys().len() + j] == x);
                    }
                };
            };
        }
        (to_run, visible)
    }

    /// Record one tool's completed result, with its status line under the
    /// cap. Accepted only for a command dispatched this round whose result
    /// is not yet in; anything else — a repeat, or a result from a round
    /// that already moved on — is dropped, never folded.
    pub fn on_tool_result(&mut self, key: &String, result: PluginReturn) -> (accepted: bool)
        requires
            old(self).wf(),
            old(self).outcome is None,
        ensures
            final(self).wf(),
            accepted == (old(self).round.keys().contains(key@)
                && !old(self).round.recorded_keys().contains(key@)),
            accepted ==> {
                &&& final(self).round.recorded_keys()
                    == old(self).round.recorded_keys().push(key@)
                &&& final(self).round.results@.len() == old(self).round.results@.len() + 1
                &&& forall|i: int| 0 <= i < old(self).round.results@.len()
                    ==> final(self).round.results@[i] == old(self).round.results@[i]
                &&& final(self).round.results@.last().1 == result
                &&& final(self).progress_lines.deep_view()
                    == old(self).progress_lines.deep_view().update(
                        old(self).round.line_base
                            + key_slot(old(self).round.keys(), key@),
                        truncated(result.to_user@, old(self).config.to_user_cap as nat))
            },
            !accepted ==> {
                &&& final(self).round.results@ == old(self).round.results@
                &&& final(self).progress_lines == old(self).progress_lines
            },
            final(self).round.dispatched == old(self).round.dispatched,
            final(self).round.line_base == old(self).round.line_base,
            final(self).config == old(self).config,
            final(self).context == old(self).context,
            final(self).rounds_done == old(self).rounds_done,
            final(self).outcome == old(self).outcome,
            final(self).final_text == old(self).final_text,
    {
        let found = find_slot(&self.round.dispatched, key);
        let recorded = recorded_contains(&self.round, key);
        if found.is_some() && !recorded {
            let slot = found.unwrap();
            proof {
                lemma_key_slot(self.round.keys(), key@);
                let s = key_slot(self.round.keys(), key@);
                assert(self.round.keys().contains(key@));
                if s < slot {
                    assert(self.round.keys()[s] != key@);
                }
                if slot < s {
                    assert(self.round.keys()[slot as int] != key@);
                }
                assert(s == slot);
                assert(self.round.dispatched.deep_view().len()
                    == self.round.dispatched@.len());
            }
            let line_total = self.progress_lines.len();
            proof {
                assert(self.round.line_base + slot < line_total);
            }
            let line = truncate_with_ellipsis(result.to_user.as_str(), self.config.to_user_cap);
            set_line(&mut self.progress_lines, self.round.line_base + slot, line);
            let ghost res0 = self.round.results@;
            let ghost rk0 = self.round.recorded_keys();
            let key_copy = key.clone();
            let ghost key_spec = key_copy;
            proof {
                assert(rk0.len() == res0.len());
            }
            self.round.results.push((key_copy, result));
            proof {
                assert forall|j: int| 0 <= j < rk0.len()
                    implies self.round.recorded_keys()[j] == rk0[j] by {
                    assert(self.round.results@[j] == res0[j]);
                };
                assert(self.round.recorded_keys()[rk0.len() as int] == key_spec@);
                assert(self.round.recorded_keys() =~= rk0.push(key@));
                assert(self.round.wf()) by {
                    assert forall|i: int, j: int|
                        0 <= i < j < self.round.recorded_keys().len()
                        implies self.round.recorded_keys()[i]
                            != self.round.recorded_keys()[j] by {
                        if j == rk0.len() {
                            assert(rk0.contains(rk0[i]));
                        }
                    };
                    assert forall|i: int| 0 <= i < self.round.recorded_keys().len()
                        implies self.round.keys().contains(
                            #[trigger] self.round.recorded_keys()[i]) by {
                        if i < rk0.len() {
                            assert(rk0[i] == self.round.recorded_keys()[i]);
                        }
                    };
                };
            }
            true
        } else {
            false
        }
    }

    /// Whether every dispatched invocation of the round has its result in.
    pub fn round_complete(&self) -> (b: bool)
        ensures
            b == self.round.complete(),
    {
        self.round.results.len() == self.round.dispatched.len()
    }

    /// Close the round over its final buffer. A round that dispatched
    /// nothing ends the request with the model's own text. Otherwise the
    /// results at hand (a late one stays out: the round waits no longer)
    /// are folded into the context as one synthetic message and the next
    /// round begins — unless this round reached the cap, which forces
    /// termination with the text at hand.
    pub fn end_round(&mut self, buffer: &str) -> (done: Option<RequestOutcome>)
        requires
            old(self).wf(),
            old(self).outcome is None,
        ensures
            final(self).wf(),
            final(self).config == old(self).config,
            final(self).progress_lines == old(self).progress_lines,
            done == final(self).outcome,
            old(self).round.dispatched@.len() == 0 ==> {
                &&& done == Some(RequestOutcome::Success)
                &&& final(self).final_text@ == visible_text(buffer@)
                &&& final(self).context == old(self).context
                &&& final(self).rounds_done == old(self).rounds_done
            },
            old(self).round.dispatched@.len() > 0 ==> {
                &&& final(self).rounds_done == old(self).rounds_done + 1
                &&& final(self).context.messages@.len()
                    == old(self).context.messages@.len() + 1
                &&& forall|i: int| 0 <= i < old(self).context.messages@.len()
                    ==> final(self).context.messages@[i] == old(self).context.messages@[i]
                &&& final(self).context.messages@.last().role == Role::Function
                &&& final(self).context.messages@.last().content@
                    == folded(old(self).round.results@)
                &&& final(self).round.dispatched@.len() == 0
                &&& final(self).round.results@.len() == 0
                &&& final(self).round.line_base == final(self).progress_lines@.len()
                &&& (old(self).rounds_done + 1 < old(self).config.max_rounds ==> {
                    &&& done is None
                    &&& final(self).final_text == old(self).final_text
                })
                &&& (old(self).rounds_done + 1 == old(self).config.max_rounds ==> {
                    &&& done == Some(RequestOutcome::ForcedStop)
                    &&& final(self).final_text@ == visible_text(buffer@)
                })
            },
    {
        if self.round.dispatched.len() == 0 {
            let r = scan_buffer(buffer);
            self.final_text = r.1;
            self.outcome = Some(RequestOutcome::Success);
            Some(RequestOutcome::Success)
        } else {
            let ghost init = *self;
            let mut fold = String::new();
            let n = self.round.results.len();
            let mut i: usize = 0;
            proof {
                assert(init.round.results@.take(0) =~= Seq::<(String, PluginReturn)>::empty());
            }
            while i < n
                invariant
                    *self == init,
                    n == self.round.results@.len(),
                    i <= n,
                    fold@ == folded(init.round.results@.take(i as int)),
                decreases n - i,
            {
                let ghost pre = init.round.results@.take(i as int);
                let ghost post = init.round.results@.take(i as int + 1);
                proof {
                    assert(post.drop_last() =~= pre);
                    assert(post.last() == init.round.results@[i as int]);
                }
                fold.append("[");
                fold.append(self.round.results[i].0.as_str());
                fold.append("~");
                fold.append(self.round.results[i].1.result.as_str());
                fold.append("]");
                i += 1;
            }
            proof {
                assert(init.round.results@.take(n as int) =~= init.round.results@);
            }
            let ghost msgs0 = self.context.messages@;
            self.context.messages.push(Message { role: Role::Function, content: fold });
            self.round = RoundState::new(self.progress_lines.len());
            self.rounds_done = self.rounds_done + 1;
            proof {
                assert(self.context.messages@[0] == msgs0[0]);
            }
            if self.rounds_done == self.config.max_rounds {
                let r = scan_buffer(buffer);
                self.final_text = r.1;
                self.outcome = Some(RequestOutcome::ForcedStop);
                Some(RequestOutcome::ForcedStop)
            } else {
                None
            }
        }
    }

    /// The model transport exhausted its retries: the request fails, and
    /// the text extracted so far stands as best-effort partial text.
    pub fn on_provider_failure(&mut self, buffer: &str)
        requires
            old(self).wf(),
            old(self).outcome is None,
        ensures
            final(self).wf(),
            final(self).outcome == Some(RequestOutcome::Failure),
            final(self).final_text@ == visible_text(buffer@),
            final(self).config == old(self).config,
            final(self).context == old(self).context,
            final(self).round.dispatched == old(self).round.dispatched,
            final(self).round.results@ == old(self).round.results@,
            final(self).round.line_base == old(self).round.line_base,
            final(self).rounds_done == old(self).rounds_done,
            final(self).progress_lines == old(self).progress_lines,
    {
        let r = scan_buffer(buffer);
        self.final_text = r.1;
        self.outcome = Some(RequestOutcome::Failure);
    }

    /// The state glyph of the request as it stands: pending while running,
    /// the failure mark only when the transport gave up.
    pub fn glyph(&self) -> (g: Glyph)
        ensures
            self.outcome is None ==> g == Glyph::Pending,
            self.outcome == Some(RequestOutcome::Success) ==> g == Glyph::Success,
            self.outcome == Some(RequestOutcome::ForcedStop) ==> g == Glyph::Success,
            self.outcome == Some(RequestOutcome::Failure) ==> g == Glyph::Failure,
    {
        match self.outcome {
            None => Glyph::Pending,
            Some(RequestOutcome::Success) => Glyph::Success,
            Some(RequestOutcome::ForcedStop) => Glyph::Success,
            Some(RequestOutcome::Failure) => Glyph::Failure,
        }
    }

    /// The progress log as shown to the user: one line per dispatched
    /// tool of the request, each closed by a line break.
    pub fn progress_text(&self) -> (r: String)
        ensures
            r@ == joined_lines(self.progress_lines.deep_view()),
    {
        let ghost all = self.progress_lines.deep_view();
        let mut out = String::new();
        let n = self.progress_lines.len();
        let mut i: usize = 0;
        proof {
            assert(all.len() == self.progress_lines@.len());
            assert(joined_lines(all.take(0)) =~= Seq::<char>::empty());
        }
        while i < n
            invariant
                n == self.progress_lines@.len(),
                all == self.progress_lines.deep_view(),
                all.len() == n,
                i <= n,
                out@ == joined_lines(all.take(i as int)),
            decreases n - i,
        {
            proof {
                assert(all.take(i as int + 1).drop_last() =~= all.take(i as int));
                assert(all.take(i as int + 1).last() == all[i as int]);
                assert(all[i as int] == self.progress_lines@[i as int].deep_view());
            }
            out.append(self.progress_lines[i].as_str());
            out.append("\n");
            i += 1;
        }
        proof {
            assert(all.take(n as int) =~= all);
        }
        out
    }
}

/// Whether a result for `key` is already recorded this round.
fn recorded_contains(round: &RoundState, key: &String) -> (b: bool)
    ensures
        b == round.recorded_keys().contains(key@),
{
    let n = round.results.len();
    let mut i: usize = 0;
    while i < n
        invariant
            n == round.results@.len(),
            i <= n,
            forall|j: int| 0 <= j < i ==> round.recorded_keys()[j] != key@,
        decreases n - i,
    {
        if round.results[i].0.eq(key) {
            proof {
                assert(round.recorded_keys()[i as int] == key@);
            }
            return true;
        }
        i += 1;
    }
    proof {
        assert(round.recorded_keys().len() == n);
        if round.recorded_keys().contains(key@) {
            let j = choose|j: int|
                0 <= j < round.recorded_keys().len() && round.recorded_keys()[j] == key@;
        }
    }
    false
}

/// The synthetic context message of a round: every recorded result as
/// `[command~answer]`, in completion order.
pub open spec fn folded(results: Seq<(String, PluginReturn)>) -> Seq<char>
    decreases results.len(),
{
    if results.len() == 0 {
        Seq::empty()
    } else {
        folded(results.drop_last()) + "["@ + results.last().0@ + "~"@
            + results.last().1.result@ + "]"@
    }
}

/// Bounded convergence: a request never exceeds its configured round
/// cap, and a request still running always has room for another round.
pub proof fn lemma_round_cap(e: Engine)
    requires
        e.wf(),
    ensures
        e.rounds_done <= e.config.max_rounds,
        e.outcome is None ==> e.rounds_done < e.config.max_rounds,
{
}

} // verus!
