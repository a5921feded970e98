use cinematic::context::{build_context, build_persona, prepare_history, Role};
use cinematic::engine::{Engine, EngineConfig, RequestOutcome, RetryState};
use cinematic::plugins::{get_data, PluginReturn};
use cinematic::progress::Glyph;

fn fresh_engine(max_rounds: u32) -> Engine {
    let persona = build_persona("01/01/2024", "12:00");
    let context = build_context(&persona, &get_data(), "", "add the moon movie");
    let mut config = EngineConfig::standard();
    config.max_rounds = max_rounds;
    Engine::new(config, context)
}

fn result(to_model: &str, to_user: &str) -> PluginReturn {
    PluginReturn {
        result: to_model.to_string(),
        to_user: to_user.to_string(),
    }
}

#[test]
fn scenario_one_command_round_folds_result() {
    let mut engine = fresh_engine(10);
    let before = engine.context.messages.len();
    let (to_run, visible) = engine.on_buffer("Let me check [WEB~distance to moon]");
    assert_eq!(visible, "Let me check ");
    assert_eq!(to_run.len(), 1);
    assert_eq!(to_run[0].name, "WEB");
    assert_eq!(to_run[0].args, vec!["distance to moon".to_string()]);

    // While the tool runs, its processing message stands as the status.
    assert_eq!(
        engine.progress_text(),
        "🌐 Searching web for query distance to moon\n"
    );

    let accepted = engine.on_tool_result(
        &to_run[0].dedup_key,
        result("384400 km", "🌐 Web search ran for query distance to moon"),
    );
    assert!(accepted);
    // The result's status replaces the running line.
    assert_eq!(
        engine.progress_text(),
        "🌐 Web search ran for query distance to moon\n"
    );
    assert!(engine.round_complete());

    let done = engine.end_round("Let me check [WEB~distance to moon]");
    assert!(done.is_none());
    assert_eq!(engine.context.messages.len(), before + 1);
    let folded = &engine.context.messages[before];
    assert_eq!(folded.role, Role::Function);
    assert_eq!(folded.content, "[WEB~distance to moon~384400 km]");
}

#[test]
fn scenario_restreamed_command_dispatched_once() {
    let mut engine = fresh_engine(10);
    let (first, _) = engine.on_buffer("[WEB~term1]");
    assert_eq!(first.len(), 1);
    let (second, _) = engine.on_buffer("[WEB~term1] I am looking it up [WEB~term1]");
    assert_eq!(second.len(), 0);
    assert_eq!(engine.round.dispatched.len(), 1);
}

#[test]
fn dispatch_count_equals_distinct_commands_of_final_buffer() {
    let mut engine = fresh_engine(10);
    engine.on_buffer("[WEB~a]");
    engine.on_buffer("[WEB~a][WEB~b]");
    engine.on_buffer("[WEB~a][WEB~b] text [WEB~a][MEM_GET~c]");
    // The final buffer holds three distinct raw commands; one dispatch each.
    assert_eq!(engine.round.dispatched.len(), 3);
    let keys: Vec<&str> = engine.round.dispatched.iter().map(|k| k.as_str()).collect();
    assert_eq!(keys, vec!["WEB~a", "WEB~b", "MEM_GET~c"]);
}

#[test]
fn scenario_round_deadline_folds_partial_results() {
    let mut engine = fresh_engine(10);
    let buffer = "[WEB~a][WEB~b][WEB~c]";
    let (to_run, _) = engine.on_buffer(buffer);
    assert_eq!(to_run.len(), 3);

    assert!(engine.on_tool_result(&to_run[0].dedup_key, result("one", "done a")));
    assert!(engine.on_tool_result(&to_run[1].dedup_key, result("two", "done b")));
    assert!(!engine.round_complete());

    // The deadline passed: the controller proceeds with what is in.
    let done = engine.end_round(buffer);
    assert!(done.is_none());
    let folded = &engine.context.messages.last().unwrap().content;
    assert_eq!(folded.as_str(), "[WEB~a~one][WEB~b~two]");

    // The straggler's result arrives after the round moved on: dropped.
    let late = engine.on_tool_result(&to_run[2].dedup_key, result("three", "done c"));
    assert!(!late);
    assert_eq!(engine.round.results.len(), 0);
}

#[test]
fn scenario_no_tool_calls_succeeds_with_model_text() {
    let mut engine = fresh_engine(10);
    let (to_run, visible) = engine.on_buffer("The moon is 384400 km away.");
    assert!(to_run.is_empty());
    assert_eq!(visible, "The moon is 384400 km away.");
    let done = engine.end_round("The moon is 384400 km away.");
    assert_eq!(done, Some(RequestOutcome::Success));
    assert_eq!(engine.final_text, "The moon is 384400 km away.");
    assert_eq!(engine.rounds_done, 0);
    assert!(matches!(engine.glyph(), Glyph::Success));
}

#[test]
fn scenario_round_cap_forces_termination() {
    let mut engine = fresh_engine(5);
    for round in 0..5u32 {
        let buffer = format!("[WEB~query number {round}]");
        let (to_run, _) = engine.on_buffer(&buffer);
        assert_eq!(to_run.len(), 1);
        assert!(engine.on_tool_result(&to_run[0].dedup_key, result("answer", "status")));
        let done = engine.end_round(&buffer);
        if round < 4 {
            assert!(done.is_none(), "round {round} should continue");
        } else {
            // A sixth round never starts: the cap fires at the fifth.
            assert_eq!(done, Some(RequestOutcome::ForcedStop));
        }
    }
    assert_eq!(engine.rounds_done, 5);
    assert!(matches!(engine.glyph(), Glyph::Success));
}

#[test]
fn unknown_tool_answered_locally_without_spawning() {
    let mut engine = fresh_engine(10);
    let (to_run, _) = engine.on_buffer("[NOPE~what]");
    assert!(to_run.is_empty());
    assert_eq!(engine.round.dispatched.len(), 1);
    assert_eq!(engine.round.results.len(), 1);
    assert_eq!(engine.round.results[0].1.result, "Function not found");
    assert_eq!(engine.round.results[0].1.to_user, "❌ Attempted invalid command");
    assert_eq!(engine.progress_text(), "❌ Attempted invalid command\n");
    assert!(engine.round_complete());
}

#[test]
fn provider_failure_keeps_partial_text() {
    let mut engine = fresh_engine(10);
    let (to_run, _) = engine.on_buffer("Partial answer [WEB~x");
    assert!(to_run.is_empty());
    engine.on_provider_failure("Partial answer [WEB~x");
    assert_eq!(engine.outcome, Some(RequestOutcome::Failure));
    assert_eq!(engine.final_text, "Partial answer ");
    assert!(matches!(engine.glyph(), Glyph::Failure));
}

#[test]
fn duplicate_result_rejected() {
    let mut engine = fresh_engine(10);
    let (to_run, _) = engine.on_buffer("[WEB~x]");
    assert!(engine.on_tool_result(&to_run[0].dedup_key, result("first", "s")));
    assert!(!engine.on_tool_result(&to_run[0].dedup_key, result("second", "s")));
    assert_eq!(engine.round.results.len(), 1);
    assert_eq!(engine.round.results[0].1.result, "first");
}

#[test]
fn result_status_lines_are_capped() {
    let mut engine = fresh_engine(10);
    let (to_run, _) = engine.on_buffer("[WEB~x]");
    assert_eq!(engine.progress_text(), "🌐 Searching web for query x\n");
    let long_status: String = "s".repeat(200);
    assert!(engine.on_tool_result(&to_run[0].dedup_key, result("m", &long_status)));
    let expected = format!("{}...\n", "s".repeat(150));
    assert_eq!(engine.progress_text(), expected);
}

#[test]
fn retry_policy_allows_three_attempts() {
    let mut retry = RetryState::new(3);
    assert!(retry.on_failure());
    assert!(retry.on_failure());
    assert!(!retry.on_failure());
    assert!(!retry.on_failure());
    assert_eq!(retry.attempts, 3);
}

#[test]
fn context_omits_empty_and_single_line_history() {
    let persona = build_persona("02/03/2024", "08:15");
    assert!(persona.contains("The current date is 02/03/2024, the current time is 08:15"));
    let without = build_context(&persona, &get_data(), "", "hello");
    assert_eq!(without.messages.len(), 2);
    assert_eq!(without.messages[0].role, Role::System);
    assert_eq!(without.messages[1].role, Role::User);
    assert_eq!(without.messages[1].content, "hello");

    // A transcript holding only the line under reply carries no history.
    let single = build_context(&persona, &get_data(), "☑️ hey ✅ sure\n", "hello");
    assert_eq!(single.messages.len(), 2);

    let with = build_context(&persona, &get_data(), "💬 hi\n☑️ hey ✅ sure\n", "hello");
    assert_eq!(with.messages.len(), 3);
    assert_eq!(with.messages[1].role, Role::System);
    assert_eq!(with.messages[1].content, "Message history:\nUser: hi");
    assert_eq!(with.messages[2].content, "hello");
}

#[test]
fn history_preparation_drops_last_line_and_rewrites_tags() {
    assert!(prepare_history("").is_none());
    assert!(prepare_history("☑️ only line\n").is_none());
    assert_eq!(
        prepare_history("💬 a\n☑️ b\n☑️ c ✅ done\n").unwrap(),
        "User: a\nCineMatic: b"
    );
    assert_eq!(
        prepare_history("💬 one\n💬 two\n").unwrap(),
        "User: one"
    );
}
