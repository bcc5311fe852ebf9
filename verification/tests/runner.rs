use toolhooks::json::JsonValue;
use toolhooks::runner::HookDecision;
use toolhooks::runner::HookDecisionKind;
use toolhooks::runner::HookError;
use toolhooks::runner::HookOutcome;
use toolhooks::runner::HookRunner;
use toolhooks::runner::interpret_hook_output;
use toolhooks::runner::parse_hook_decision;

fn pre_tool_use_payload() -> JsonValue {
    JsonValue::Obj(vec![(
        "hook_event_name".to_string(),
        JsonValue::Str("PreToolUse".to_string()),
    )])
}

#[test]
fn hook_runner_parses_decision_payload() {
    let runner = HookRunner::new(2_000);
    let command = vec!["/bin/bash".to_string(), "hook.sh".to_string()];
    let call = runner
        .prepare(&command, &pre_tool_use_payload(), None)
        .expect("the command is not empty");
    assert_eq!(call.command, command);
    assert_eq!(call.input, "{\"hook_event_name\":\"PreToolUse\"}");
    assert_eq!(call.timeout_ms, 2_000);

    // The child reads stdin, then prints its decision envelope.
    let outcome = HookOutcome::Exited {
        exit_success: true,
        stdout: Some("{\"decision\":\"block\",\"reason\":\"policy\"}\n".to_string()),
        stderr: String::new(),
    };
    let result = interpret_hook_output(&outcome).expect("the envelope parses");
    assert_eq!(
        result,
        HookDecision {
            decision: Some(HookDecisionKind::Block),
            reason: Some("policy".to_string()),
        }
    );
}

#[test]
fn hook_runner_rejects_invalid_json() {
    let runner = HookRunner::new(2_000);
    let command = vec!["/bin/bash".to_string(), "hook.sh".to_string()];
    let call = runner
        .prepare(&command, &pre_tool_use_payload(), None)
        .expect("the command is not empty");
    assert_eq!(call.timeout_ms, 2_000);

    let outcome = HookOutcome::Exited {
        exit_success: true,
        stdout: Some("not json\n".to_string()),
        stderr: String::new(),
    };
    let result = interpret_hook_output(&outcome);
    assert!(matches!(result, Err(HookError::InvalidResponse)));
}

#[test]
fn empty_command_is_rejected() {
    let runner = HookRunner::new(1_000);
    let command: Vec<String> = vec![];
    let result = runner.prepare(&command, &pre_tool_use_payload(), None);
    assert!(matches!(result, Err(HookError::EmptyCommand)));
}

#[test]
fn timeout_override_replaces_default() {
    let runner = HookRunner::new(10_000);
    let command = vec!["hook.sh".to_string()];
    let call = runner
        .prepare(&command, &pre_tool_use_payload(), Some(50))
        .expect("the command is not empty");
    assert_eq!(call.timeout_ms, 50);
}

#[test]
fn spawn_failure_is_reported() {
    let outcome = HookOutcome::SpawnFailed("no such file".to_string());
    let result = interpret_hook_output(&outcome);
    match result {
        Err(HookError::Spawn(message)) => assert_eq!(message, "no such file"),
        other => panic!("expected a spawn failure, got {other:?}"),
    }
}

#[test]
fn nonzero_exit_carries_trimmed_stderr() {
    let outcome = HookOutcome::Exited {
        exit_success: false,
        stdout: Some(String::new()),
        stderr: "  something broke\n".to_string(),
    };
    let result = interpret_hook_output(&outcome);
    match result {
        Err(HookError::CommandFailed(stderr)) => assert_eq!(stderr, "something broke"),
        other => panic!("expected a command failure, got {other:?}"),
    }
}

#[test]
fn non_utf8_stdout_is_reported() {
    let outcome = HookOutcome::Exited {
        exit_success: true,
        stdout: None,
        stderr: String::new(),
    };
    let result = interpret_hook_output(&outcome);
    assert!(matches!(result, Err(HookError::InvalidUtf8)));
}

#[test]
fn stdout_is_trimmed_before_parsing() {
    let outcome = HookOutcome::Exited {
        exit_success: true,
        stdout: Some("  \n {\"decision\":\"allow\"} \n\u{a0}".to_string()),
        stderr: String::new(),
    };
    let result = interpret_hook_output(&outcome).expect("the envelope parses");
    assert_eq!(result.decision, Some(HookDecisionKind::Allow));
    assert_eq!(result.reason, None);
}

#[test]
fn unknown_envelope_fields_are_ignored() {
    let decision =
        parse_hook_decision("{\"decision\":\"allow\",\"extra\":{\"nested\":[1,2.5,true]}}")
            .expect("unknown fields are ignored");
    assert_eq!(decision.decision, Some(HookDecisionKind::Allow));
    assert_eq!(decision.reason, None);
}

#[test]
fn duplicate_decision_field_is_rejected() {
    assert!(parse_hook_decision("{\"decision\":\"allow\",\"decision\":\"block\"}").is_none());
}

#[test]
fn wrongly_typed_reason_is_rejected() {
    assert!(parse_hook_decision("{\"reason\":17}").is_none());
}

#[test]
fn null_fields_mean_absent() {
    let decision =
        parse_hook_decision("{\"decision\":null,\"reason\":null}").expect("nulls are absent");
    assert_eq!(decision.decision, None);
    assert_eq!(decision.reason, None);
}

#[test]
fn error_messages_match_the_taxonomy() {
    assert_eq!(HookError::EmptyCommand.message(), "hook command is empty");
    assert_eq!(
        HookError::Spawn("boom".to_string()).message(),
        "failed to spawn hook command: boom"
    );
    assert_eq!(HookError::Timeout.message(), "hook command timed out");
    assert_eq!(
        HookError::CommandFailed("bad".to_string()).message(),
        "hook command failed: bad"
    );
    assert_eq!(
        HookError::InvalidUtf8.message(),
        "hook response was not valid UTF-8"
    );
    assert_eq!(
        HookError::InvalidResponse.message(),
        "failed to parse hook response"
    );
}
