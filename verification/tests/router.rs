use toolhooks::config::HookCommandConfig;
use toolhooks::config::HooksConfig;
use toolhooks::json::JsonValue;
use toolhooks::manager::HooksManager;
use toolhooks::manager::NextStep;
use toolhooks::payload::FileChange;
use toolhooks::payload::HookContext;
use toolhooks::router::FunctionCallError;
use toolhooks::router::LocalShellAction;
use toolhooks::router::LocalShellExecAction;
use toolhooks::router::ResponseInputItem;
use toolhooks::router::ResponseItem;
use toolhooks::router::ShellToolCallParams;
use toolhooks::router::ToolPayload;
use toolhooks::router::block_effects;
use toolhooks::router::build_tool_call;
use toolhooks::router::build_tool_hook_payloads;
use toolhooks::router::extract_apply_patch_input;
use toolhooks::router::failure_response;
use toolhooks::router::hook_error_to_tool_failure;
use toolhooks::router::tool_past_tense;
use toolhooks::runner::HookDecision;
use toolhooks::runner::HookDecisionKind;
use toolhooks::runner::HookError;

fn hook_context(event: &str) -> HookContext {
    HookContext {
        session_id: "sess-1".to_string(),
        transcript_path: "/tmp/rollout.jsonl".to_string(),
        hook_event_name: event.to_string(),
    }
}

fn pre_config(matcher: &str, command: &str) -> HooksConfig {
    HooksConfig {
        pre_tool_use: vec![HookCommandConfig {
            matcher: Some(matcher.to_string()),
            command: vec![command.to_string()],
            timeout_ms: None,
        }],
        post_tool_use: vec![],
        session_start: vec![],
        user_prompt_submit: vec![],
    }
}

fn block_decision(reason: &str) -> HookDecision {
    HookDecision {
        decision: Some(HookDecisionKind::Block),
        reason: Some(reason.to_string()),
    }
}

#[test]
fn pre_tool_use_blocks_apply_patch() {
    let manager = HooksManager::new(pre_config("Edit", "hook.sh"));
    // The patch updates file.txt from "original\n" to "updated\n".
    let changes = vec![(
        "file.txt".to_string(),
        FileChange::Update {
            move_path: None,
            new_content: "updated\n".to_string(),
            prior_content: Some("original\n".to_string()),
        },
    )];
    let payloads = build_tool_hook_payloads(
        &hook_context("PreToolUse"),
        "apply_patch",
        &ToolPayload::Custom {
            input: "*** Begin Patch\n*** Update File: file.txt\n@@\n-original\n+updated\n*** End Patch".to_string(),
        },
        Some(&changes),
    )
    .expect("an update yields a payload");

    let mut run = manager.run_pre_tool_use(&payloads);
    assert!(matches!(run.next(), NextStep::Run(_)));
    let outcome = run
        .report(Ok(block_decision("blocked by hook")))
        .expect("a block ends the run");
    let blocked = outcome.expect("not an error").expect("a decision");

    let effects = block_effects(
        &blocked,
        &payloads,
        "apply_patch",
        "blocked-apply-patch".to_string(),
        false,
    );
    match &effects.response {
        ResponseInputItem::FunctionCallOutput {
            call_id,
            content,
            success,
        } => {
            assert_eq!(call_id, "blocked-apply-patch");
            assert!(content.contains("blocked by hook"));
            assert_eq!(*success, Some(false));
        }
        other => panic!("expected a function call output, got {other:?}"),
    }
    // The run is over: the tool is not dispatched and no later hook runs.
    assert!(run.finished);
}

#[test]
fn pre_tool_use_blocks_shell_command() {
    let manager = HooksManager::new(pre_config("shell_command", "hook.sh"));
    let args = "{\"command\":\"echo blocked\",\"timeout_ms\":1000}";
    let payloads = build_tool_hook_payloads(
        &hook_context("PreToolUse"),
        "shell_command",
        &ToolPayload::Function {
            arguments: args.to_string(),
        },
        None,
    )
    .expect("a function call yields one payload");
    assert_eq!(payloads.len(), 1);
    // The string arguments parse as JSON, so the hook sees them structured.
    match &payloads[0].tool_input {
        JsonValue::Obj(members) => {
            assert_eq!(members[0].0, "command");
            assert_eq!(members[0].1, JsonValue::Str("echo blocked".to_string()));
            assert_eq!(members[1].0, "timeout_ms");
            assert_eq!(members[1].1, JsonValue::Num("1000".to_string()));
        }
        other => panic!("expected an object, got {other:?}"),
    }

    let mut run = manager.run_pre_tool_use(&payloads);
    assert!(matches!(run.next(), NextStep::Run(_)));
    let outcome = run
        .report(Ok(block_decision("blocked by hook")))
        .expect("a block ends the run");
    let blocked = outcome.expect("not an error").expect("a decision");
    let effects = block_effects(
        &blocked,
        &payloads,
        "shell_command",
        "blocked-shell-command".to_string(),
        false,
    );
    match &effects.response {
        ResponseInputItem::FunctionCallOutput { content, .. } => {
            assert!(content.contains("blocked by hook"));
        }
        other => panic!("expected a function call output, got {other:?}"),
    }
}

#[test]
fn pre_tool_use_block_injects_user_prompt() {
    let manager = HooksManager::new(pre_config("shell_command", "hook.sh"));
    let reason = "tdd-guard: write the failing test first";
    let payloads = build_tool_hook_payloads(
        &hook_context("PreToolUse"),
        "shell_command",
        &ToolPayload::Function {
            arguments: "{\"command\":\"echo blocked\",\"timeout_ms\":1000}".to_string(),
        },
        None,
    )
    .expect("a function call yields one payload");

    let mut run = manager.run_pre_tool_use(&payloads);
    assert!(matches!(run.next(), NextStep::Run(_)));
    let outcome = run
        .report(Ok(block_decision(reason)))
        .expect("a block ends the run");
    let blocked = outcome.expect("not an error").expect("a decision");
    let effects = block_effects(
        &blocked,
        &payloads,
        "shell_command",
        "blocked-shell-command-prompt".to_string(),
        false,
    );
    match &effects.response {
        ResponseInputItem::FunctionCallOutput { content, .. } => {
            assert!(content.contains("blocked by hook"));
        }
        other => panic!("expected a function call output, got {other:?}"),
    }
    // The hook reason is injected as the next user turn, verbatim.
    assert_eq!(effects.injected_text, reason);
}

#[test]
fn pre_tool_use_emits_hook_activity_event() {
    let manager = HooksManager::new(pre_config("Edit", "/opt/hooks/hook.sh"));
    let reason = "tdd-guard: write the failing test first";
    let changes = vec![(
        "file.txt".to_string(),
        FileChange::Update {
            move_path: None,
            new_content: "updated\n".to_string(),
            prior_content: Some("original\n".to_string()),
        },
    )];
    let payloads = build_tool_hook_payloads(
        &hook_context("PreToolUse"),
        "apply_patch",
        &ToolPayload::Custom {
            input: "patch body".to_string(),
        },
        Some(&changes),
    )
    .expect("an update yields a payload");

    let mut run = manager.run_pre_tool_use(&payloads);
    assert!(matches!(run.next(), NextStep::Run(_)));
    let outcome = run
        .report(Ok(block_decision(reason)))
        .expect("a block ends the run");
    let blocked = outcome.expect("not an error").expect("a decision");
    let effects = block_effects(
        &blocked,
        &payloads,
        "apply_patch",
        "blocked-apply-patch-hook-activity".to_string(),
        false,
    );

    let event = effects.activity;
    assert_eq!(event.status, toolhooks::events::HookActivityStatus::Blocked);
    assert_eq!(event.reason.as_deref(), Some(reason));
    assert_eq!(
        event.tool,
        Some(toolhooks::events::HookActivityTool {
            name: "Edit".into(),
            past_tense: "Edited".into(),
        })
    );
    assert_eq!(
        event.hooks,
        vec![toolhooks::events::HookActivityHook {
            name: "/opt/hooks/hook.sh".into(),
            decision: "block".into(),
        }]
    );
    let expected_warning = format!("blocked by hook: {reason}");
    assert_eq!(effects.warning.message, expected_warning);
}

#[test]
fn block_without_reason_uses_the_fixed_text() {
    let manager = HooksManager::new(pre_config("Write", "hook.sh"));
    let payloads = build_tool_hook_payloads(
        &hook_context("PreToolUse"),
        "Write",
        &ToolPayload::Custom {
            input: "body".to_string(),
        },
        None,
    )
    .expect("one payload");
    let mut run = manager.run_pre_tool_use(&payloads);
    assert!(matches!(run.next(), NextStep::Run(_)));
    let decision = HookDecision {
        decision: Some(HookDecisionKind::Block),
        reason: None,
    };
    let blocked = run
        .report(Ok(decision))
        .expect("a block ends the run")
        .expect("not an error")
        .expect("a decision");
    let effects = block_effects(&blocked, &payloads, "Write", "call-9".to_string(), true);
    assert_eq!(effects.injected_text, "blocked by hook");
    assert_eq!(effects.warning.message, "blocked by hook: blocked by hook");
    match &effects.response {
        ResponseInputItem::CustomToolCallOutput { call_id, output } => {
            assert_eq!(call_id, "call-9");
            assert_eq!(output, "blocked by hook: blocked by hook");
        }
        other => panic!("expected a custom tool call output, got {other:?}"),
    }
}

#[test]
fn hook_errors_become_tool_failures() {
    let err = hook_error_to_tool_failure(&HookError::Timeout);
    match err {
        FunctionCallError::RespondToModel(message) => {
            assert_eq!(message, "hook error: hook command timed out");
        }
        other => panic!("expected a respond-to-model failure, got {other:?}"),
    }
}

#[test]
fn failure_response_matches_the_output_shape() {
    let err = FunctionCallError::RespondToModel("nope".to_string());
    let function = failure_response("id-1".to_string(), false, &err);
    assert_eq!(
        function,
        ResponseInputItem::FunctionCallOutput {
            call_id: "id-1".to_string(),
            content: "nope".to_string(),
            success: Some(false),
        }
    );
    let custom = failure_response("id-2".to_string(), true, &err);
    assert_eq!(
        custom,
        ResponseInputItem::CustomToolCallOutput {
            call_id: "id-2".to_string(),
            output: "nope".to_string(),
        }
    );
}

#[test]
fn tool_past_tense_follows_the_table() {
    assert_eq!(tool_past_tense("Edit"), "Edited");
    assert_eq!(tool_past_tense("MultiEdit"), "Edited");
    assert_eq!(tool_past_tense("Write"), "Wrote");
    assert_eq!(tool_past_tense("TodoWrite"), "Updated");
    assert_eq!(tool_past_tense("Read"), "Read");
    assert_eq!(tool_past_tense("List"), "Listed");
    assert_eq!(tool_past_tense("Shell"), "Ran");
    assert_eq!(tool_past_tense("anything else"), "Ran");
}

#[test]
fn build_tool_call_routes_each_shape() {
    // A plain function call.
    let call = build_tool_call(
        ResponseItem::FunctionCall {
            name: "shell_command".to_string(),
            arguments: "{}".to_string(),
            call_id: "c1".to_string(),
        },
        None,
    )
    .expect("no failure")
    .expect("a tool call");
    assert_eq!(call.tool_name, "shell_command");
    assert_eq!(
        call.payload,
        ToolPayload::Function {
            arguments: "{}".to_string()
        }
    );

    // The same function call resolved to an MCP server.
    let call = build_tool_call(
        ResponseItem::FunctionCall {
            name: "srv__tool".to_string(),
            arguments: "{\"a\":1}".to_string(),
            call_id: "c2".to_string(),
        },
        Some(("srv".to_string(), "tool".to_string())),
    )
    .expect("no failure")
    .expect("a tool call");
    assert_eq!(
        call.payload,
        ToolPayload::Mcp {
            server: "srv".to_string(),
            tool: "tool".to_string(),
            raw_arguments: "{\"a\":1}".to_string(),
        }
    );

    // A custom tool call.
    let call = build_tool_call(
        ResponseItem::CustomToolCall {
            name: "apply_patch".to_string(),
            input: "body".to_string(),
            call_id: "c3".to_string(),
        },
        None,
    )
    .expect("no failure")
    .expect("a tool call");
    assert_eq!(call.call_id, "c3");
    assert_eq!(
        call.payload,
        ToolPayload::Custom {
            input: "body".to_string()
        }
    );

    // A local shell call falls back to the item id for its call id.
    let call = build_tool_call(
        ResponseItem::LocalShellCall {
            id: Some("item-4".to_string()),
            call_id: None,
            action: LocalShellAction::Exec(LocalShellExecAction {
                command: vec!["echo".to_string(), "hi".to_string()],
                working_directory: Some("/w".to_string()),
                timeout_ms: Some(500),
            }),
        },
        None,
    )
    .expect("no failure")
    .expect("a tool call");
    assert_eq!(call.tool_name, "local_shell");
    assert_eq!(call.call_id, "item-4");
    assert_eq!(
        call.payload,
        ToolPayload::LocalShell {
            params: ShellToolCallParams {
                command: vec!["echo".to_string(), "hi".to_string()],
                workdir: Some("/w".to_string()),
                timeout_ms: Some(500),
                sandbox_permissions: Some("use_default".to_string()),
                justification: None,
            }
        }
    );

    // A local shell call without any id fails.
    let err = build_tool_call(
        ResponseItem::LocalShellCall {
            id: None,
            call_id: None,
            action: LocalShellAction::Exec(LocalShellExecAction {
                command: vec![],
                working_directory: None,
                timeout_ms: None,
            }),
        },
        None,
    );
    assert_eq!(err, Err(FunctionCallError::MissingLocalShellCallId));

    // Anything else is no tool call.
    assert_eq!(build_tool_call(ResponseItem::Other, None), Ok(None));
}

#[test]
fn unparseable_function_arguments_are_wrapped_as_text() {
    let payloads = build_tool_hook_payloads(
        &hook_context("PreToolUse"),
        "shell_command",
        &ToolPayload::Function {
            arguments: "not json".to_string(),
        },
        None,
    )
    .expect("one payload");
    assert_eq!(
        payloads[0].tool_input,
        JsonValue::Str("not json".to_string())
    );
}

#[test]
fn local_shell_payload_mirrors_the_parameters() {
    let payloads = build_tool_hook_payloads(
        &hook_context("PreToolUse"),
        "local_shell",
        &ToolPayload::LocalShell {
            params: ShellToolCallParams {
                command: vec!["echo".to_string(), "hi".to_string()],
                workdir: None,
                timeout_ms: Some(1000),
                sandbox_permissions: Some("use_default".to_string()),
                justification: None,
            },
        },
        None,
    )
    .expect("one payload");
    let text = toolhooks::json::to_text(&payloads[0].tool_input);
    let value: serde_json::Value = serde_json::from_str(&text).expect("the input is JSON");
    assert_eq!(value["command"][0], "echo");
    assert_eq!(value["command"][1], "hi");
    assert_eq!(value["workdir"], serde_json::Value::Null);
    assert_eq!(value["timeout_ms"], 1000);
    assert_eq!(value["sandbox_permissions"], "use_default");
    assert_eq!(value["justification"], serde_json::Value::Null);
}

#[test]
fn apply_patch_without_changes_builds_no_payloads() {
    let r = build_tool_hook_payloads(
        &hook_context("PreToolUse"),
        "apply_patch",
        &ToolPayload::Custom {
            input: "body".to_string(),
        },
        None,
    );
    assert!(r.is_none());
    let deletes = vec![("gone.txt".to_string(), FileChange::Delete)];
    let r = build_tool_hook_payloads(
        &hook_context("PreToolUse"),
        "apply_patch",
        &ToolPayload::Custom {
            input: "body".to_string(),
        },
        Some(&deletes),
    );
    assert!(r.is_none());
}

#[test]
fn extract_apply_patch_input_reads_both_shapes() {
    let from_function = extract_apply_patch_input(&ToolPayload::Function {
        arguments: "{\"input\":\"*** Begin Patch\\n*** End Patch\"}".to_string(),
    });
    assert_eq!(
        from_function.as_deref(),
        Some("*** Begin Patch\n*** End Patch")
    );

    let from_custom = extract_apply_patch_input(&ToolPayload::Custom {
        input: "raw patch".to_string(),
    });
    assert_eq!(from_custom.as_deref(), Some("raw patch"));

    let not_an_object = extract_apply_patch_input(&ToolPayload::Function {
        arguments: "[1,2]".to_string(),
    });
    assert!(not_an_object.is_none());

    let missing_field = extract_apply_patch_input(&ToolPayload::Function {
        arguments: "{\"other\":true}".to_string(),
    });
    assert!(missing_field.is_none());
}

#[test]
fn router_specs_and_parallel_support() {
    let router = toolhooks::router::ToolRouter::new(vec![
        toolhooks::router::ConfiguredToolSpec {
            spec: toolhooks::router::ToolSpec {
                name: "shell_command".to_string(),
            },
            supports_parallel_tool_calls: false,
        },
        toolhooks::router::ConfiguredToolSpec {
            spec: toolhooks::router::ToolSpec {
                name: "read_file".to_string(),
            },
            supports_parallel_tool_calls: true,
        },
    ]);
    let names: Vec<String> = router.specs().into_iter().map(|s| s.name).collect();
    assert_eq!(
        names,
        vec!["shell_command".to_string(), "read_file".to_string()]
    );
    assert!(router.tool_supports_parallel("read_file"));
    assert!(!router.tool_supports_parallel("shell_command"));
    assert!(!router.tool_supports_parallel("unknown"));
}
