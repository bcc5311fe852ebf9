use toolhooks::DEFAULT_HOOK_TIMEOUT_MS;
use toolhooks::config::HookCommandConfig;
use toolhooks::config::HooksConfig;
use toolhooks::json::JsonValue;
use toolhooks::manager::HooksManager;
use toolhooks::manager::NextStep;
use toolhooks::payload::ToolHookPayload;
use toolhooks::runner::HookDecision;
use toolhooks::runner::HookDecisionKind;
use toolhooks::runner::HookError;
use toolhooks::runner::HookOutcome;
use toolhooks::runner::interpret_hook_output;

fn empty_config() -> HooksConfig {
    HooksConfig {
        pre_tool_use: vec![],
        post_tool_use: vec![],
        session_start: vec![],
        user_prompt_submit: vec![],
    }
}

fn write_payload() -> ToolHookPayload {
    ToolHookPayload {
        session_id: "sess-1".to_string(),
        transcript_path: "/tmp/rollout.jsonl".to_string(),
        hook_event_name: "PreToolUse".to_string(),
        tool_name: "Write".to_string(),
        tool_input: JsonValue::Obj(vec![
            (
                "file_path".to_string(),
                JsonValue::Str("/tmp/file.txt".to_string()),
            ),
            ("content".to_string(), JsonValue::Str("data".to_string())),
        ]),
    }
}

#[test]
fn default_hook_timeout_is_10s() {
    assert_eq!(DEFAULT_HOOK_TIMEOUT_MS, 10 * 1000);
}

#[test]
fn pre_tool_use_honors_timeout_override() {
    let mut config = empty_config();
    config.pre_tool_use = vec![HookCommandConfig {
        matcher: Some("Write".to_string()),
        command: vec!["hook.sh".to_string()],
        timeout_ms: Some(50),
    }];
    let manager = HooksManager::new(config);
    let payloads = vec![write_payload()];

    let mut run = manager.run_pre_tool_use(&payloads);
    let call = match run.next() {
        NextStep::Run(call) => call,
        NextStep::Done(_) => panic!("expected a call"),
    };
    assert_eq!(call.timeout_ms, 50);

    // The child sleeps past its budget; the driver reports the timeout.
    let result = interpret_hook_output(&HookOutcome::TimedOut);
    let outcome = run.report(result).expect("run ends on the first failure");
    assert!(matches!(outcome, Err(HookError::Timeout)));
}

#[test]
fn pre_tool_use_empty_config_is_noop() {
    let manager = HooksManager::new(empty_config());
    let payloads = vec![write_payload()];
    let mut run = manager.run_pre_tool_use(&payloads);
    match run.next() {
        NextStep::Done(outcome) => assert_eq!(outcome, Ok(None)),
        NextStep::Run(_) => panic!("no hook is configured, nothing may run"),
    }
}

#[test]
fn pre_tool_use_empty_payloads_is_noop() {
    let mut config = empty_config();
    config.pre_tool_use = vec![HookCommandConfig {
        matcher: None,
        command: vec!["hook.sh".to_string()],
        timeout_ms: None,
    }];
    let manager = HooksManager::new(config);
    let payloads: Vec<ToolHookPayload> = vec![];
    let mut run = manager.run_pre_tool_use(&payloads);
    match run.next() {
        NextStep::Done(outcome) => assert_eq!(outcome, Ok(None)),
        NextStep::Run(_) => panic!("no payload, nothing may run"),
    }
}

#[test]
fn matcher_absent_always_fires() {
    let mut config = empty_config();
    config.pre_tool_use = vec![HookCommandConfig {
        matcher: None,
        command: vec!["hook.sh".to_string()],
        timeout_ms: None,
    }];
    let manager = HooksManager::new(config);
    let payloads = vec![write_payload()];
    let mut run = manager.run_pre_tool_use(&payloads);
    assert!(matches!(run.next(), NextStep::Run(_)));
}

#[test]
fn matcher_invalid_never_fires_and_does_not_abort() {
    let mut config = empty_config();
    config.pre_tool_use = vec![
        HookCommandConfig {
            matcher: Some("(".to_string()),
            command: vec!["broken.sh".to_string()],
            timeout_ms: None,
        },
        HookCommandConfig {
            matcher: Some("Write".to_string()),
            command: vec!["good.sh".to_string()],
            timeout_ms: None,
        },
    ];
    let manager = HooksManager::new(config);
    let payloads = vec![write_payload()];
    let mut run = manager.run_pre_tool_use(&payloads);
    match run.next() {
        NextStep::Run(call) => assert_eq!(call.command, vec!["good.sh".to_string()]),
        NextStep::Done(_) => panic!("the second hook matches and must run"),
    }
}

#[test]
fn first_block_wins_across_payloads_and_hooks() {
    let mut config = empty_config();
    config.pre_tool_use = vec![
        HookCommandConfig {
            matcher: Some("Edit".to_string()),
            command: vec!["edit-guard.sh".to_string()],
            timeout_ms: None,
        },
        HookCommandConfig {
            matcher: None,
            command: vec!["always.sh".to_string()],
            timeout_ms: None,
        },
    ];
    let manager = HooksManager::new(config);
    let mut second = write_payload();
    second.tool_name = "Edit".to_string();
    let payloads = vec![write_payload(), second];
    let mut run = manager.run_pre_tool_use(&payloads);

    // Pair (payload 0, hook 0) does not match; (0, 1) matches and allows.
    let call = match run.next() {
        NextStep::Run(call) => call,
        NextStep::Done(_) => panic!("expected the universal hook"),
    };
    assert_eq!(call.command, vec!["always.sh".to_string()]);
    let allow = HookDecision {
        decision: Some(HookDecisionKind::Allow),
        reason: None,
    };
    assert!(run.report(Ok(allow)).is_none());

    // Pair (1, 0) is the earliest remaining match; its block ends the run
    // and no later pair is consulted.
    let call = match run.next() {
        NextStep::Run(call) => call,
        NextStep::Done(_) => panic!("expected the edit guard"),
    };
    assert_eq!(call.command, vec!["edit-guard.sh".to_string()]);
    let block = HookDecision {
        decision: Some(HookDecisionKind::Block),
        reason: Some("no edits".to_string()),
    };
    let outcome = run.report(Ok(block)).expect("a block ends the run");
    let ctx = outcome.expect("a block is not an error").expect("a decision");
    assert_eq!(ctx.hook.command, vec!["edit-guard.sh".to_string()]);
    assert_eq!(ctx.decision.reason.as_deref(), Some("no edits"));
    assert!(run.finished);
}

#[test]
fn post_tool_use_swallows_failures_and_visits_every_pair() {
    let mut config = empty_config();
    config.post_tool_use = vec![
        HookCommandConfig {
            matcher: None,
            command: vec!["first.sh".to_string()],
            timeout_ms: None,
        },
        HookCommandConfig {
            matcher: None,
            command: vec!["second.sh".to_string()],
            timeout_ms: None,
        },
    ];
    let manager = HooksManager::new(config);
    let payloads = vec![write_payload()];
    let mut run = manager.run_post_tool_use(&payloads);

    let call = match run.next() {
        NextStep::Run(call) => call,
        NextStep::Done(_) => panic!("expected the first hook"),
    };
    assert_eq!(call.command, vec!["first.sh".to_string()]);
    // The first hook fails; the post event swallows that and goes on.
    assert!(run.report(Err(HookError::Timeout)).is_none());

    let call = match run.next() {
        NextStep::Run(call) => call,
        NextStep::Done(_) => panic!("expected the second hook"),
    };
    assert_eq!(call.command, vec!["second.sh".to_string()]);
    let block = HookDecision {
        decision: Some(HookDecisionKind::Block),
        reason: None,
    };
    // Post decisions are ignored, even a block.
    assert!(run.report(Ok(block)).is_none());
    match run.next() {
        NextStep::Done(outcome) => assert_eq!(outcome, Ok(None)),
        NextStep::Run(_) => panic!("no pair is left"),
    }
}

#[test]
fn post_tool_use_invokes_hook() {
    let mut config = empty_config();
    config.post_tool_use = vec![HookCommandConfig {
        matcher: Some("Edit".to_string()),
        command: vec!["hook.sh".to_string()],
        timeout_ms: None,
    }];
    let manager = HooksManager::new(config);

    // The patch updated file.txt; the pre payloads are replayed for the
    // post event with the event name replaced.
    let context = toolhooks::payload::HookContext {
        session_id: "sess-2".to_string(),
        transcript_path: "/tmp/rollout.jsonl".to_string(),
        hook_event_name: "PreToolUse".to_string(),
    };
    let changes = vec![(
        "file.txt".to_string(),
        toolhooks::payload::FileChange::Update {
            move_path: None,
            new_content: "updated\n".to_string(),
            prior_content: Some("original\n".to_string()),
        },
    )];
    let pre = toolhooks::payload::build_apply_patch_hook_payloads(&context, &changes);
    let post = toolhooks::payload::build_post_tool_payloads(&pre, "PostToolUse");

    let mut run = manager.run_post_tool_use(&post);
    let call = match run.next() {
        NextStep::Run(call) => call,
        NextStep::Done(_) => panic!("the matcher accepts Edit and must run"),
    };
    let payload: serde_json::Value = serde_json::from_str(&call.input).expect("payload is JSON");
    assert_eq!(payload["hook_event_name"], "PostToolUse");
    assert_eq!(payload["tool_name"], "Edit");
}

#[test]
fn empty_command_fails_pre_run() {
    let mut config = empty_config();
    config.pre_tool_use = vec![HookCommandConfig {
        matcher: None,
        command: vec![],
        timeout_ms: None,
    }];
    let manager = HooksManager::new(config);
    let payloads = vec![write_payload()];
    let mut run = manager.run_pre_tool_use(&payloads);
    match run.next() {
        NextStep::Done(outcome) => assert_eq!(outcome, Err(HookError::EmptyCommand)),
        NextStep::Run(_) => panic!("an empty command cannot run"),
    }
}

#[test]
fn session_start_invokes_hook() {
    let mut config = empty_config();
    config.session_start = vec![HookCommandConfig {
        matcher: None,
        command: vec!["hook.sh".to_string()],
        timeout_ms: None,
    }];
    let manager = HooksManager::new(config);
    let context = toolhooks::payload::HookContext {
        session_id: "sess-7".to_string(),
        transcript_path: "/tmp/rollout.jsonl".to_string(),
        hook_event_name: "SessionStart".to_string(),
    };
    let payload = toolhooks::payload::build_session_start_hook_payload(&context, "startup");
    let mut run = manager.run_session_start(&payload);
    let call = match run.next() {
        NextStep::Run(call) => call,
        NextStep::Done(_) => panic!("the hook has no matcher and must run"),
    };
    let value: serde_json::Value = serde_json::from_str(&call.input).expect("payload is JSON");
    assert_eq!(value["hook_event_name"], "SessionStart");
    assert_eq!(value["source"], "startup");
    assert!(value["session_id"].as_str().is_some());
    assert!(value["transcript_path"].as_str().is_some());
}

#[test]
fn user_prompt_submit_invokes_hook() {
    let mut config = empty_config();
    config.user_prompt_submit = vec![HookCommandConfig {
        matcher: None,
        command: vec!["hook.sh".to_string()],
        timeout_ms: None,
    }];
    let manager = HooksManager::new(config);
    let context = toolhooks::payload::HookContext {
        session_id: "sess-8".to_string(),
        transcript_path: "/tmp/rollout.jsonl".to_string(),
        hook_event_name: "UserPromptSubmit".to_string(),
    };
    let prompt = "hello hooks";
    let payload =
        toolhooks::payload::build_user_prompt_submit_hook_payload(&context, prompt, "/work/dir");
    let mut run = manager.run_user_prompt_submit(&payload);
    let call = match run.next() {
        NextStep::Run(call) => call,
        NextStep::Done(_) => panic!("the hook has no matcher and must run"),
    };
    let value: serde_json::Value = serde_json::from_str(&call.input).expect("payload is JSON");
    assert_eq!(value["hook_event_name"], "UserPromptSubmit");
    assert_eq!(value["prompt"], prompt);
    assert_eq!(value["cwd"], "/work/dir");
    assert!(value["session_id"].as_str().is_some());
    assert!(value["transcript_path"].as_str().is_some());
}
