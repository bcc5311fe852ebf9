use toolhooks::json::JsonValue;
use toolhooks::payload::FileChange;
use toolhooks::payload::HookContext;
use toolhooks::payload::ToolHookPayload;
use toolhooks::payload::build_apply_patch_hook_payloads;
use toolhooks::payload::build_post_tool_payloads;

fn context() -> HookContext {
    HookContext {
        session_id: "session-1".to_string(),
        transcript_path: "/tmp/rollout.jsonl".to_string(),
        hook_event_name: "PreToolUse".to_string(),
    }
}

#[test]
fn apply_patch_add_maps_to_write_payload() {
    let path = "new.txt".to_string();
    let changes = vec![(
        path.clone(),
        FileChange::Add {
            content: "hello".to_string(),
        },
    )];

    let payloads = build_apply_patch_hook_payloads(&context(), &changes);

    assert_eq!(
        payloads,
        vec![ToolHookPayload {
            session_id: "session-1".to_string(),
            transcript_path: "/tmp/rollout.jsonl".to_string(),
            hook_event_name: "PreToolUse".to_string(),
            tool_name: "Write".to_string(),
            tool_input: JsonValue::Obj(vec![
                ("file_path".to_string(), JsonValue::Str(path)),
                ("content".to_string(), JsonValue::Str("hello".to_string())),
            ]),
        }]
    );
}

#[test]
fn apply_patch_update_maps_to_edit_payload() {
    let path = "source.txt".to_string();
    let changes = vec![(
        path.clone(),
        FileChange::Update {
            move_path: None,
            new_content: "new\n".to_string(),
            prior_content: Some("old\n".to_string()),
        },
    )];

    let payloads = build_apply_patch_hook_payloads(&context(), &changes);

    assert_eq!(
        payloads,
        vec![ToolHookPayload {
            session_id: "session-1".to_string(),
            transcript_path: "/tmp/rollout.jsonl".to_string(),
            hook_event_name: "PreToolUse".to_string(),
            tool_name: "Edit".to_string(),
            tool_input: JsonValue::Obj(vec![
                ("file_path".to_string(), JsonValue::Str(path)),
                ("old_string".to_string(), JsonValue::Str("old\n".to_string())),
                ("new_string".to_string(), JsonValue::Str("new\n".to_string())),
            ]),
        }]
    );
}

#[test]
fn apply_patch_fanout_counts_every_non_delete_change() {
    let changes = vec![
        (
            "a.txt".to_string(),
            FileChange::Add {
                content: "a".to_string(),
            },
        ),
        ("gone.txt".to_string(), FileChange::Delete),
        (
            "b.txt".to_string(),
            FileChange::Add {
                content: "b".to_string(),
            },
        ),
    ];
    let payloads = build_apply_patch_hook_payloads(&context(), &changes);
    assert_eq!(payloads.len(), 2);
    assert_eq!(payloads[0].tool_name, "Write");
    assert_eq!(payloads[1].tool_name, "Write");
}

#[test]
fn apply_patch_delete_only_yields_no_payloads() {
    let changes = vec![("gone.txt".to_string(), FileChange::Delete)];
    let payloads = build_apply_patch_hook_payloads(&context(), &changes);
    assert!(payloads.is_empty());
}

#[test]
fn apply_patch_update_unreadable_prior_content_becomes_empty() {
    let changes = vec![(
        "lost.txt".to_string(),
        FileChange::Update {
            move_path: None,
            new_content: "new".to_string(),
            prior_content: None,
        },
    )];
    let payloads = build_apply_patch_hook_payloads(&context(), &changes);
    match &payloads[0].tool_input {
        JsonValue::Obj(members) => {
            assert_eq!(members[1].0, "old_string");
            assert_eq!(members[1].1, JsonValue::Str(String::new()));
        }
        other => panic!("expected an object, got {other:?}"),
    }
}

#[test]
fn apply_patch_update_move_path_wins() {
    let changes = vec![(
        "from.txt".to_string(),
        FileChange::Update {
            move_path: Some("to.txt".to_string()),
            new_content: "new".to_string(),
            prior_content: Some("old".to_string()),
        },
    )];
    let payloads = build_apply_patch_hook_payloads(&context(), &changes);
    match &payloads[0].tool_input {
        JsonValue::Obj(members) => {
            assert_eq!(members[0].0, "file_path");
            assert_eq!(members[0].1, JsonValue::Str("to.txt".to_string()));
        }
        other => panic!("expected an object, got {other:?}"),
    }
}

#[test]
fn post_payloads_mirror_pre_payloads() {
    let changes = vec![
        (
            "a.txt".to_string(),
            FileChange::Add {
                content: "a".to_string(),
            },
        ),
        (
            "b.txt".to_string(),
            FileChange::Update {
                move_path: None,
                new_content: "n".to_string(),
                prior_content: Some("o".to_string()),
            },
        ),
    ];
    let pre = build_apply_patch_hook_payloads(&context(), &changes);
    let post = build_post_tool_payloads(&pre, "PostToolUse");
    assert_eq!(post.len(), pre.len());
    for (before, after) in pre.iter().zip(post.iter()) {
        assert_eq!(after.hook_event_name, "PostToolUse");
        assert_eq!(after.session_id, before.session_id);
        assert_eq!(after.transcript_path, before.transcript_path);
        assert_eq!(after.tool_name, before.tool_name);
        assert_eq!(after.tool_input, before.tool_input);
    }
}

#[test]
fn session_start_payload_carries_the_context() {
    let payload = toolhooks::payload::build_session_start_hook_payload(&context(), "resume");
    assert_eq!(payload.session_id, "session-1");
    assert_eq!(payload.transcript_path, "/tmp/rollout.jsonl");
    assert_eq!(payload.hook_event_name, "PreToolUse");
    assert_eq!(payload.source, "resume");
}

#[test]
fn user_prompt_payload_carries_prompt_and_cwd() {
    let payload = toolhooks::payload::build_user_prompt_submit_hook_payload(
        &context(),
        "do the thing",
        "/work",
    );
    assert_eq!(payload.prompt, "do the thing");
    assert_eq!(payload.cwd, "/work");
    assert_eq!(payload.session_id, "session-1");
}
