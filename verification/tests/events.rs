use toolhooks::events::HookActivityEvent;
use toolhooks::events::HookActivityHook;
use toolhooks::events::HookActivityStatus;
use toolhooks::events::HookActivityTool;
use toolhooks::events::decode_hook_activity_event;
use toolhooks::events::encode_hook_activity_event;
use toolhooks::json::to_text;
use toolhooks::parse::json_parse;

#[test]
fn hook_activity_event_round_trip() {
    let event = HookActivityEvent {
        status: HookActivityStatus::Blocked,
        reason: Some("blocked by guard".into()),
        tool: None,
        hooks: vec![],
    };

    let json_event = encode_hook_activity_event(&event);
    let decoded = match decode_hook_activity_event(&json_event) {
        Some(decoded_event) => decoded_event,
        None => panic!("expected HookActivity event"),
    };
    assert_eq!(decoded, event);
}

#[test]
fn hook_activity_event_round_trip_with_tool_and_hooks() {
    let event = HookActivityEvent {
        status: HookActivityStatus::Blocked,
        reason: Some("blocked by guard".into()),
        tool: Some(HookActivityTool {
            name: "Edit".into(),
            past_tense: "Edited".into(),
        }),
        hooks: vec![HookActivityHook {
            name: "tdd-guard".into(),
            decision: "block".into(),
        }],
    };

    let json_event = encode_hook_activity_event(&event);
    let decoded = match decode_hook_activity_event(&json_event) {
        Some(decoded_event) => decoded_event,
        None => panic!("expected HookActivity event"),
    };
    assert_eq!(decoded, event);
}

#[test]
fn hook_activity_event_survives_the_wire() {
    let event = HookActivityEvent {
        status: HookActivityStatus::Blocked,
        reason: Some("stop \"now\"\n".into()),
        tool: Some(HookActivityTool {
            name: "Write".into(),
            past_tense: "Wrote".into(),
        }),
        hooks: vec![
            HookActivityHook {
                name: "/opt/hooks/guard.sh".into(),
                decision: "block".into(),
            },
            HookActivityHook {
                name: "audit".into(),
                decision: "allow".into(),
            },
        ],
    };

    let text = to_text(&encode_hook_activity_event(&event));
    let value = json_parse(&text).expect("the encoding is JSON");
    let decoded = decode_hook_activity_event(&value).expect("expected HookActivity event");
    assert_eq!(decoded, event);
}

#[test]
fn hook_activity_event_encoding_matches_its_shape() {
    let event = HookActivityEvent {
        status: HookActivityStatus::Blocked,
        reason: None,
        tool: None,
        hooks: vec![],
    };
    let text = to_text(&encode_hook_activity_event(&event));
    assert_eq!(
        text,
        "{\"status\":\"blocked\",\"reason\":null,\"tool\":null,\"hooks\":[]}"
    );
}
