//! The events the hook subsystem emits when a hook blocks a tool call,
//! and their JSON form.
//!
//! A hook-activity event reports what the hooks decided; a warning event
//! carries the operator-visible banner. The JSON encoding is written here
//! as data of the library's own, with a decoder proved to undo it, so an
//! event survives the trip onto the wire and back without loss.

use vstd::prelude::*;
use crate::json::JsonVal;
use crate::json::JsonValue;
use crate::json::jval_pairs;
use crate::json::jval_seq;

verus! {

broadcast use vstd::seq::group_seq_axioms, vstd::std_specs::vec::group_vec_axioms;

/// What the hooks did to the tool call.
#[derive(Debug, Clone, Copy, PartialEq, Eq, Structural)]
pub enum HookActivityStatus {
    Blocked,
}

/// The tool a hook acted on, with the past tense the banner uses.
#[derive(Debug, Clone, PartialEq)]
pub struct HookActivityTool {
    pub name: String,
    pub past_tense: String,
}

/// One contributing hook and the decision it returned.
#[derive(Debug, Clone, PartialEq)]
pub struct HookActivityHook {
    pub name: String,
    pub decision: String,
}

/// The event emitted when hooks act on a tool call.
#[derive(Debug, Clone, PartialEq)]
pub struct HookActivityEvent {
    pub status: HookActivityStatus,
    pub reason: Option<String>,
    pub tool: Option<HookActivityTool>,
    pub hooks: Vec<HookActivityHook>,
}

/// An operator-visible warning banner.
#[derive(Debug, Clone, PartialEq)]
pub struct WarningEvent {
    pub message: String,
}

/// The abstraction of a tool reference.
#[verifier::ext_equal]
pub struct HookActivityToolView {
    pub name: Seq<char>,
    pub past_tense: Seq<char>,
}

impl View for HookActivityTool {
    type V = HookActivityToolView;

    open spec fn view(&self) -> HookActivityToolView {
        HookActivityToolView { name: self.name@, past_tense: self.past_tense@ }
    }
}

/// The abstraction of one contributing hook.
#[verifier::ext_equal]
pub struct HookActivityHookView {
    pub name: Seq<char>,
    pub decision: Seq<char>,
}

impl View for HookActivityHook {
    type V = HookActivityHookView;

    open spec fn view(&self) -> HookActivityHookView {
        HookActivityHookView { name: self.name@, decision: self.decision@ }
    }
}

/// The abstraction of a hook-activity event.
#[verifier::ext_equal]
pub struct HookActivityEventView {
    pub status: HookActivityStatus,
    pub reason: Option<Seq<char>>,
    pub tool: Option<HookActivityToolView>,
    pub hooks: Seq<HookActivityHookView>,
}

impl View for HookActivityEvent {
    type V = HookActivityEventView;

    open spec fn view(&self) -> HookActivityEventView {
        HookActivityEventView {
            status: self.status,
            reason: match self.reason {
                None => None,
                Some(s) => Some(s@),
            },
            tool: match self.tool {
                None => None,
                Some(t) => Some(t@),
            },
            hooks: Seq::new(self.hooks@.len(), |i: int| self.hooks@[i]@),
        }
    }
}

/// The JSON of an optional reason: null, or the text.
pub open spec fn reason_json(r: Option<Seq<char>>) -> JsonVal {
    match r {
        None => JsonVal::Null,
        Some(s) => JsonVal::Str(s),
    }
}

/// The JSON of an optional tool reference.
pub open spec fn tool_json(t: Option<HookActivityToolView>) -> JsonVal {
    match t {
        None => JsonVal::Null,
        Some(tv) => JsonVal::Obj(
            seq![
                ("name"@, JsonVal::Str(tv.name)),
                ("past_tense"@, JsonVal::Str(tv.past_tense)),
            ],
        ),
    }
}

/// The JSON of one contributing hook.
pub open spec fn hook_json(h: HookActivityHookView) -> JsonVal {
    JsonVal::Obj(seq![("name"@, JsonVal::Str(h.name)), ("decision"@, JsonVal::Str(h.decision))])
}

/// The JSON of the contributing hooks, in order.
pub open spec fn hooks_json(s: Seq<HookActivityHookView>) -> Seq<JsonVal>
    decreases s.len(),
{
    if s.len() <= 0 {
        Seq::empty()
    } else {
        hooks_json(s.drop_last()).push(hook_json(s.last()))
    }
}

/// The JSON a hook-activity event is written as: its four fields, in
/// order; the status is its label.
pub open spec fn activity_event_json(e: HookActivityEventView) -> JsonVal {
    JsonVal::Obj(
        seq![
            ("status"@, JsonVal::Str("blocked"@)),
            ("reason"@, reason_json(e.reason)),
            ("tool"@, tool_json(e.tool)),
            ("hooks"@, JsonVal::Arr(hooks_json(e.hooks))),
        ],
    )
}

/// What a JSON value means as the `reason` field.
pub open spec fn decode_reason(v: JsonVal) -> Option<Option<Seq<char>>> {
    match v {
        JsonVal::Null => Some(None),
        JsonVal::Str(s) => Some(Some(s)),
        _ => None,
    }
}

/// What a JSON value means as the `tool` field.
pub open spec fn decode_tool(v: JsonVal) -> Option<Option<HookActivityToolView>> {
    match v {
        JsonVal::Null => Some(None),
        JsonVal::Obj(m) => if m.len() == 2 && m[0].0 == "name"@ && m[0].1 is Str && m[1].0
            == "past_tense"@ && m[1].1 is Str {
            Some(Some(HookActivityToolView { name: m[0].1->Str_0, past_tense: m[1].1->Str_0 }))
        } else {
            None
        },
        _ => None,
    }
}

/// What a JSON value means as one contributing hook.
pub open spec fn decode_hook(v: JsonVal) -> Option<HookActivityHookView> {
    match v {
        JsonVal::Obj(m) => if m.len() == 2 && m[0].0 == "name"@ && m[0].1 is Str && m[1].0
            == "decision"@ && m[1].1 is Str {
            Some(HookActivityHookView { name: m[0].1->Str_0, decision: m[1].1->Str_0 })
        } else {
            None
        },
        _ => None,
    }
}

/// What a JSON array means as the list of contributing hooks.
pub open spec fn decode_hooks(s: Seq<JsonVal>) -> Option<Seq<HookActivityHookView>>
    decreases s.len(),
{
    if s.len() <= 0 {
        Some(Seq::empty())
    } else {
        match decode_hooks(s.drop_last()) {
            None => None,
            Some(rest) => match decode_hook(s.last()) {
                None => None,
                Some(h) => Some(rest.push(h)),
            },
        }
    }
}

/// What a JSON value means as a whole hook-activity event: exactly the
/// shape `activity_event_json` writes.
pub open spec fn decode_activity_event(v: JsonVal) -> Option<HookActivityEventView> {
    match v {
        JsonVal::Obj(m) => if m.len() == 4 && m[0] == ("status"@, JsonVal::Str("blocked"@))
            && m[1].0 == "reason"@ && m[2].0 == "tool"@ && m[3].0 == "hooks"@ && m[3].1 is Arr {
            match decode_reason(m[1].1) {
                None => None,
                Some(reason) => match decode_tool(m[2].1) {
                    None => None,
                    Some(tool) => match decode_hooks(m[3].1->Arr_0) {
                        None => None,
                        Some(hooks) => Some(
                            HookActivityEventView {
                                status: HookActivityStatus::Blocked,
                                reason,
                                tool,
                                hooks,
                            },
                        ),
                    },
                },
            }
        } else {
            None
        },
        _ => None,
    }
}

/// Decoding undoes encoding: a hook-activity event written as JSON and
/// read back is the same event, field for field.
pub proof fn lemma_activity_event_round_trip(e: HookActivityEventView)
    ensures
        decode_activity_event(activity_event_json(e)) == Some(e),
{
    lemma_decode_hooks_json(e.hooks);
    let m = activity_event_json(e)->Obj_0;
    assert(m.len() == 4);
    assert(m[0] == ("status"@, JsonVal::Str("blocked"@)));
    assert(decode_reason(reason_json(e.reason)) == Some(e.reason));
    assert(decode_tool(tool_json(e.tool)) == Some(e.tool)) by {
        match e.tool {
            None => {},
            Some(tv) => {
                let tm = tool_json(e.tool)->Obj_0;
                assert(tm[0] == ("name"@, JsonVal::Str(tv.name)));
                assert(tm[1] == ("past_tense"@, JsonVal::Str(tv.past_tense)));
                assert(decode_tool(tool_json(e.tool)) matches Some(o) && o matches Some(tv2)
                    && tv2 =~= tv);
            },
        }
    }
    assert(decode_activity_event(activity_event_json(e)) matches Some(e2) && e2 =~~= e);
}

/// Reading back the hooks list undoes writing it.
proof fn lemma_decode_hooks_json(s: Seq<HookActivityHookView>)
    ensures
        decode_hooks(hooks_json(s)) == Some(s),
    decreases s.len(),
{
    if s.len() <= 0 {
        assert(decode_hooks(hooks_json(s)) =~~= Some(s));
    } else {
        lemma_decode_hooks_json(s.drop_last());
        let js = hooks_json(s);
        assert(js.drop_last() =~= hooks_json(s.drop_last()));
        assert(js.last() == hook_json(s.last()));
        let h = s.last();
        let hm = hook_json(h)->Obj_0;
        assert(hm[0] == ("name"@, JsonVal::Str(h.name)));
        assert(hm[1] == ("decision"@, JsonVal::Str(h.decision)));
        assert(decode_hook(hook_json(h)) matches Some(h2) && h2 =~= h);
        assert(decode_hooks(hooks_json(s)) =~~= Some(s));
    }
}

/// One failing entry fails the whole list.
proof fn lemma_decode_hooks_fails(s: Seq<JsonVal>, k: int)
    requires
        0 <= k < s.len(),
        decode_hook(s[k]) is None,
    ensures
        decode_hooks(s) is None,
    decreases s.len(),
{
    if k == s.len() - 1 {
        assert(s.last() == s[k]);
    } else {
        lemma_decode_hooks_fails(s.drop_last(), k);
    }
}

fn decode_hook_entry(v: &JsonValue) -> (r: Option<HookActivityHook>)
    ensures
        (match r {
            None => decode_hook(v@) is None,
            Some(h) => decode_hook(v@) == Some(h@),
        }),
{
    match v {
        JsonValue::Obj(hm) => {
            proof {
                crate::json::lemma_jval_pairs_props(hm@);
            }
            if hm.len() != 2 {
                return None;
            }
            if !crate::text::string_eq_str(&hm[0].0, "name") {
                return None;
            }
            if !crate::text::string_eq_str(&hm[1].0, "decision") {
                return None;
            }
            let name: String = match &hm[0].1 {
                JsonValue::Str(s) => s.clone(),
                _ => {
                    return None;
                },
            };
            let decision: String = match &hm[1].1 {
                JsonValue::Str(s) => s.clone(),
                _ => {
                    return None;
                },
            };
            Some(HookActivityHook { name, decision })
        },
        _ => None,
    }
}

fn encode_hook_entry(h: &HookActivityHook) -> (r: JsonValue)
    ensures
        r@ == hook_json(h@),
{
    let mut m: Vec<(String, JsonValue)> = Vec::new();
    m.push(("name".to_owned(), JsonValue::Str(h.name.clone())));
    m.push(("decision".to_owned(), JsonValue::Str(h.decision.clone())));
    proof {
        crate::json::lemma_jval_pairs_props(m@);
        assert(jval_pairs(m@) =~= hook_json(h@)->Obj_0);
    }
    JsonValue::Obj(m)
}

/// Write a hook-activity event as JSON.
pub fn encode_hook_activity_event(e: &HookActivityEvent) -> (r: JsonValue)
    ensures
        r@ == activity_event_json(e@),
{
    let reason: JsonValue = match &e.reason {
        None => JsonValue::Null,
        Some(s) => JsonValue::Str(s.clone()),
    };
    let tool: JsonValue = match &e.tool {
        None => JsonValue::Null,
        Some(t) => {
            let mut tm: Vec<(String, JsonValue)> = Vec::new();
            tm.push(("name".to_owned(), JsonValue::Str(t.name.clone())));
            tm.push(("past_tense".to_owned(), JsonValue::Str(t.past_tense.clone())));
            proof {
                crate::json::lemma_jval_pairs_props(tm@);
                assert(jval_pairs(tm@) =~= tool_json(e@.tool)->Obj_0);
            }
            JsonValue::Obj(tm)
        },
    };
    let mut hooks: Vec<JsonValue> = Vec::new();
    let n = e.hooks.len();
    let mut i: usize = 0;
    while i < n
        invariant
            0 <= i <= n,
            n == e.hooks@.len(),
            hooks@.len() == i,
            jval_seq(hooks@) =~= hooks_json(e@.hooks.subrange(0, i as int)),
        decreases n - i,
    {
        let entry = encode_hook_entry(&e.hooks[i]);
        proof {
            crate::json::lemma_jval_seq_push(hooks@, entry);
            assert(e@.hooks.subrange(0, i + 1).drop_last() =~= e@.hooks.subrange(0, i as int));
            assert(e@.hooks.subrange(0, i + 1).last() == e@.hooks[i as int]);
            assert(e@.hooks[i as int] == e.hooks@[i as int]@);
        }
        hooks.push(entry);
        i = i + 1;
    }
    proof {
        assert(e@.hooks.subrange(0, n as int) =~= e@.hooks);
    }
    let mut m: Vec<(String, JsonValue)> = Vec::new();
    m.push(("status".to_owned(), JsonValue::Str("blocked".to_owned())));
    m.push(("reason".to_owned(), reason));
    m.push(("tool".to_owned(), tool));
    m.push(("hooks".to_owned(), JsonValue::Arr(hooks)));
    proof {
        crate::json::lemma_jval_pairs_props(m@);
        assert(jval_pairs(m@) =~= activity_event_json(e@)->Obj_0);
    }
    JsonValue::Obj(m)
}

/// Read the `reason` field.
fn decode_reason_field(v: &JsonValue) -> (r: Option<Option<String>>)
    ensures
        (match r {
            None => decode_reason(v@) is None,
            Some(o) => decode_reason(v@) == Some(
                match o {
                    None => None,
                    Some(s) => Some(s@),
                },
            ),
        }),
{
    match v {
        JsonValue::Null => Some(None),
        JsonValue::Str(s) => Some(Some(s.clone())),
        _ => None,
    }
}

/// Read the `tool` field.
fn decode_tool_field(v: &JsonValue) -> (r: Option<Option<HookActivityTool>>)
    ensures
        (match r {
            None => decode_tool(v@) is None,
            Some(o) => decode_tool(v@) == Some(
                match o {
                    None => None,
                    Some(t) => Some(t@),
                },
            ),
        }),
{
    match v {
        JsonValue::Null => Some(None),
        JsonValue::Obj(tm) => {
            proof {
                crate::json::lemma_jval_pairs_props(tm@);
            }
            if tm.len() != 2 {
                return None;
            }
            if !crate::text::string_eq_str(&tm[0].0, "name") {
                return None;
            }
            if !crate::text::string_eq_str(&tm[1].0, "past_tense") {
                return None;
            }
            let name: String = match &tm[0].1 {
                JsonValue::Str(s) => s.clone(),
                _ => {
                    return None;
                },
            };
            let past_tense: String = match &tm[1].1 {
                JsonValue::Str(s) => s.clone(),
                _ => {
                    return None;
                },
            };
            Some(Some(HookActivityTool { name, past_tense }))
        },
        _ => None,
    }
}

/// Read the `hooks` field.
fn decode_hooks_field(entries: &Vec<JsonValue>) -> (r: Option<Vec<HookActivityHook>>)
    ensures
        (match r {
            None => decode_hooks(jval_seq(entries@)) is None,
            Some(hs) => decode_hooks(jval_seq(entries@)) == Some(
                Seq::new(hs@.len(), |k: int| hs@[k]@),
            ),
        }),
{
    proof {
        crate::json::lemma_jval_seq_props(entries@);
    }
    let ghost js = jval_seq(entries@);
    let mut hooks: Vec<HookActivityHook> = Vec::new();
    let n = entries.len();
    let mut i: usize = 0;
    proof {
        assert(js.subrange(0, 0) =~= Seq::<JsonVal>::empty());
        assert(Seq::new(0, |k: int| hooks@[k]@) =~= Seq::<HookActivityHookView>::empty());
    }
    while i < n
        invariant
            0 <= i <= n,
            n == entries@.len(),
            js == jval_seq(entries@),
            js.len() == n,
            forall|k: int| 0 <= k < n ==> js[k] == crate::json::jval(entries@[k]),
            hooks@.len() == i,
            decode_hooks(js.subrange(0, i as int)) == Some(
                Seq::new(hooks@.len(), |k: int| hooks@[k]@),
            ),
        decreases n - i,
    {
        let h: HookActivityHook = match decode_hook_entry(&entries[i]) {
            None => {
                proof {
                    lemma_decode_hooks_fails(js, i as int);
                }
                return None;
            },
            Some(h) => h,
        };
        proof {
            assert(decode_hook(js[i as int]) == Some(h@));
            assert(js.subrange(0, i + 1).drop_last() =~= js.subrange(0, i as int));
            assert(js.subrange(0, i + 1).last() == js[i as int]);
        }
        hooks.push(h);
        proof {
            assert(Seq::new(hooks@.len(), |k: int| hooks@[k]@) =~= Seq::new(
                (hooks@.len() - 1) as nat,
                |k: int| hooks@[k]@,
            ).push(h@));
        }
        i = i + 1;
    }
    proof {
        assert(js.subrange(0, n as int) =~= js);
    }
    Some(hooks)
}

/// Read a hook-activity event back from JSON, accepting exactly the shape
/// `encode_hook_activity_event` writes.
pub fn decode_hook_activity_event(v: &JsonValue) -> (r: Option<HookActivityEvent>)
    ensures
        (match r {
            None => decode_activity_event(v@) is None,
            Some(e) => decode_activity_event(v@) == Some(e@),
        }),
{
    match v {
        JsonValue::Obj(m) => {
            proof {
                crate::json::lemma_jval_pairs_props(m@);
            }
            if m.len() != 4 {
                return None;
            }
            if !crate::text::string_eq_str(&m[0].0, "status") {
                return None;
            }
            match &m[0].1 {
                JsonValue::Str(s) => {
                    if !crate::text::string_eq_str(s, "blocked") {
                        return None;
                    }
                },
                _ => {
                    return None;
                },
            }
            if !crate::text::string_eq_str(&m[1].0, "reason") {
                return None;
            }
            if !crate::text::string_eq_str(&m[2].0, "tool") {
                return None;
            }
            if !crate::text::string_eq_str(&m[3].0, "hooks") {
                return None;
            }
            let reason: Option<String> = match decode_reason_field(&m[1].1) {
                None => {
                    return None;
                },
                Some(o) => o,
            };
            let tool: Option<HookActivityTool> = match decode_tool_field(&m[2].1) {
                None => {
                    return None;
                },
                Some(o) => o,
            };
            let hooks: Vec<HookActivityHook> = match &m[3].1 {
                JsonValue::Arr(entries) => {
                    match decode_hooks_field(entries) {
                        None => {
                            return None;
                        },
                        Some(hs) => hs,
                    }
                },
                _ => {
                    return None;
                },
            };
            let e = HookActivityEvent { status: HookActivityStatus::Blocked, reason, tool, hooks };
            proof {
                assert(decode_activity_event(v@) matches Some(ev) && ev =~~= e@);
            }
            Some(e)
        },
        _ => None,
    }
}

} // verus!
