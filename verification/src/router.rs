//! The pre- and post-hook call sites around tool dispatch.
//!
//! Before a tool runs, its invocation is turned into hook payloads and the
//! pre hooks are consulted; a blocking decision replaces the tool call with
//! a synthesized failure, an operator-visible event, a warning banner, and
//! the hook's reason injected as the next user turn. After the tool runs,
//! the same payloads fire the post hooks. Dispatching the tool itself, and
//! sending the events, is the embedding application's work; everything the
//! router decides or composes is here.

use vstd::prelude::*;
use vstd::string::StringExecFns;
use crate::events::HookActivityEvent;
use crate::events::HookActivityHook;
use crate::events::HookActivityStatus;
use crate::events::HookActivityTool;
use crate::events::WarningEvent;
use crate::json::JsonVal;
use crate::json::JsonValue;
use crate::json::jval_pairs;
use crate::json::jval_seq;
use crate::parse::json_parse_spec;
use crate::payload::FileChange;
use crate::payload::HookContext;
use crate::payload::ToolHookPayload;
use crate::payload::ToolHookPayloadView;
use crate::payload::apply_patch_payloads;
use crate::payload::payloads_view;
use crate::runner::HookDecision;
use crate::runner::HookDecisionKind;
use crate::runner::HookDecisionWithContext;
use crate::runner::HookError;
use crate::runner::hook_error_message;

verus! {

broadcast use vstd::seq::group_seq_axioms, vstd::std_specs::vec::group_vec_axioms;

/// The parameters of a local shell invocation, as they are shown to
/// hooks. The sandbox permission is carried as its label.
#[derive(Debug, Clone, PartialEq)]
pub struct ShellToolCallParams {
    pub command: Vec<String>,
    pub workdir: Option<String>,
    pub timeout_ms: Option<u64>,
    pub sandbox_permissions: Option<String>,
    pub justification: Option<String>,
}

/// How the model asked for the tool: a function call with a JSON argument
/// text, a custom tool call with free text, a local shell request, or a
/// call routed to an MCP server.
#[derive(Debug, Clone, PartialEq)]
pub enum ToolPayload {
    Function { arguments: String },
    Custom { input: String },
    LocalShell { params: ShellToolCallParams },
    Mcp { server: String, tool: String, raw_arguments: String },
}

/// One tool invocation as the router receives it.
#[derive(Debug, Clone, PartialEq)]
pub struct ToolCall {
    pub tool_name: String,
    pub call_id: String,
    pub payload: ToolPayload,
}

/// What the model streamed, reduced to the shapes the router reads.
#[derive(Debug, Clone, PartialEq)]
pub enum ResponseItem {
    FunctionCall { name: String, arguments: String, call_id: String },
    CustomToolCall { name: String, input: String, call_id: String },
    LocalShellCall { id: Option<String>, call_id: Option<String>, action: LocalShellAction },
    Other,
}

/// The action of a local shell call.
#[derive(Debug, Clone, PartialEq)]
pub enum LocalShellAction {
    Exec(LocalShellExecAction),
}

/// The executed command of a local shell call.
#[derive(Debug, Clone, PartialEq)]
pub struct LocalShellExecAction {
    pub command: Vec<String>,
    pub working_directory: Option<String>,
    pub timeout_ms: Option<u64>,
}

/// Why a tool call failed before or instead of running.
#[derive(Debug, Clone, PartialEq)]
pub enum FunctionCallError {
    /// The failure text is returned to the model; the turn goes on.
    RespondToModel(String),
    /// A local shell call arrived without any call identifier.
    MissingLocalShellCallId,
    /// The turn cannot continue.
    Fatal(String),
}

/// The text a tool failure is reported with.
pub open spec fn function_call_error_message(e: FunctionCallError) -> Seq<char> {
    match e {
        FunctionCallError::RespondToModel(s) => s@,
        FunctionCallError::MissingLocalShellCallId => "local shell call is missing a call id"@,
        FunctionCallError::Fatal(s) => s@,
    }
}

/// The synthesized outcome of a tool call, in the shape the tool's output
/// takes: a function-call output with a success flag, or a custom tool
/// call output.
#[derive(Debug, Clone, PartialEq)]
pub enum ResponseInputItem {
    FunctionCallOutput { call_id: String, content: String, success: Option<bool> },
    CustomToolCallOutput { call_id: String, output: String },
}

impl FunctionCallError {
    /// The text this failure is reported with.
    pub fn message(&self) -> (r: String)
        ensures
            r@ == function_call_error_message(*self),
    {
        match self {
            FunctionCallError::RespondToModel(s) => s.clone(),
            FunctionCallError::MissingLocalShellCallId => "local shell call is missing a call id"
                .to_owned(),
            FunctionCallError::Fatal(s) => s.clone(),
        }
    }
}

/// The label a sandbox permission default is shown under.
pub open spec fn use_default_permissions_label() -> Seq<char> {
    "use_default"@
}

/// Turn one streamed item into a tool call: a function call becomes an
/// MCP call when the session resolves its name to a server and tool, a
/// local shell call must carry a call id (either field), and items of
/// other kinds are no tool call at all.
pub fn build_tool_call(item: ResponseItem, mcp: Option<(String, String)>) -> (r: Result<
    Option<ToolCall>,
    FunctionCallError,
>)
    ensures
        (match item {
            ResponseItem::FunctionCall { name, arguments, call_id } => match mcp {
                Some((server, tool)) => r matches Ok(o) && (o matches Some(c) && ({
                    &&& c.tool_name@ == name@
                    &&& c.call_id@ == call_id@
                    &&& c.payload matches ToolPayload::Mcp { server: s2, tool: t2, raw_arguments: ra }
                        && (s2@ == server@ && t2@ == tool@ && ra@ == arguments@)
                })),
                None => r matches Ok(o) && (o matches Some(c) && ({
                    &&& c.tool_name@ == name@
                    &&& c.call_id@ == call_id@
                    &&& c.payload matches ToolPayload::Function { arguments: a2 } && a2@
                        == arguments@
                })),
            },
            ResponseItem::CustomToolCall { name, input, call_id } => r matches Ok(o) && (o matches
                Some(c) && ({
                &&& c.tool_name@ == name@
                &&& c.call_id@ == call_id@
                &&& c.payload matches ToolPayload::Custom { input: i2 } && i2@ == input@
            })),
            ResponseItem::LocalShellCall { id, call_id, action } => match (call_id, id) {
                (None, None) => r == Result::<Option<ToolCall>, FunctionCallError>::Err(
                    FunctionCallError::MissingLocalShellCallId,
                ),
                _ => r matches Ok(o) && (o matches Some(c) && ({
                    &&& c.tool_name@ == "local_shell"@
                    &&& (match call_id {
                        Some(cid) => c.call_id@ == cid@,
                        None => c.call_id@ == id->0@,
                    })
                    &&& c.payload matches ToolPayload::LocalShell { params } && (match action {
                        LocalShellAction::Exec(exec) => {
                            &&& params.command.deep_view() == exec.command.deep_view()
                            &&& crate::runner::opt_str_view(params.workdir)
                                == crate::runner::opt_str_view(exec.working_directory)
                            &&& params.timeout_ms == exec.timeout_ms
                            &&& crate::runner::opt_str_view(params.sandbox_permissions) == Some(
                                use_default_permissions_label(),
                            )
                            &&& params.justification is None
                        },
                    })
                })),
            },
            ResponseItem::Other => r == Result::<Option<ToolCall>, FunctionCallError>::Ok(None),
        }),
{
    match item {
        ResponseItem::FunctionCall { name, arguments, call_id } => {
            match mcp {
                Some((server, tool)) => Ok(
                    Some(
                        ToolCall {
                            tool_name: name,
                            call_id,
                            payload: ToolPayload::Mcp { server, tool, raw_arguments: arguments },
                        },
                    ),
                ),
                None => Ok(
                    Some(
                        ToolCall {
                            tool_name: name,
                            call_id,
                            payload: ToolPayload::Function { arguments },
                        },
                    ),
                ),
            }
        },
        ResponseItem::CustomToolCall { name, input, call_id } => Ok(
            Some(ToolCall { tool_name: name, call_id, payload: ToolPayload::Custom { input } }),
        ),
        ResponseItem::LocalShellCall { id, call_id, action } => {
            let cid: String = match (call_id, id) {
                (Some(c), _) => c,
                (None, Some(c)) => c,
                (None, None) => {
                    return Err(FunctionCallError::MissingLocalShellCallId);
                },
            };
            match action {
                LocalShellAction::Exec(exec) => {
                    let params = ShellToolCallParams {
                        command: exec.command,
                        workdir: exec.working_directory,
                        timeout_ms: exec.timeout_ms,
                        sandbox_permissions: Some("use_default".to_owned()),
                        justification: None,
                    };
                    Ok(
                        Some(
                            ToolCall {
                                tool_name: "local_shell".to_owned(),
                                call_id: cid,
                                payload: ToolPayload::LocalShell { params },
                            },
                        ),
                    )
                },
            }
        },
        ResponseItem::Other => Ok(None),
    }
}

/// The JSON of an optional string: null when absent.
pub open spec fn opt_str_json(o: Option<Seq<char>>) -> JsonVal {
    match o {
        None => JsonVal::Null,
        Some(s) => JsonVal::Str(s),
    }
}

/// The JSON of an optional count of milliseconds: null when absent.
pub open spec fn opt_ms_json(o: Option<u64>) -> JsonVal {
    match o {
        None => JsonVal::Null,
        Some(t) => JsonVal::Num(crate::text::dec_str(t as nat)),
    }
}

/// The JSON array of a command line.
pub open spec fn command_json(s: Seq<String>) -> Seq<JsonVal>
    decreases s.len(),
{
    if s.len() <= 0 {
        Seq::empty()
    } else {
        command_json(s.drop_last()).push(JsonVal::Str(s.last()@))
    }
}

/// A JSON argument text parsed if it is JSON, else wrapped as a string.
pub open spec fn parsed_or_wrapped(arguments: Seq<char>) -> JsonVal {
    match json_parse_spec(arguments) {
        Some(v) => v,
        None => JsonVal::Str(arguments),
    }
}

/// The tool input a payload of each kind is shown with: function and MCP
/// arguments are parsed as JSON where they are JSON and wrapped as a
/// string otherwise; a custom input is wrapped as a string; a local shell
/// call is shown as its parameters.
pub open spec fn plain_tool_input(payload: ToolPayload) -> JsonVal {
    match payload {
        ToolPayload::Function { arguments } => parsed_or_wrapped(arguments@),
        ToolPayload::Custom { input } => JsonVal::Str(input@),
        ToolPayload::LocalShell { params } => JsonVal::Obj(
            seq![
                ("command"@, JsonVal::Arr(command_json(params.command@))),
                ("workdir"@, opt_str_json(crate::runner::opt_str_view(params.workdir))),
                ("timeout_ms"@, opt_ms_json(params.timeout_ms)),
                (
                    "sandbox_permissions"@,
                    opt_str_json(crate::runner::opt_str_view(params.sandbox_permissions)),
                ),
                ("justification"@, opt_str_json(crate::runner::opt_str_view(params.justification))),
            ],
        ),
        ToolPayload::Mcp { server, tool, raw_arguments } => JsonVal::Obj(
            seq![
                ("server"@, JsonVal::Str(server@)),
                ("tool"@, JsonVal::Str(tool@)),
                ("arguments"@, parsed_or_wrapped(raw_arguments@)),
            ],
        ),
    }
}

fn opt_string_json(o: &Option<String>) -> (r: JsonValue)
    ensures
        r@ == opt_str_json(crate::runner::opt_str_view(*o)),
{
    match o {
        None => JsonValue::Null,
        Some(s) => JsonValue::Str(s.clone()),
    }
}

fn parse_or_wrap(arguments: &String) -> (r: JsonValue)
    ensures
        r@ == parsed_or_wrapped(arguments@),
{
    match crate::parse::json_parse(arguments.as_str()) {
        Some(v) => v,
        None => JsonValue::Str(arguments.clone()),
    }
}

fn plain_tool_input_json(payload: &ToolPayload) -> (r: JsonValue)
    ensures
        r@ == plain_tool_input(*payload),
{
    match payload {
        ToolPayload::Function { arguments } => parse_or_wrap(arguments),
        ToolPayload::Custom { input } => JsonValue::Str(input.clone()),
        ToolPayload::LocalShell { params } => {
            let mut cmd: Vec<JsonValue> = Vec::new();
            let n = params.command.len();
            let mut i: usize = 0;
            while i < n
                invariant
                    0 <= i <= n,
                    n == params.command@.len(),
                    jval_seq(cmd@) =~= command_json(params.command@.subrange(0, i as int)),
                decreases n - i,
            {
                let entry = JsonValue::Str(params.command[i].clone());
                proof {
                    crate::json::lemma_jval_seq_push(cmd@, entry);
                    assert(params.command@.subrange(0, i + 1).drop_last() =~= params
                        .command@.subrange(0, i as int));
                    assert(params.command@.subrange(0, i + 1).last() == params.command@[i as int]);
                }
                cmd.push(entry);
                i = i + 1;
            }
            proof {
                assert(params.command@.subrange(0, n as int) =~= params.command@);
            }
            let timeout: JsonValue = match params.timeout_ms {
                None => JsonValue::Null,
                Some(t) => JsonValue::Num(
                    crate::text::string_of(&crate::text::u64_to_dec(t)),
                ),
            };
            let mut m: Vec<(String, JsonValue)> = Vec::new();
            m.push(("command".to_owned(), JsonValue::Arr(cmd)));
            m.push(("workdir".to_owned(), opt_string_json(&params.workdir)));
            m.push(("timeout_ms".to_owned(), timeout));
            m.push(("sandbox_permissions".to_owned(), opt_string_json(&params.sandbox_permissions)));
            m.push(("justification".to_owned(), opt_string_json(&params.justification)));
            proof {
                crate::json::lemma_jval_pairs_props(m@);
                assert(jval_pairs(m@) =~= plain_tool_input(*payload)->Obj_0);
            }
            JsonValue::Obj(m)
        },
        ToolPayload::Mcp { server, tool, raw_arguments } => {
            let mut m: Vec<(String, JsonValue)> = Vec::new();
            m.push(("server".to_owned(), JsonValue::Str(server.clone())));
            m.push(("tool".to_owned(), JsonValue::Str(tool.clone())));
            m.push(("arguments".to_owned(), parse_or_wrap(raw_arguments)));
            proof {
                crate::json::lemma_jval_pairs_props(m@);
                assert(jval_pairs(m@) =~= plain_tool_input(*payload)->Obj_0);
            }
            JsonValue::Obj(m)
        },
    }
}

/// Build the hook payloads for one tool invocation. A tool other than
/// `apply_patch` yields exactly one payload, with its input shown as
/// `plain_tool_input` says. For `apply_patch` the caller hands in the
/// verified per-file changes, and each non-delete change yields a payload;
/// with no changes to show (or none handed in) no hooks should fire, and
/// the result is nothing.
pub fn build_tool_hook_payloads(
    context: &HookContext,
    tool_name: &str,
    payload: &ToolPayload,
    patch_changes: Option<&Vec<(String, FileChange)>>,
) -> (r: Option<Vec<ToolHookPayload>>)
    ensures
        (if tool_name@ == "apply_patch"@ {
            match patch_changes {
                None => r is None,
                Some(changes) => {
                    let expected = apply_patch_payloads(context@, changes@);
                    if expected.len() == 0 {
                        r is None
                    } else {
                        r matches Some(ps) && payloads_view(ps@) == expected
                    }
                },
            }
        } else {
            r matches Some(ps) && ps@.len() == 1 && ps@[0]@ == (ToolHookPayloadView {
                session_id: context@.session_id,
                transcript_path: context@.transcript_path,
                hook_event_name: context@.hook_event_name,
                tool_name: tool_name@,
                tool_input: plain_tool_input(*payload),
            })
        }),
{
    if crate::text::str_eq(tool_name, "apply_patch") {
        match patch_changes {
            None => None,
            Some(changes) => {
                let ps = crate::payload::build_apply_patch_hook_payloads(context, changes);
                if ps.len() == 0 {
                    proof {
                        assert(payloads_view(ps@).len() == 0);
                    }
                    None
                } else {
                    Some(ps)
                }
            },
        }
    } else {
        let tool_input = plain_tool_input_json(payload);
        let p = ToolHookPayload {
            session_id: context.session_id.clone(),
            transcript_path: context.transcript_path.clone(),
            hook_event_name: context.hook_event_name.clone(),
            tool_name: tool_name.to_owned(),
            tool_input,
        };
        let mut ps: Vec<ToolHookPayload> = Vec::new();
        ps.push(p);
        Some(ps)
    }
}

/// Whether the members of an object parse as the patch-tool argument
/// envelope. `seen` carries the `input` value already found; a second
/// `input` member is an error, unknown members are ignored, and the field
/// is required.
pub open spec fn patch_input_fields(
    m: Seq<(Seq<char>, JsonVal)>,
    seen: Option<Seq<char>>,
) -> Option<Seq<char>>
    decreases m.len(),
{
    if m.len() <= 0 {
        seen
    } else {
        let k = m[0].0;
        let v = m[0].1;
        if k == "input"@ {
            if seen is Some {
                None
            } else {
                match v {
                    JsonVal::Str(s) => patch_input_fields(m.drop_first(), Some(s)),
                    _ => None,
                }
            }
        } else {
            patch_input_fields(m.drop_first(), seen)
        }
    }
}

/// The patch body inside a function-call argument text: the text must be
/// a JSON object whose `input` member holds it.
pub open spec fn patch_input_of_text(s: Seq<char>) -> Option<Seq<char>> {
    match json_parse_spec(s) {
        None => None,
        Some(v) => match v {
            JsonVal::Obj(m) => patch_input_fields(m, None),
            _ => None,
        },
    }
}

/// The patch body a tool payload carries: the `input` field of a function
/// call's JSON arguments, or a custom tool call's input verbatim. A local
/// shell or MCP payload carries none.
pub open spec fn patch_input_of_payload(payload: ToolPayload) -> Option<Seq<char>> {
    match payload {
        ToolPayload::Function { arguments } => patch_input_of_text(arguments@),
        ToolPayload::Custom { input } => Some(input@),
        _ => None,
    }
}

/// Recover the patch body from the tool payload, for the patch parser.
pub fn extract_apply_patch_input(payload: &ToolPayload) -> (r: Option<String>)
    ensures
        crate::runner::opt_str_view(r) == patch_input_of_payload(*payload),
{
    match payload {
        ToolPayload::Function { arguments } => {
            match crate::parse::json_parse(arguments.as_str()) {
                None => None,
                Some(v) => match &v {
                    JsonValue::Obj(members) => {
                        let ghost jm = jval_pairs(members@);
                        proof {
                            crate::json::lemma_jval_pairs_props(members@);
                            assert(jm.skip(0) =~= jm);
                        }
                        let n = members.len();
                        let mut i: usize = 0;
                        let mut seen: Option<String> = None;
                        let mut failed: bool = false;
                        while i < n && !failed
                            invariant
                                0 <= i <= n,
                                n == members@.len(),
                                jm == jval_pairs(members@),
                                jm.len() == n,
                                forall|k: int|
                                    0 <= k < n ==> jm[k] == (members@[k].0@, crate::json::jval(
                                        members@[k].1,
                                    )),
                                !failed ==> patch_input_fields(jm, None) == patch_input_fields(
                                    jm.skip(i as int),
                                    crate::runner::opt_str_view(seen),
                                ),
                                failed ==> patch_input_fields(jm, None) is None,
                            decreases n - i,
                        {
                            let ghost rest = jm.skip(i as int);
                            proof {
                                assert(rest[0] == jm[i as int]);
                                assert(rest.drop_first() =~= jm.skip(i + 1));
                            }
                            if crate::text::string_eq_str(&members[i].0, "input") {
                                if seen.is_some() {
                                    failed = true;
                                } else {
                                    match &members[i].1 {
                                        JsonValue::Str(s) => {
                                            seen = Some(s.clone());
                                        },
                                        _ => {
                                            failed = true;
                                        },
                                    }
                                }
                            }
                            i = i + 1;
                        }
                        if failed {
                            None
                        } else {
                            proof {
                                assert(jm.skip(n as int) =~= Seq::<(Seq<char>, JsonVal)>::empty());
                            }
                            seen
                        }
                    },
                    _ => None,
                },
            }
        },
        ToolPayload::Custom { input } => Some(input.clone()),
        _ => None,
    }
}

/// The past tense a tool's name is reported with in the activity event:
/// a fixed closed table, with `Ran` for anything unknown.
pub open spec fn past_tense_of(name: Seq<char>) -> Seq<char> {
    if name == "Edit"@ || name == "MultiEdit"@ {
        "Edited"@
    } else if name == "Write"@ {
        "Wrote"@
    } else if name == "TodoWrite"@ {
        "Updated"@
    } else if name == "Read"@ {
        "Read"@
    } else if name == "List"@ {
        "Listed"@
    } else {
        "Ran"@
    }
}

/// The past tense of a tool name, from the fixed table.
pub fn tool_past_tense(tool_name: &str) -> (r: String)
    ensures
        r@ == past_tense_of(tool_name@),
{
    if crate::text::str_eq(tool_name, "Edit") || crate::text::str_eq(tool_name, "MultiEdit") {
        "Edited".to_owned()
    } else if crate::text::str_eq(tool_name, "Write") {
        "Wrote".to_owned()
    } else if crate::text::str_eq(tool_name, "TodoWrite") {
        "Updated".to_owned()
    } else if crate::text::str_eq(tool_name, "Read") {
        "Read".to_owned()
    } else if crate::text::str_eq(tool_name, "List") {
        "Listed".to_owned()
    } else if crate::text::str_eq(tool_name, "Shell") {
        "Ran".to_owned()
    } else {
        "Ran".to_owned()
    }
}

/// Synthesize the failed outcome of a tool call, in the shape the tool's
/// output takes.
pub fn failure_response(
    call_id: String,
    payload_outputs_custom: bool,
    err: &FunctionCallError,
) -> (r: ResponseInputItem)
    ensures
        (if payload_outputs_custom {
            r matches ResponseInputItem::CustomToolCallOutput { call_id: c, output } && c@
                == call_id@ && output@ == function_call_error_message(*err)
        } else {
            r matches ResponseInputItem::FunctionCallOutput { call_id: c, content, success } && c@
                == call_id@ && content@ == function_call_error_message(*err) && success == Some(
                false,
            )
        }),
{
    let message = err.message();
    if payload_outputs_custom {
        ResponseInputItem::CustomToolCallOutput { call_id, output: message }
    } else {
        ResponseInputItem::FunctionCallOutput { call_id, content: message, success: Some(false) }
    }
}

/// Turn a hook failure into the tool-level failure the model sees. The
/// turn goes on: a hook failure never aborts it.
pub fn hook_error_to_tool_failure(err: &HookError) -> (r: FunctionCallError)
    ensures
        r matches FunctionCallError::RespondToModel(s) && s@ == "hook error: "@
            + hook_error_message(*err),
{
    FunctionCallError::RespondToModel(String::from_str("hook error: ").concat(err.message().as_str()))
}

/// The reason a block is reported with: the hook's reason, or the fixed
/// text when the hook gave none.
pub open spec fn blocked_reason(d: HookDecision) -> Seq<char> {
    match d.reason {
        Some(r) => r@,
        None => "blocked by hook"@,
    }
}

/// The tool name the block is reported under: the first payload's (which
/// carries the per-file mapping of a patch), or the raw tool name when
/// there is no payload.
pub open spec fn display_tool_name(payloads: Seq<ToolHookPayload>, tool_name: Seq<char>) -> Seq<
    char,
> {
    if payloads.len() > 0 {
        payloads[0]@.tool_name
    } else {
        tool_name
    }
}

/// The name the blocking hook is reported under: its executable, or
/// `unknown` for an empty command.
pub open spec fn blocked_hook_name(hook: crate::config::HookCommandConfigView) -> Seq<char> {
    if hook.command.len() > 0 {
        hook.command[0]
    } else {
        "unknown"@
    }
}

/// The label of the decision in the activity event; an absent decision on
/// a block is still reported as a block.
pub open spec fn decision_label(d: Option<HookDecisionKind>) -> Seq<char> {
    match d {
        Some(HookDecisionKind::Allow) => "allow"@,
        _ => "block"@,
    }
}

/// Everything a blocking decision effects instead of the tool run: the
/// activity event, the warning banner, the reason to inject as the next
/// user turn, and the synthesized tool failure.
#[derive(Debug)]
pub struct BlockEffects {
    pub activity: HookActivityEvent,
    pub warning: WarningEvent,
    pub injected_text: String,
    pub response: ResponseInputItem,
}

/// Compose the three-channel effect of a block: one activity event with
/// the tool and the contributing hook, one warning whose banner carries
/// the reason, the reason itself for the next user turn, and the tool's
/// synthesized failure. The tool itself is not run.
pub fn block_effects(
    blocked: &HookDecisionWithContext,
    payloads: &Vec<ToolHookPayload>,
    tool_name: &str,
    call_id: String,
    payload_outputs_custom: bool,
) -> (r: BlockEffects)
    ensures
        ({
            let reason = blocked_reason(blocked.decision);
            let display = display_tool_name(payloads@, tool_name@);
            let message = "blocked by hook: "@ + reason;
            &&& r.activity@.status == HookActivityStatus::Blocked
            &&& r.activity@.reason == Some(reason)
            &&& r.activity@.tool matches Some(t) && t.name == display && t.past_tense
                == past_tense_of(display)
            &&& r.activity@.hooks.len() == 1
            &&& r.activity@.hooks[0].name == blocked_hook_name(blocked.hook@)
            &&& r.activity@.hooks[0].decision == decision_label(blocked.decision.decision)
            &&& r.warning.message@ == message
            &&& r.injected_text@ == reason
            &&& (if payload_outputs_custom {
                r.response matches ResponseInputItem::CustomToolCallOutput { call_id: c, output }
                    && c@ == call_id@ && output@ == message
            } else {
                r.response matches ResponseInputItem::FunctionCallOutput {
                    call_id: c,
                    content,
                    success,
                } && c@ == call_id@ && content@ == message && success == Some(false)
            })
        }),
{
    let reason: String = match &blocked.decision.reason {
        Some(s) => s.clone(),
        None => "blocked by hook".to_owned(),
    };
    let message: String = String::from_str("blocked by hook: ").concat(reason.as_str());
    let display: String = if payloads.len() > 0 {
        payloads[0].tool_name.clone()
    } else {
        tool_name.to_owned()
    };
    let hook_name: String = if blocked.hook.command.len() > 0 {
        blocked.hook.command[0].clone()
    } else {
        "unknown".to_owned()
    };
    let hook_decision: String = match blocked.decision.decision {
        Some(HookDecisionKind::Allow) => "allow".to_owned(),
        _ => "block".to_owned(),
    };
    let past_tense = tool_past_tense(display.as_str());
    let mut hooks: Vec<HookActivityHook> = Vec::new();
    hooks.push(HookActivityHook { name: hook_name, decision: hook_decision });
    let activity = HookActivityEvent {
        status: HookActivityStatus::Blocked,
        reason: Some(reason.clone()),
        tool: Some(HookActivityTool { name: display, past_tense }),
        hooks,
    };
    let err = FunctionCallError::RespondToModel(message.clone());
    let response = failure_response(call_id, payload_outputs_custom, &err);
    BlockEffects { activity, warning: WarningEvent { message }, injected_text: reason, response }
}

/// One tool offered to the model; the registry describing the tools is an
/// external collaborator, so only what the router reads of it is here.
#[derive(Debug, Clone, PartialEq)]
pub struct ToolSpec {
    pub name: String,
}

/// A tool together with whether it may run in parallel with other tools.
#[derive(Debug, Clone, PartialEq)]
pub struct ConfiguredToolSpec {
    pub spec: ToolSpec,
    pub supports_parallel_tool_calls: bool,
}

/// Routes tool calls: holds the configured tool list and, around each
/// dispatch, consults the hooks.
pub struct ToolRouter {
    pub configured: Vec<ConfiguredToolSpec>,
}

impl ToolRouter {
    /// A router over a configured tool list.
    pub fn new(configured: Vec<ConfiguredToolSpec>) -> (r: Self)
        ensures
            r.configured == configured,
    {
        ToolRouter { configured }
    }

    /// The offered tools, in order.
    pub fn specs(&self) -> (r: Vec<ToolSpec>)
        ensures
            r@.len() == self.configured@.len(),
            forall|i: int|
                0 <= i < self.configured@.len() ==> r@[i].name@ == self.configured@[i].spec.name@,
    {
        let mut r: Vec<ToolSpec> = Vec::new();
        let n = self.configured.len();
        let mut i: usize = 0;
        while i < n
            invariant
                0 <= i <= n,
                n == self.configured@.len(),
                r@.len() == i,
                forall|k: int| 0 <= k < i ==> r@[k].name@ == self.configured@[k].spec.name@,
            decreases n - i,
        {
            r.push(ToolSpec { name: self.configured[i].spec.name.clone() });
            i = i + 1;
        }
        r
    }

    /// Whether a tool of this name is configured to run in parallel.
    pub fn tool_supports_parallel(&self, tool_name: &str) -> (r: bool)
        ensures
            r == exists|i: int|
                0 <= i < self.configured@.len() && (#[trigger] self.configured@[i])
                    .supports_parallel_tool_calls && self.configured@[i].spec.name@ == tool_name@,
    {
        let n = self.configured.len();
        let mut i: usize = 0;
        while i < n
            invariant
                0 <= i <= n,
                n == self.configured@.len(),
                forall|k: int|
                    0 <= k < i ==> !((#[trigger] self.configured@[k]).supports_parallel_tool_calls
                        && self.configured@[k].spec.name@ == tool_name@),
            decreases n - i,
        {
            if self.configured[i].supports_parallel_tool_calls && crate::text::string_eq_str(
                &self.configured[i].spec.name,
                tool_name,
            ) {
                return true;
            }
            i = i + 1;
        }
        false
    }
}

} // verus!
