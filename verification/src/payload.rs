//! The payloads handed to hook programs, and how they are built from a
//! tool invocation.
//!
//! One tool call normally yields one payload. The patch-application tool is
//! the exception: each file the patch touches yields a payload of its own,
//! written as the file operation it amounts to, and deletions yield none.

use vstd::prelude::*;
use crate::json::JsonVal;
use crate::json::JsonValue;
use crate::json::jval;
use crate::json::jval_pairs;

verus! {

broadcast use vstd::seq::group_seq_axioms, vstd::std_specs::vec::group_vec_axioms;

/// The per-session fields every payload carries.
#[derive(Debug, Clone, PartialEq)]
pub struct HookContext {
    pub session_id: String,
    pub transcript_path: String,
    pub hook_event_name: String,
}

/// The abstraction of a context.
pub struct HookContextView {
    pub session_id: Seq<char>,
    pub transcript_path: Seq<char>,
    pub hook_event_name: Seq<char>,
}

impl View for HookContext {
    type V = HookContextView;

    open spec fn view(&self) -> HookContextView {
        HookContextView {
            session_id: self.session_id@,
            transcript_path: self.transcript_path@,
            hook_event_name: self.hook_event_name@,
        }
    }
}

/// The payload for a tool event: the context plus the tool's name and its
/// input as a JSON value.
#[derive(Debug, PartialEq)]
pub struct ToolHookPayload {
    pub session_id: String,
    pub transcript_path: String,
    pub hook_event_name: String,
    pub tool_name: String,
    pub tool_input: JsonValue,
}

/// The abstraction of a tool payload.
pub struct ToolHookPayloadView {
    pub session_id: Seq<char>,
    pub transcript_path: Seq<char>,
    pub hook_event_name: Seq<char>,
    pub tool_name: Seq<char>,
    pub tool_input: JsonVal,
}

impl View for ToolHookPayload {
    type V = ToolHookPayloadView;

    open spec fn view(&self) -> ToolHookPayloadView {
        ToolHookPayloadView {
            session_id: self.session_id@,
            transcript_path: self.transcript_path@,
            hook_event_name: self.hook_event_name@,
            tool_name: self.tool_name@,
            tool_input: self.tool_input@,
        }
    }
}

/// The views of a sequence of tool payloads.
pub open spec fn payloads_view(s: Seq<ToolHookPayload>) -> Seq<ToolHookPayloadView> {
    Seq::new(s.len(), |i: int| s[i]@)
}

/// The payload for the session-start event.
#[derive(Debug, Clone, PartialEq)]
pub struct SessionStartHookPayload {
    pub session_id: String,
    pub transcript_path: String,
    pub hook_event_name: String,
    pub source: String,
}

/// The payload for the user-prompt-submit event.
#[derive(Debug, Clone, PartialEq)]
pub struct UserPromptSubmitHookPayload {
    pub session_id: String,
    pub transcript_path: String,
    pub hook_event_name: String,
    pub prompt: String,
    pub cwd: String,
}

/// The JSON a tool payload is written as: its five fields, in order.
pub open spec fn tool_payload_json(p: ToolHookPayloadView) -> JsonVal {
    JsonVal::Obj(
        seq![
            ("session_id"@, JsonVal::Str(p.session_id)),
            ("transcript_path"@, JsonVal::Str(p.transcript_path)),
            ("hook_event_name"@, JsonVal::Str(p.hook_event_name)),
            ("tool_name"@, JsonVal::Str(p.tool_name)),
            ("tool_input"@, p.tool_input),
        ],
    )
}

/// The JSON a session-start payload is written as.
pub open spec fn session_payload_json(p: SessionStartHookPayload) -> JsonVal {
    JsonVal::Obj(
        seq![
            ("session_id"@, JsonVal::Str(p.session_id@)),
            ("transcript_path"@, JsonVal::Str(p.transcript_path@)),
            ("hook_event_name"@, JsonVal::Str(p.hook_event_name@)),
            ("source"@, JsonVal::Str(p.source@)),
        ],
    )
}

/// The JSON a user-prompt-submit payload is written as.
pub open spec fn prompt_payload_json(p: UserPromptSubmitHookPayload) -> JsonVal {
    JsonVal::Obj(
        seq![
            ("session_id"@, JsonVal::Str(p.session_id@)),
            ("transcript_path"@, JsonVal::Str(p.transcript_path@)),
            ("hook_event_name"@, JsonVal::Str(p.hook_event_name@)),
            ("prompt"@, JsonVal::Str(p.prompt@)),
            ("cwd"@, JsonVal::Str(p.cwd@)),
        ],
    )
}

impl ToolHookPayload {
    /// Build the JSON this payload is written as.
    pub fn to_json(&self) -> (r: JsonValue)
        ensures
            r@ == tool_payload_json(self@),
    {
        let mut m: Vec<(String, JsonValue)> = Vec::new();
        m.push(("session_id".to_owned(), JsonValue::Str(self.session_id.clone())));
        m.push(("transcript_path".to_owned(), JsonValue::Str(self.transcript_path.clone())));
        m.push(("hook_event_name".to_owned(), JsonValue::Str(self.hook_event_name.clone())));
        m.push(("tool_name".to_owned(), JsonValue::Str(self.tool_name.clone())));
        m.push(("tool_input".to_owned(), crate::json::clone_json(&self.tool_input)));
        proof {
            crate::json::lemma_jval_pairs_props(m@);
            assert(jval_pairs(m@) =~= tool_payload_json(self@)->Obj_0);
        }
        JsonValue::Obj(m)
    }

    /// Copy this payload, giving it another lifecycle event name.
    pub fn with_hook_event_name(&self, hook_event_name: &str) -> (r: ToolHookPayload)
        ensures
            r@.session_id == self@.session_id,
            r@.transcript_path == self@.transcript_path,
            r@.hook_event_name == hook_event_name@,
            r@.tool_name == self@.tool_name,
            r@.tool_input == self@.tool_input,
    {
        ToolHookPayload {
            session_id: self.session_id.clone(),
            transcript_path: self.transcript_path.clone(),
            hook_event_name: hook_event_name.to_owned(),
            tool_name: self.tool_name.clone(),
            tool_input: crate::json::clone_json(&self.tool_input),
        }
    }
}

impl SessionStartHookPayload {
    /// Build the JSON this payload is written as.
    pub fn to_json(&self) -> (r: JsonValue)
        ensures
            r@ == session_payload_json(*self),
    {
        let mut m: Vec<(String, JsonValue)> = Vec::new();
        m.push(("session_id".to_owned(), JsonValue::Str(self.session_id.clone())));
        m.push(("transcript_path".to_owned(), JsonValue::Str(self.transcript_path.clone())));
        m.push(("hook_event_name".to_owned(), JsonValue::Str(self.hook_event_name.clone())));
        m.push(("source".to_owned(), JsonValue::Str(self.source.clone())));
        proof {
            crate::json::lemma_jval_pairs_props(m@);
            assert(jval_pairs(m@) =~= session_payload_json(*self)->Obj_0);
        }
        JsonValue::Obj(m)
    }
}

impl UserPromptSubmitHookPayload {
    /// Build the JSON this payload is written as.
    pub fn to_json(&self) -> (r: JsonValue)
        ensures
            r@ == prompt_payload_json(*self),
    {
        let mut m: Vec<(String, JsonValue)> = Vec::new();
        m.push(("session_id".to_owned(), JsonValue::Str(self.session_id.clone())));
        m.push(("transcript_path".to_owned(), JsonValue::Str(self.transcript_path.clone())));
        m.push(("hook_event_name".to_owned(), JsonValue::Str(self.hook_event_name.clone())));
        m.push(("prompt".to_owned(), JsonValue::Str(self.prompt.clone())));
        m.push(("cwd".to_owned(), JsonValue::Str(self.cwd.clone())));
        proof {
            crate::json::lemma_jval_pairs_props(m@);
            assert(jval_pairs(m@) =~= prompt_payload_json(*self)->Obj_0);
        }
        JsonValue::Obj(m)
    }
}

/// Build the session-start payload: the context's fields and the source
/// label, for example `startup` or `resume`.
pub fn build_session_start_hook_payload(context: &HookContext, source: &str) -> (r:
    SessionStartHookPayload)
    ensures
        r.session_id@ == context@.session_id,
        r.transcript_path@ == context@.transcript_path,
        r.hook_event_name@ == context@.hook_event_name,
        r.source@ == source@,
{
    SessionStartHookPayload {
        session_id: context.session_id.clone(),
        transcript_path: context.transcript_path.clone(),
        hook_event_name: context.hook_event_name.clone(),
        source: source.to_owned(),
    }
}

/// Build the user-prompt-submit payload: the context's fields, the
/// verbatim prompt, and the session working directory.
pub fn build_user_prompt_submit_hook_payload(context: &HookContext, prompt: &str, cwd: &str) -> (r:
    UserPromptSubmitHookPayload)
    ensures
        r.session_id@ == context@.session_id,
        r.transcript_path@ == context@.transcript_path,
        r.hook_event_name@ == context@.hook_event_name,
        r.prompt@ == prompt@,
        r.cwd@ == cwd@,
{
    UserPromptSubmitHookPayload {
        session_id: context.session_id.clone(),
        transcript_path: context.transcript_path.clone(),
        hook_event_name: context.hook_event_name.clone(),
        prompt: prompt.to_owned(),
        cwd: cwd.to_owned(),
    }
}

/// One file's part of a verified patch, as the patch parser reports it.
/// For an update, `prior_content` is what the file held when the payloads
/// were built, or nothing if it could not be read.
#[derive(Debug, Clone, PartialEq)]
pub enum FileChange {
    Add { content: String },
    Update { move_path: Option<String>, new_content: String, prior_content: Option<String> },
    Delete,
}

/// The tool name a change is reported under: an addition is a `Write`, an
/// update is an `Edit`.
pub open spec fn change_tool_name(c: FileChange) -> Seq<char> {
    match c {
        FileChange::Add { .. } => "Write"@,
        FileChange::Update { .. } => "Edit"@,
        FileChange::Delete => arbitrary(),
    }
}

/// The tool input a change is reported with. An addition carries the path
/// and the new content. An update carries the destination path (the move
/// target if the patch moves the file), what the file held (empty if it
/// could not be read), and the new content.
pub open spec fn change_tool_input(path: Seq<char>, c: FileChange) -> JsonVal {
    match c {
        FileChange::Add { content } => JsonVal::Obj(
            seq![
                ("file_path"@, JsonVal::Str(path)),
                ("content"@, JsonVal::Str(content@)),
            ],
        ),
        FileChange::Update { move_path, new_content, prior_content } => JsonVal::Obj(
            seq![
                (
                    "file_path"@,
                    JsonVal::Str(
                        match move_path {
                            Some(p) => p@,
                            None => path,
                        },
                    ),
                ),
                (
                    "old_string"@,
                    JsonVal::Str(
                        match prior_content {
                            Some(s) => s@,
                            None => Seq::empty(),
                        },
                    ),
                ),
                ("new_string"@, JsonVal::Str(new_content@)),
            ],
        ),
        FileChange::Delete => arbitrary(),
    }
}

/// The payload one non-delete change yields.
pub open spec fn change_payload(ctx: HookContextView, path: Seq<char>, c: FileChange)
    -> ToolHookPayloadView {
    ToolHookPayloadView {
        session_id: ctx.session_id,
        transcript_path: ctx.transcript_path,
        hook_event_name: ctx.hook_event_name,
        tool_name: change_tool_name(c),
        tool_input: change_tool_input(path, c),
    }
}

/// The payloads a list of changes yields, in the list's order: one per
/// addition or update, none for a deletion.
pub open spec fn apply_patch_payloads(ctx: HookContextView, changes: Seq<(String, FileChange)>)
    -> Seq<ToolHookPayloadView>
    decreases changes.len(),
{
    if changes.len() <= 0 {
        Seq::empty()
    } else {
        let rest = apply_patch_payloads(ctx, changes.drop_last());
        let last = changes.last();
        if last.1 is Delete {
            rest
        } else {
            rest.push(change_payload(ctx, last.0@, last.1))
        }
    }
}

fn build_change_payload(context: &HookContext, path: &String, change: &FileChange) -> (r:
    ToolHookPayload)
    requires
        !(change is Delete),
    ensures
        r@ == change_payload(context@, path@, *change),
{
    match change {
        FileChange::Add { content } => {
            let mut m: Vec<(String, JsonValue)> = Vec::new();
            m.push(("file_path".to_owned(), JsonValue::Str(path.clone())));
            m.push(("content".to_owned(), JsonValue::Str(content.clone())));
            proof {
                crate::json::lemma_jval_pairs_props(m@);
                assert(jval_pairs(m@) =~= change_tool_input(path@, *change)->Obj_0);
            }
            ToolHookPayload {
                session_id: context.session_id.clone(),
                transcript_path: context.transcript_path.clone(),
                hook_event_name: context.hook_event_name.clone(),
                tool_name: "Write".to_owned(),
                tool_input: JsonValue::Obj(m),
            }
        },
        FileChange::Update { move_path, new_content, prior_content } => {
            let file_path: String = match move_path {
                Some(p) => p.clone(),
                None => path.clone(),
            };
            let old_string: String = match prior_content {
                Some(s) => s.clone(),
                None => String::new(),
            };
            let mut m: Vec<(String, JsonValue)> = Vec::new();
            m.push(("file_path".to_owned(), JsonValue::Str(file_path)));
            m.push(("old_string".to_owned(), JsonValue::Str(old_string)));
            m.push(("new_string".to_owned(), JsonValue::Str(new_content.clone())));
            proof {
                crate::json::lemma_jval_pairs_props(m@);
                assert(jval_pairs(m@) =~= change_tool_input(path@, *change)->Obj_0);
            }
            ToolHookPayload {
                session_id: context.session_id.clone(),
                transcript_path: context.transcript_path.clone(),
                hook_event_name: context.hook_event_name.clone(),
                tool_name: "Edit".to_owned(),
                tool_input: JsonValue::Obj(m),
            }
        },
        FileChange::Delete => vstd::pervasive::unreached(),
    }
}

/// Build the per-file payloads for a verified patch: one per addition or
/// update, in the patch's order; deletions yield none.
pub fn build_apply_patch_hook_payloads(
    context: &HookContext,
    changes: &Vec<(String, FileChange)>,
) -> (r: Vec<ToolHookPayload>)
    ensures
        payloads_view(r@) == apply_patch_payloads(context@, changes@),
{
    let mut r: Vec<ToolHookPayload> = Vec::new();
    let n = changes.len();
    let mut i: usize = 0;
    while i < n
        invariant
            0 <= i <= n,
            n == changes@.len(),
            payloads_view(r@) =~= apply_patch_payloads(context@, changes@.subrange(0, i as int)),
        decreases n - i,
    {
        let is_delete = match &changes[i].1 {
            FileChange::Delete => true,
            _ => false,
        };
        if !is_delete {
            let p = build_change_payload(context, &changes[i].0, &changes[i].1);
            r.push(p);
        }
        proof {
            assert(changes@.subrange(0, i + 1).drop_last() =~= changes@.subrange(0, i as int));
            assert(changes@.subrange(0, i + 1).last() == changes@[i as int]);
            assert(payloads_view(r@) =~= apply_patch_payloads(
                context@,
                changes@.subrange(0, i + 1),
            ));
        }
        i = i + 1;
    }
    proof {
        assert(changes@.subrange(0, n as int) =~= changes@);
    }
    r
}

/// Build the payloads for the post event from the payloads of the pre
/// event: the same payloads, in the same order, each with its lifecycle
/// event name replaced.
pub fn build_post_tool_payloads(pre: &Vec<ToolHookPayload>, hook_event_name: &str) -> (r: Vec<
    ToolHookPayload,
>)
    ensures
        r@.len() == pre@.len(),
        forall|i: int|
            0 <= i < pre@.len() ==> r@[i]@ == (ToolHookPayloadView {
                hook_event_name: hook_event_name@,
                ..pre@[i]@
            }),
{
    let mut r: Vec<ToolHookPayload> = Vec::new();
    let n = pre.len();
    let mut i: usize = 0;
    while i < n
        invariant
            0 <= i <= n,
            n == pre@.len(),
            r@.len() == i,
            forall|k: int|
                0 <= k < i ==> r@[k]@ == (ToolHookPayloadView {
                    hook_event_name: hook_event_name@,
                    ..pre@[k]@
                }),
        decreases n - i,
    {
        let p = pre[i].with_hook_event_name(hook_event_name);
        r.push(p);
        i = i + 1;
    }
    r
}

/// A patch of additions alone yields one payload per file, each reported
/// as a `Write`, in the patch's order.
pub proof fn lemma_apply_patch_fanout_add(ctx: HookContextView, changes: Seq<(String, FileChange)>)
    requires
        forall|i: int| 0 <= i < changes.len() ==> changes[i].1 is Add,
    ensures
        apply_patch_payloads(ctx, changes).len() == changes.len(),
        forall|i: int|
            0 <= i < changes.len() ==> apply_patch_payloads(ctx, changes)[i].tool_name
                == "Write"@,
    decreases changes.len(),
{
    if changes.len() > 0 {
        lemma_apply_patch_fanout_add(ctx, changes.drop_last());
    }
}

/// An update with prior content `x` yields a payload whose `old_string`
/// member holds exactly `x`.
pub proof fn lemma_apply_patch_update_old_string(
    ctx: HookContextView,
    path: String,
    move_path: Option<String>,
    new_content: String,
    x: String,
)
    ensures
        ({
            let c = FileChange::Update {
                move_path,
                new_content,
                prior_content: Some(x),
            };
            let ps = apply_patch_payloads(ctx, seq![(path, c)]);
            ps.len() == 1 && ps[0].tool_name == "Edit"@ && ps[0].tool_input->Obj_0[1] == (
                "old_string"@,
                JsonVal::Str(x@),
            )
        }),
{
    let c = FileChange::Update { move_path, new_content, prior_content: Some(x) };
    let s = seq![(path, c)];
    assert(s.drop_last() =~= Seq::<(String, FileChange)>::empty());
    assert(apply_patch_payloads(ctx, s.drop_last()) =~= Seq::<ToolHookPayloadView>::empty());
    assert(s.last() == (path, c));
}

} // verus!
