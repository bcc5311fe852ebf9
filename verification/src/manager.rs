//! Running the configured hooks of one lifecycle event, in order.
//!
//! For each event the manager pairs every payload with every configured
//! hook, payloads outermost, hooks in declaration order, and runs the pairs
//! whose matcher accepts the payload's subject. Running a child process is
//! I/O, so the iteration is a step machine: `next` says which child to run
//! (or that the run is over), the embedding application runs it, and
//! `report` takes the interpreted result and says whether the run is over.
//! For the pre event the first blocking decision ends the run at once; for
//! the post event failures are swallowed and every matching pair is
//! visited; for the session-start and user-prompt-submit events the first
//! failure ends the run, and decisions are ignored.

use vstd::prelude::*;
use crate::config::HookCommandConfig;
use crate::config::HooksConfig;
use crate::json::json_text;
use crate::matcher::matcher_accepts;
use crate::matcher::matcher_matches;
use crate::payload::SessionStartHookPayload;
use crate::payload::ToolHookPayload;
use crate::payload::UserPromptSubmitHookPayload;
use crate::payload::tool_payload_json;
use crate::payload::session_payload_json;
use crate::payload::prompt_payload_json;
use crate::runner::HookCall;
use crate::runner::HookDecision;
use crate::runner::HookDecisionKind;
use crate::runner::HookDecisionWithContext;
use crate::runner::HookError;
use crate::runner::HookRunner;

verus! {

broadcast use vstd::seq::group_seq_axioms, vstd::std_specs::vec::group_vec_axioms;

/// The four points where hooks run.
#[derive(Debug, Clone, Copy, PartialEq, Eq, Structural)]
pub enum LifecycleEvent {
    PreToolUse,
    PostToolUse,
    SessionStart,
    UserPromptSubmit,
}

/// Whether a blocking decision ends the run: only the pre event asks.
pub open spec fn stops_on_block(ev: LifecycleEvent) -> bool {
    ev is PreToolUse
}

/// Whether a failed child is swallowed and the run goes on: only for the
/// post event, which is fire-and-forget.
pub open spec fn swallows_errors(ev: LifecycleEvent) -> bool {
    ev is PostToolUse
}

/// One unit of work for a run: the subject its matchers are tested
/// against, and the payload text for the child's standard input.
#[derive(Debug, Clone)]
pub struct HookItem {
    pub subject: String,
    pub input: String,
}

/// How a run ends: the first blocking decision with its hook for the pre
/// event, nothing for the other events, or the error that ended it.
pub type RunOutcome = Result<Option<HookDecisionWithContext>, HookError>;

/// What the driver should do next: run one child, or stop with the
/// outcome.
#[derive(Debug)]
pub enum NextStep {
    Run(HookCall),
    Done(RunOutcome),
}

/// Whether the hook at `hi` fires for the item at `ii`.
pub open spec fn pair_matches(
    hooks: Seq<HookCommandConfig>,
    items: Seq<HookItem>,
    ii: int,
    hi: int,
) -> bool {
    matcher_accepts(hooks[hi]@.matcher, items[ii].subject@)
}

/// Where a scan from the cursor lands: at a runnable pair, at a matching
/// pair whose command is empty (an error unless the event swallows
/// errors), or past the end.
pub enum ScanStep {
    RunAt { ii: int, hi: int },
    EmptyAt { ii: int, hi: int },
    Exhausted,
}

/// Scan from the cursor, payloads outermost, for the next pair to act on:
/// pairs whose matcher does not accept are skipped, a matching pair with
/// an empty command is skipped too when the event swallows errors, and
/// anything else stops the scan.
pub open spec fn scan(
    hooks: Seq<HookCommandConfig>,
    items: Seq<HookItem>,
    ev: LifecycleEvent,
    ii: int,
    hi: int,
) -> ScanStep
    decreases items.len() - ii, hooks.len() - hi,
{
    if ii < 0 || hi < 0 || ii >= items.len() {
        ScanStep::Exhausted
    } else if hi >= hooks.len() {
        scan(hooks, items, ev, ii + 1, 0)
    } else if !pair_matches(hooks, items, ii, hi) {
        scan(hooks, items, ev, ii, hi + 1)
    } else if hooks[hi]@.command.len() == 0 {
        if swallows_errors(ev) {
            scan(hooks, items, ev, ii, hi + 1)
        } else {
            ScanStep::EmptyAt { ii, hi }
        }
    } else {
        ScanStep::RunAt { ii, hi }
    }
}

/// An in-progress run of one lifecycle event's hooks. The driver calls
/// `next`, runs the child it is handed, reports the interpreted result,
/// and repeats until either says the run is over.
pub struct HookRun<'a> {
    pub hooks: &'a Vec<HookCommandConfig>,
    pub items: Vec<HookItem>,
    pub default_timeout_ms: u64,
    pub event: LifecycleEvent,
    pub ii: usize,
    pub hi: usize,
    pub awaiting: bool,
    pub finished: bool,
}

impl<'a> HookRun<'a> {
    /// The cursor stays within bounds, and while a child runs the cursor
    /// names the pair it runs for.
    pub open spec fn wf(self) -> bool {
        &&& self.ii <= self.items@.len()
        &&& (self.awaiting ==> {
            &&& self.ii < self.items@.len()
            &&& self.hi < self.hooks@.len()
            &&& pair_matches(self.hooks@, self.items@, self.ii as int, self.hi as int)
            &&& self.hooks@[self.hi as int]@.command.len() > 0
            &&& !self.finished
        })
    }

    /// Start a run at the first pair.
    pub fn new(
        hooks: &'a Vec<HookCommandConfig>,
        items: Vec<HookItem>,
        default_timeout_ms: u64,
        event: LifecycleEvent,
    ) -> (r: Self)
        ensures
            r.wf(),
            r.hooks == hooks,
            r.items == items,
            r.default_timeout_ms == default_timeout_ms,
            r.event == event,
            r.ii == 0,
            r.hi == 0,
            !r.awaiting,
            !r.finished,
    {
        HookRun { hooks, items, default_timeout_ms, event, ii: 0, hi: 0, awaiting: false, finished: false }
    }

    /// Hand out the next child to run, as the scan from the cursor finds
    /// it, or end the run: with nothing when the pairs are exhausted, or
    /// with `EmptyCommand` when a matching hook has no executable and the
    /// event does not swallow errors.
    pub fn next(&mut self) -> (r: NextStep)
        requires
            old(self).wf(),
            !old(self).finished,
            !old(self).awaiting,
        ensures
            final(self).wf(),
            final(self).hooks == old(self).hooks,
            final(self).items == old(self).items,
            final(self).default_timeout_ms == old(self).default_timeout_ms,
            final(self).event == old(self).event,
            (match scan(
                old(self).hooks@,
                old(self).items@,
                old(self).event,
                old(self).ii as int,
                old(self).hi as int,
            ) {
                ScanStep::Exhausted => r == NextStep::Done(RunOutcome::Ok(None))
                    && final(self).finished && !final(self).awaiting,
                ScanStep::EmptyAt { ii, hi } => r == NextStep::Done(
                    RunOutcome::Err(HookError::EmptyCommand),
                ) && final(self).finished && !final(self).awaiting,
                ScanStep::RunAt { ii, hi } => r matches NextStep::Run(c) && {
                    &&& c.command.deep_view() == old(self).hooks@[hi]@.command
                    &&& c.input@ == old(self).items@[ii].input@
                    &&& c.timeout_ms == (match old(self).hooks@[hi]@.timeout_ms {
                        Some(t) => t,
                        None => old(self).default_timeout_ms,
                    })
                    &&& final(self).ii == ii
                    &&& final(self).hi == hi
                    &&& final(self).awaiting
                    &&& !final(self).finished
                },
            }),
    {
        let n_items = self.items.len();
        let n_hooks = self.hooks.len();
        let mut ci: usize = self.ii;
        let mut ch: usize = self.hi;
        loop
            invariant
                ci <= n_items,
                n_items == self.items@.len(),
                n_hooks == self.hooks@.len(),
                self.wf(),
                !self.finished,
                !self.awaiting,
                self.hooks == old(self).hooks,
                self.items == old(self).items,
                self.default_timeout_ms == old(self).default_timeout_ms,
                self.event == old(self).event,
                scan(self.hooks@, self.items@, self.event, old(self).ii as int, old(self).hi as int)
                    == scan(self.hooks@, self.items@, self.event, ci as int, ch as int),
            decreases n_items - ci, n_hooks - ch,
        {
            if ci >= n_items {
                self.finished = true;
                return NextStep::Done(Ok(None));
            } else if ch >= n_hooks {
                ci = ci + 1;
                ch = 0;
            } else {
                let fires = matcher_matches(
                    self.hooks[ch].matcher.as_ref(),
                    self.items[ci].subject.as_str(),
                );
                if !fires {
                    ch = ch + 1;
                } else if self.hooks[ch].command.len() == 0 {
                    let swallow = match self.event {
                        LifecycleEvent::PostToolUse => true,
                        _ => false,
                    };
                    if swallow {
                        ch = ch + 1;
                    } else {
                        self.finished = true;
                        return NextStep::Done(Err(HookError::EmptyCommand));
                    }
                } else {
                    self.ii = ci;
                    self.hi = ch;
                    self.awaiting = true;
                    let runner = HookRunner::new(self.default_timeout_ms);
                    let input = self.items[ci].input.clone();
                    let mut command: Vec<String> = Vec::new();
                    let ncmd = self.hooks[ch].command.len();
                    let mut k: usize = 0;
                    while k < ncmd
                        invariant
                            0 <= k <= ncmd,
                            ncmd == self.hooks@[ch as int].command@.len(),
                            ch < self.hooks@.len(),
                            command@.len() == k,
                            forall|q: int|
                                0 <= q < k ==> command@[q]@ == self.hooks@[ch as int].command@[q]@,
                        decreases ncmd - k,
                    {
                        command.push(self.hooks[ch].command[k].clone());
                        k = k + 1;
                    }
                    proof {
                        assert(command.deep_view() =~= self.hooks@[ch as int].command.deep_view());
                    }
                    let timeout_ms = runner.effective_timeout_ms(self.hooks[ch].timeout_ms);
                    return NextStep::Run(HookCall { command, input, timeout_ms });
                }
            }
        }
    }

    /// Take the interpreted result of the child that `next` handed out.
    /// The run ends at once on a blocking decision of the pre event, and
    /// on any failure the event does not swallow; otherwise the cursor
    /// moves past the pair and the driver calls `next` again.
    pub fn report(&mut self, result: Result<HookDecision, HookError>) -> (r: Option<RunOutcome>)
        requires
            old(self).wf(),
            old(self).awaiting,
        ensures
            final(self).wf(),
            final(self).hooks == old(self).hooks,
            final(self).items == old(self).items,
            final(self).default_timeout_ms == old(self).default_timeout_ms,
            final(self).event == old(self).event,
            (match result {
                Err(e) => if swallows_errors(old(self).event) {
                    r is None && !final(self).awaiting && !final(self).finished && final(self).ii
                        == old(self).ii && final(self).hi == old(self).hi + 1
                } else {
                    r == Some(RunOutcome::Err(e)) && final(self).finished && !final(self).awaiting
                },
                Ok(d) => if stops_on_block(old(self).event) && d.decision == Some(
                    HookDecisionKind::Block,
                ) {
                    r matches Some(o) && o matches Ok(w) && w matches Some(ctx) && ctx.decision
                        == d && ctx.hook@ == old(self).hooks@[old(self).hi as int]@
                        && final(self).finished && !final(self).awaiting
                } else {
                    r is None && !final(self).awaiting && !final(self).finished && final(self).ii
                        == old(self).ii && final(self).hi == old(self).hi + 1
                },
            }),
    {
        let nh = self.hooks.len();
        self.awaiting = false;
        match result {
            Err(e) => {
                let swallow = match self.event {
                    LifecycleEvent::PostToolUse => true,
                    _ => false,
                };
                if swallow {
                    self.hi = self.hi + 1;
                    None
                } else {
                    self.finished = true;
                    Some(Err(e))
                }
            },
            Ok(d) => {
                let stops = match self.event {
                    LifecycleEvent::PreToolUse => true,
                    _ => false,
                };
                let blocks = match d.decision {
                    Some(HookDecisionKind::Block) => true,
                    _ => false,
                };
                if stops && blocks {
                    self.finished = true;
                    let hook = self.hooks[self.hi].duplicate();
                    Some(Ok(Some(HookDecisionWithContext { decision: d, hook })))
                } else {
                    self.hi = self.hi + 1;
                    None
                }
            },
        }
    }
}

/// Owns the configuration and the runner's default timeout, and starts the
/// run of each lifecycle event.
pub struct HooksManager {
    pub config: HooksConfig,
    pub runner: HookRunner,
}

fn tool_items(payloads: &Vec<ToolHookPayload>) -> (r: Vec<HookItem>)
    ensures
        r@.len() == payloads@.len(),
        forall|i: int|
            0 <= i < payloads@.len() ==> r@[i].subject@ == payloads@[i]@.tool_name && r@[i].input@
                == json_text(tool_payload_json(payloads@[i]@)),
{
    let mut r: Vec<HookItem> = Vec::new();
    let n = payloads.len();
    let mut i: usize = 0;
    while i < n
        invariant
            0 <= i <= n,
            n == payloads@.len(),
            r@.len() == i,
            forall|k: int|
                0 <= k < i ==> r@[k].subject@ == payloads@[k]@.tool_name && r@[k].input@
                    == json_text(tool_payload_json(payloads@[k]@)),
        decreases n - i,
    {
        let json = payloads[i].to_json();
        let input = crate::json::to_text(&json);
        r.push(HookItem { subject: payloads[i].tool_name.clone(), input });
        i = i + 1;
    }
    r
}

impl HooksManager {
    /// A manager over a configuration, with the default child timeout.
    pub fn new(config: HooksConfig) -> (r: Self)
        ensures
            r.config == config,
            r.runner.timeout_ms == crate::DEFAULT_HOOK_TIMEOUT_MS,
    {
        HooksManager { config, runner: HookRunner::new(crate::DEFAULT_HOOK_TIMEOUT_MS) }
    }

    /// Start the pre-tool-use run: one item per payload, in order, its
    /// subject the payload's tool name. The first blocking decision ends
    /// the run.
    pub fn run_pre_tool_use<'a>(&'a self, payloads: &Vec<ToolHookPayload>) -> (r: HookRun<'a>)
        ensures
            r.wf(),
            r.hooks == &self.config.pre_tool_use,
            r.event == LifecycleEvent::PreToolUse,
            r.ii == 0 && r.hi == 0 && !r.awaiting && !r.finished,
            r.default_timeout_ms == self.runner.timeout_ms,
            r.items@.len() == payloads@.len(),
            forall|i: int|
                0 <= i < payloads@.len() ==> r.items@[i].subject@ == payloads@[i]@.tool_name
                    && r.items@[i].input@ == json_text(tool_payload_json(payloads@[i]@)),
    {
        HookRun::new(
            &self.config.pre_tool_use,
            tool_items(payloads),
            self.runner.timeout_ms,
            LifecycleEvent::PreToolUse,
        )
    }

    /// Start the post-tool-use run: every matching pair is visited, all
    /// decisions are ignored, and failures are swallowed.
    pub fn run_post_tool_use<'a>(&'a self, payloads: &Vec<ToolHookPayload>) -> (r: HookRun<'a>)
        ensures
            r.wf(),
            r.hooks == &self.config.post_tool_use,
            r.event == LifecycleEvent::PostToolUse,
            r.ii == 0 && r.hi == 0 && !r.awaiting && !r.finished,
            r.default_timeout_ms == self.runner.timeout_ms,
            r.items@.len() == payloads@.len(),
            forall|i: int|
                0 <= i < payloads@.len() ==> r.items@[i].subject@ == payloads@[i]@.tool_name
                    && r.items@[i].input@ == json_text(tool_payload_json(payloads@[i]@)),
    {
        HookRun::new(
            &self.config.post_tool_use,
            tool_items(payloads),
            self.runner.timeout_ms,
            LifecycleEvent::PostToolUse,
        )
    }

    /// Start the session-start run: one item, matched against the source
    /// label; decisions are ignored and the first failure ends the run.
    pub fn run_session_start<'a>(&'a self, payload: &SessionStartHookPayload) -> (r: HookRun<'a>)
        ensures
            r.wf(),
            r.hooks == &self.config.session_start,
            r.event == LifecycleEvent::SessionStart,
            r.ii == 0 && r.hi == 0 && !r.awaiting && !r.finished,
            r.default_timeout_ms == self.runner.timeout_ms,
            r.items@.len() == 1,
            r.items@[0].subject@ == payload.source@,
            r.items@[0].input@ == json_text(session_payload_json(*payload)),
    {
        let json = payload.to_json();
        let input = crate::json::to_text(&json);
        let mut items: Vec<HookItem> = Vec::new();
        items.push(HookItem { subject: payload.source.clone(), input });
        HookRun::new(
            &self.config.session_start,
            items,
            self.runner.timeout_ms,
            LifecycleEvent::SessionStart,
        )
    }

    /// Start the user-prompt-submit run: one item, matched against the
    /// verbatim prompt; decisions are ignored and the first failure ends
    /// the run.
    pub fn run_user_prompt_submit<'a>(&'a self, payload: &UserPromptSubmitHookPayload) -> (r:
        HookRun<'a>)
        ensures
            r.wf(),
            r.hooks == &self.config.user_prompt_submit,
            r.event == LifecycleEvent::UserPromptSubmit,
            r.ii == 0 && r.hi == 0 && !r.awaiting && !r.finished,
            r.default_timeout_ms == self.runner.timeout_ms,
            r.items@.len() == 1,
            r.items@[0].subject@ == payload.prompt@,
            r.items@[0].input@ == json_text(prompt_payload_json(*payload)),
    {
        let json = payload.to_json();
        let input = crate::json::to_text(&json);
        let mut items: Vec<HookItem> = Vec::new();
        items.push(HookItem { subject: payload.prompt.clone(), input });
        HookRun::new(
            &self.config.user_prompt_submit,
            items,
            self.runner.timeout_ms,
            LifecycleEvent::UserPromptSubmit,
        )
    }
}

/// Whether the pair `(x, y)` comes at or after the cursor `(ii, hi)` in
/// the payload-outermost order.
pub open spec fn pair_at_or_after(ii: int, hi: int, x: int, y: int) -> bool {
    x > ii || (x == ii && y >= hi)
}

/// Whether the pair `(x, y)` comes strictly before `(a, b)`.
pub open spec fn pair_before(x: int, y: int, a: int, b: int) -> bool {
    x < a || (x == a && y < b)
}

/// Whether the scan may pass the pair over: its matcher does not accept,
/// or its command is empty and the event swallows errors.
pub open spec fn pair_passed_over(
    hooks: Seq<HookCommandConfig>,
    items: Seq<HookItem>,
    ev: LifecycleEvent,
    x: int,
    y: int,
) -> bool {
    !pair_matches(hooks, items, x, y) || (hooks[y]@.command.len() == 0 && swallows_errors(ev))
}

/// The scan stops at the earliest pair, in the payload-outermost order
/// from the cursor, that it may not pass over; every pair before it is
/// passed over. With an empty configuration or no items it finds nothing.
pub proof fn lemma_scan_finds_first(
    hooks: Seq<HookCommandConfig>,
    items: Seq<HookItem>,
    ev: LifecycleEvent,
    ii: int,
    hi: int,
)
    requires
        0 <= ii,
        0 <= hi,
    ensures
        (match scan(hooks, items, ev, ii, hi) {
            ScanStep::RunAt { ii: a, hi: b } => {
                &&& ii <= a < items.len()
                &&& 0 <= b < hooks.len()
                &&& pair_at_or_after(ii, hi, a, b)
                &&& pair_matches(hooks, items, a, b)
                &&& hooks[b]@.command.len() > 0
                &&& forall|x: int, y: int|
                    0 <= x < items.len() && 0 <= y < hooks.len() && pair_at_or_after(ii, hi, x, y)
                        && pair_before(x, y, a, b) ==> pair_passed_over(hooks, items, ev, x, y)
            },
            ScanStep::EmptyAt { ii: a, hi: b } => {
                &&& ii <= a < items.len()
                &&& 0 <= b < hooks.len()
                &&& pair_at_or_after(ii, hi, a, b)
                &&& pair_matches(hooks, items, a, b)
                &&& hooks[b]@.command.len() == 0
                &&& !swallows_errors(ev)
                &&& forall|x: int, y: int|
                    0 <= x < items.len() && 0 <= y < hooks.len() && pair_at_or_after(ii, hi, x, y)
                        && pair_before(x, y, a, b) ==> pair_passed_over(hooks, items, ev, x, y)
            },
            ScanStep::Exhausted => forall|x: int, y: int|
                0 <= x < items.len() && 0 <= y < hooks.len() && pair_at_or_after(ii, hi, x, y)
                    ==> pair_passed_over(hooks, items, ev, x, y),
        }),
    decreases items.len() - ii, hooks.len() - hi,
{
    if ii >= items.len() {
    } else if hi >= hooks.len() {
        lemma_scan_finds_first(hooks, items, ev, ii + 1, 0);
        assert forall|x: int, y: int|
            0 <= x < items.len() && 0 <= y < hooks.len() && pair_at_or_after(
                ii,
                hi,
                x,
                y,
            ) implies pair_at_or_after(ii + 1, 0, x, y) by {}
    } else if !pair_matches(hooks, items, ii, hi) {
        lemma_scan_finds_first(hooks, items, ev, ii, hi + 1);
        assert(pair_passed_over(hooks, items, ev, ii, hi));
        assert forall|x: int, y: int|
            0 <= x < items.len() && 0 <= y < hooks.len() && pair_at_or_after(ii, hi, x, y) && !(x
                == ii && y == hi) implies pair_at_or_after(ii, hi + 1, x, y) by {}
    } else if hooks[hi]@.command.len() == 0 && swallows_errors(ev) {
        lemma_scan_finds_first(hooks, items, ev, ii, hi + 1);
        assert(pair_passed_over(hooks, items, ev, ii, hi));
        assert forall|x: int, y: int|
            0 <= x < items.len() && 0 <= y < hooks.len() && pair_at_or_after(ii, hi, x, y) && !(x
                == ii && y == hi) implies pair_at_or_after(ii, hi + 1, x, y) by {}
    } else {
    }
}

/// The whole of one run, as a function of what each pair's child would
/// answer: scan for the next pair to act on; on an error stop with it
/// (or pass the pair over, when the event swallows errors); on a blocking
/// decision of an event that stops on blocks, stop with the decision and
/// its hook; otherwise go on past the pair. `next` and `report` together
/// perform exactly one unfolding of this function.
pub open spec fn run_outcome_model(
    hooks: Seq<HookCommandConfig>,
    items: Seq<HookItem>,
    ev: LifecycleEvent,
    answers: Map<(int, int), Result<HookDecision, HookError>>,
    ii: int,
    hi: int,
) -> RunOutcome
    decreases items.len() - ii, hooks.len() - hi,
    via run_outcome_model_dec
{
    match scan(hooks, items, ev, ii, hi) {
        ScanStep::Exhausted => Ok(None),
        ScanStep::EmptyAt { .. } => Err(HookError::EmptyCommand),
        ScanStep::RunAt { ii: a, hi: b } => {
            if !pair_at_or_after(ii, hi, a, b) {
                // Never reached: a scan stops at or after its cursor. The
                // branch keeps the recursion visibly well-founded.
                arbitrary()
            } else {
                match answers[(a, b)] {
                    Err(e) => if swallows_errors(ev) {
                        run_outcome_model(hooks, items, ev, answers, a, b + 1)
                    } else {
                        Err(e)
                    },
                    Ok(d) => if stops_on_block(ev) && d.decision == Some(HookDecisionKind::Block) {
                        Ok(Some(HookDecisionWithContext { decision: d, hook: hooks[b] }))
                    } else {
                        run_outcome_model(hooks, items, ev, answers, a, b + 1)
                    },
                }
            }
        },
    }
}

#[via_fn]
proof fn run_outcome_model_dec(
    hooks: Seq<HookCommandConfig>,
    items: Seq<HookItem>,
    ev: LifecycleEvent,
    answers: Map<(int, int), Result<HookDecision, HookError>>,
    ii: int,
    hi: int,
) {
    match scan(hooks, items, ev, ii, hi) {
        ScanStep::RunAt { ii: a, hi: b } => {
            if 0 <= ii && 0 <= hi {
                lemma_scan_finds_first(hooks, items, ev, ii, hi);
            } else {
                lemma_scan_step_bounds(hooks, items, ev, ii, hi);
            }
        },
        _ => {},
    }
}

/// Wherever a scan stops, the pair it stops at is within bounds.
proof fn lemma_scan_step_bounds(
    hooks: Seq<HookCommandConfig>,
    items: Seq<HookItem>,
    ev: LifecycleEvent,
    ii: int,
    hi: int,
)
    ensures
        (match scan(hooks, items, ev, ii, hi) {
            ScanStep::RunAt { ii: a, hi: b } => ii <= a < items.len() && 0 <= b < hooks.len()
                && pair_at_or_after(ii, hi, a, b),
            ScanStep::EmptyAt { ii: a, hi: b } => ii <= a < items.len() && 0 <= b < hooks.len()
                && pair_at_or_after(ii, hi, a, b),
            ScanStep::Exhausted => true,
        }),
    decreases items.len() - ii, hooks.len() - hi,
{
    if ii < 0 || hi < 0 || ii >= items.len() {
    } else if hi >= hooks.len() {
        lemma_scan_step_bounds(hooks, items, ev, ii + 1, 0);
    } else if !pair_matches(hooks, items, ii, hi) {
        lemma_scan_step_bounds(hooks, items, ev, ii, hi + 1);
    } else if hooks[hi]@.command.len() == 0 && swallows_errors(ev) {
        lemma_scan_step_bounds(hooks, items, ev, ii, hi + 1);
    } else {
    }
}

/// Whether the hook at a pair would actually run there: its matcher
/// accepts the item's subject and its command names an executable.
pub open spec fn pair_runnable(
    hooks: Seq<HookCommandConfig>,
    items: Seq<HookItem>,
    x: int,
    y: int,
) -> bool {
    &&& 0 <= x < items.len()
    &&& 0 <= y < hooks.len()
    &&& pair_matches(hooks, items, x, y)
    &&& hooks[y]@.command.len() > 0
}

/// First block wins. In a pre-tool-use run, if the hook at `(a, b)` is
/// the earliest runnable pair, payloads outermost, whose answer blocks -
/// no hook has an empty command, and every runnable pair before `(a, b)`
/// answers with a non-blocking decision - then the run returns exactly
/// that pair's decision, paired with that pair's hook. Pairs after
/// `(a, b)` contribute nothing, whatever their answers.
pub proof fn lemma_first_block_wins(
    hooks: Seq<HookCommandConfig>,
    items: Seq<HookItem>,
    answers: Map<(int, int), Result<HookDecision, HookError>>,
    a: int,
    b: int,
)
    requires
        forall|y: int| 0 <= y < hooks.len() ==> (#[trigger] hooks[y])@.command.len() > 0,
        pair_runnable(hooks, items, a, b),
        answers[(a, b)] matches Ok(d) && d.decision == Some(HookDecisionKind::Block),
        forall|x: int, y: int|
            pair_runnable(hooks, items, x, y) && pair_before(x, y, a, b) ==> (#[trigger] answers[
                (x, y)
            ] matches Ok(d) && d.decision != Some(HookDecisionKind::Block)),
    ensures
        run_outcome_model(hooks, items, LifecycleEvent::PreToolUse, answers, 0, 0) == RunOutcome::Ok(
            Some(
                HookDecisionWithContext {
                    decision: answers[(a, b)]->Ok_0,
                    hook: hooks[b],
                },
            ),
        ),
{
    lemma_first_block_wins_from(hooks, items, answers, a, b, 0, 0);
}

/// The inductive step behind `lemma_first_block_wins`: from any cursor at
/// or before the blocking pair, the run reaches it and stops there.
proof fn lemma_first_block_wins_from(
    hooks: Seq<HookCommandConfig>,
    items: Seq<HookItem>,
    answers: Map<(int, int), Result<HookDecision, HookError>>,
    a: int,
    b: int,
    ii: int,
    hi: int,
)
    requires
        forall|y: int| 0 <= y < hooks.len() ==> (#[trigger] hooks[y])@.command.len() > 0,
        pair_runnable(hooks, items, a, b),
        answers[(a, b)] matches Ok(d) && d.decision == Some(HookDecisionKind::Block),
        forall|x: int, y: int|
            pair_runnable(hooks, items, x, y) && pair_before(x, y, a, b) ==> (#[trigger] answers[
                (x, y)
            ] matches Ok(d) && d.decision != Some(HookDecisionKind::Block)),
        0 <= ii,
        0 <= hi,
        pair_at_or_after(ii, hi, a, b),
    ensures
        run_outcome_model(hooks, items, LifecycleEvent::PreToolUse, answers, ii, hi)
            == RunOutcome::Ok(
            Some(
                HookDecisionWithContext {
                    decision: answers[(a, b)]->Ok_0,
                    hook: hooks[b],
                },
            ),
        ),
    decreases items.len() - ii, hooks.len() - hi,
{
    let ev = LifecycleEvent::PreToolUse;
    lemma_scan_finds_first(hooks, items, ev, ii, hi);
    match scan(hooks, items, ev, ii, hi) {
        ScanStep::Exhausted => {
            // Impossible: the blocking pair is at or after the cursor and
            // runnable, so the scan cannot run out before it.
            assert(pair_runnable(hooks, items, a, b));
            assert(pair_passed_over(hooks, items, ev, a, b));
            assert(false);
        },
        ScanStep::EmptyAt { ii: x, hi: y } => {
            // Impossible: no hook has an empty command.
            assert(hooks[y]@.command.len() == 0);
            assert(false);
        },
        ScanStep::RunAt { ii: x, hi: y } => {
            if x == a && y == b {
                assert(run_outcome_model(hooks, items, ev, answers, ii, hi) == RunOutcome::Ok(
                    Some(
                        HookDecisionWithContext {
                            decision: answers[(a, b)]->Ok_0,
                            hook: hooks[b],
                        },
                    ),
                ));
            } else {
                // The scan stopped before the blocking pair: that pair is
                // runnable, answers without blocking, and the run goes on
                // just past it.
                assert(pair_at_or_after(ii, hi, x, y));
                if pair_before(a, b, x, y) {
                    assert(pair_passed_over(hooks, items, ev, a, b));
                    assert(false);
                }
                assert(pair_before(x, y, a, b));
                assert(pair_runnable(hooks, items, x, y));
                lemma_first_block_wins_from(hooks, items, answers, a, b, x, y + 1);
            }
        },
    }
}

/// Fire-and-forget. A post-tool-use run returns nothing and fails with
/// nothing, whatever every child answers: failures are swallowed and
/// decisions are ignored, so the run always ends quietly.
pub proof fn lemma_post_run_never_fails(
    hooks: Seq<HookCommandConfig>,
    items: Seq<HookItem>,
    answers: Map<(int, int), Result<HookDecision, HookError>>,
    ii: int,
    hi: int,
)
    requires
        0 <= ii,
        0 <= hi,
    ensures
        run_outcome_model(hooks, items, LifecycleEvent::PostToolUse, answers, ii, hi) == RunOutcome::Ok(
            None,
        ),
    decreases items.len() - ii, hooks.len() - hi,
{
    let ev = LifecycleEvent::PostToolUse;
    lemma_scan_finds_first(hooks, items, ev, ii, hi);
    match scan(hooks, items, ev, ii, hi) {
        ScanStep::Exhausted => {},
        ScanStep::EmptyAt { .. } => {
            // Never reached: the post event swallows empty commands.
            assert(false);
        },
        ScanStep::RunAt { ii: a, hi: b } => {
            lemma_post_run_never_fails(hooks, items, answers, a, b + 1);
        },
    }
}

/// Only the pre event acts on decisions. A run of any other lifecycle
/// event never returns one: a decision, blocking or not, is ignored and
/// the run goes on.
pub proof fn lemma_other_events_ignore_decisions(
    hooks: Seq<HookCommandConfig>,
    items: Seq<HookItem>,
    ev: LifecycleEvent,
    answers: Map<(int, int), Result<HookDecision, HookError>>,
    ii: int,
    hi: int,
)
    requires
        !stops_on_block(ev),
        0 <= ii,
        0 <= hi,
    ensures
        !(run_outcome_model(hooks, items, ev, answers, ii, hi) matches Ok(w) && w is Some),
    decreases items.len() - ii, hooks.len() - hi,
{
    lemma_scan_finds_first(hooks, items, ev, ii, hi);
    match scan(hooks, items, ev, ii, hi) {
        ScanStep::Exhausted => {},
        ScanStep::EmptyAt { .. } => {},
        ScanStep::RunAt { ii: a, hi: b } => {
            lemma_other_events_ignore_decisions(hooks, items, ev, answers, a, b + 1);
        },
    }
}

/// With no configured hooks or no items, the very first scan is already
/// exhausted: the run ends at once, without any child.
pub proof fn lemma_empty_run_is_noop(
    hooks: Seq<HookCommandConfig>,
    items: Seq<HookItem>,
    ev: LifecycleEvent,
)
    requires
        hooks.len() == 0 || items.len() == 0,
    ensures
        scan(hooks, items, ev, 0, 0) is Exhausted,
    decreases items.len(),
{
    if items.len() > 0 {
        lemma_empty_scan_from(hooks, items, ev, 0);
    }
}

proof fn lemma_empty_scan_from(
    hooks: Seq<HookCommandConfig>,
    items: Seq<HookItem>,
    ev: LifecycleEvent,
    ii: int,
)
    requires
        hooks.len() == 0,
        0 <= ii,
    ensures
        scan(hooks, items, ev, ii, 0) is Exhausted,
    decreases items.len() - ii,
{
    if ii < items.len() {
        lemma_empty_scan_from(hooks, items, ev, ii + 1);
    }
}

} // verus!
