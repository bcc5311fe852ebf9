//! One hook child run: what is handed to the child and how its outcome is
//! read.
//!
//! Spawning the child, feeding its standard input and awaiting it under a
//! timeout is I/O that the embedding application performs. This module holds
//! the verified halves on either side of that call: building the call from a
//! configured command and a payload, and turning what the child did into a
//! decision or an error.

use vstd::prelude::*;
use vstd::string::StringExecFns;
use crate::config::HookCommandConfig;
use crate::json::JsonValue;
use crate::json::JsonVal;
use crate::json::jval_pairs;
use crate::parse::json_parse_spec;
use crate::text::trim_spec;

verus! {

broadcast use vstd::seq::group_seq_axioms, vstd::std_specs::vec::group_vec_axioms;

/// What a hook decided: block the tool call, or allow it.
#[derive(Debug, Clone, Copy, PartialEq, Eq, Structural)]
pub enum HookDecisionKind {
    Block,
    Allow,
}

/// The envelope a hook prints on its standard output. An absent decision is
/// treated as non-blocking.
#[derive(Debug, Clone, PartialEq)]
pub struct HookDecision {
    pub decision: Option<HookDecisionKind>,
    pub reason: Option<String>,
}

/// A decision together with the configured hook that produced it.
#[derive(Debug, Clone, PartialEq)]
pub struct HookDecisionWithContext {
    pub decision: HookDecision,
    pub hook: HookCommandConfig,
}

/// Why a hook run failed. A block is not an error; these are the transport
/// and protocol failures around the child process.
#[derive(Debug, Clone, PartialEq, Eq)]
pub enum HookError {
    /// The configured command has no executable.
    EmptyCommand,
    /// The operating system could not launch the child; carries its message.
    Spawn(String),
    /// The payload could not be encoded. The library's own encoder is total,
    /// so nothing produces this; the variant stands for callers that expect
    /// the full surface.
    SerializePayload,
    /// The child did not exit within its budget.
    Timeout,
    /// The child exited non-zero; carries its trimmed standard error.
    CommandFailed(String),
    /// The child's standard output was not UTF-8.
    InvalidUtf8,
    /// The child's standard output was not a decision envelope.
    InvalidResponse,
}

/// The text a hook failure is reported with.
pub open spec fn hook_error_message(e: HookError) -> Seq<char> {
    match e {
        HookError::EmptyCommand => "hook command is empty"@,
        HookError::Spawn(m) => "failed to spawn hook command: "@ + m@,
        HookError::SerializePayload => "failed to serialize hook payload"@,
        HookError::Timeout => "hook command timed out"@,
        HookError::CommandFailed(s) => "hook command failed: "@ + s@,
        HookError::InvalidUtf8 => "hook response was not valid UTF-8"@,
        HookError::InvalidResponse => "failed to parse hook response"@,
    }
}

impl HookError {
    /// The text this failure is reported with.
    pub fn message(&self) -> (r: String)
        ensures
            r@ == hook_error_message(*self),
    {
        match self {
            HookError::EmptyCommand => "hook command is empty".to_owned(),
            HookError::Spawn(m) => String::from_str("failed to spawn hook command: ").concat(
                m.as_str(),
            ),
            HookError::SerializePayload => "failed to serialize hook payload".to_owned(),
            HookError::Timeout => "hook command timed out".to_owned(),
            HookError::CommandFailed(s) => String::from_str("hook command failed: ").concat(
                s.as_str(),
            ),
            HookError::InvalidUtf8 => "hook response was not valid UTF-8".to_owned(),
            HookError::InvalidResponse => "failed to parse hook response".to_owned(),
        }
    }
}

/// What the embedding application observed of one child run, as plain
/// values: the spawn failed with a message, the budget ran out, or the
/// child exited. `stdout` is `None` when the bytes were not UTF-8; `stderr`
/// is decoded leniently, as only its text is ever reported.
#[derive(Debug, Clone)]
pub enum HookOutcome {
    SpawnFailed(String),
    TimedOut,
    Exited { exit_success: bool, stdout: Option<String>, stderr: String },
}

/// The view of an optional string.
pub open spec fn opt_str_view(o: Option<String>) -> Option<Seq<char>> {
    match o {
        None => None,
        Some(s) => Some(s@),
    }
}

/// What a JSON value means as a `decision` field: null is absent, `"block"`
/// and `"allow"` are the two kinds, anything else is a protocol error.
pub open spec fn kind_of_json(v: JsonVal) -> Option<Option<HookDecisionKind>> {
    match v {
        JsonVal::Null => Some(None),
        JsonVal::Str(s) => if s == "block"@ {
            Some(Some(HookDecisionKind::Block))
        } else if s == "allow"@ {
            Some(Some(HookDecisionKind::Allow))
        } else {
            None
        },
        _ => None,
    }
}

/// What a JSON value means as a `reason` field: null is absent, a string is
/// the reason, anything else is a protocol error.
pub open spec fn reason_of_json(v: JsonVal) -> Option<Option<Seq<char>>> {
    match v {
        JsonVal::Null => Some(None),
        JsonVal::Str(s) => Some(Some(s)),
        _ => None,
    }
}

/// Walk the members of the envelope object. `dec` and `rea` carry the
/// fields already seen; a second `decision` or `reason` is an error, as is
/// a value of the wrong shape; unknown members are ignored.
pub open spec fn decision_fields(
    m: Seq<(Seq<char>, JsonVal)>,
    dec: Option<Option<HookDecisionKind>>,
    rea: Option<Option<Seq<char>>>,
) -> Option<(Option<HookDecisionKind>, Option<Seq<char>>)>
    decreases m.len(),
{
    if m.len() <= 0 {
        Some(
            (
                match dec {
                    None => None,
                    Some(d) => d,
                },
                match rea {
                    None => None,
                    Some(r) => r,
                },
            ),
        )
    } else {
        let k = m[0].0;
        let v = m[0].1;
        if k == "decision"@ {
            if dec is Some {
                None
            } else {
                match kind_of_json(v) {
                    None => None,
                    Some(d) => decision_fields(m.drop_first(), Some(d), rea),
                }
            }
        } else if k == "reason"@ {
            if rea is Some {
                None
            } else {
                match reason_of_json(v) {
                    None => None,
                    Some(r) => decision_fields(m.drop_first(), dec, Some(r)),
                }
            }
        } else {
            decision_fields(m.drop_first(), dec, rea)
        }
    }
}

/// What a JSON value means as a whole decision envelope: it must be an
/// object, and its fields are read as `decision_fields` says.
pub open spec fn decision_of_json(v: JsonVal) -> Option<
    (Option<HookDecisionKind>, Option<Seq<char>>),
> {
    match v {
        JsonVal::Obj(m) => decision_fields(m, None, None),
        _ => None,
    }
}

/// What a text means as a decision envelope: it must parse as JSON and the
/// value must be an envelope.
pub open spec fn decision_of_text(s: Seq<char>) -> Option<
    (Option<HookDecisionKind>, Option<Seq<char>>),
> {
    match json_parse_spec(s) {
        None => None,
        Some(v) => decision_of_json(v),
    }
}

fn kind_from_json(v: &JsonValue) -> (r: Option<Option<HookDecisionKind>>)
    ensures
        r == kind_of_json(v@),
{
    match v {
        JsonValue::Null => Some(None),
        JsonValue::Str(s) => {
            if crate::text::string_eq_str(s, "block") {
                Some(Some(HookDecisionKind::Block))
            } else if crate::text::string_eq_str(s, "allow") {
                Some(Some(HookDecisionKind::Allow))
            } else {
                None
            }
        },
        _ => None,
    }
}

fn reason_from_json(v: &JsonValue) -> (r: Option<Option<String>>)
    ensures
        match r {
            None => reason_of_json(v@) is None,
            Some(o) => reason_of_json(v@) == Some(opt_str_view(o)),
        },
{
    match v {
        JsonValue::Null => Some(None),
        JsonValue::Str(s) => Some(Some(s.clone())),
        _ => None,
    }
}

/// Read a decision envelope out of a parsed JSON value.
pub fn decision_from_json(v: &JsonValue) -> (r: Option<HookDecision>)
    ensures
        match r {
            None => decision_of_json(v@) is None,
            Some(d) => decision_of_json(v@) == Some((d.decision, opt_str_view(d.reason))),
        },
{
    match v {
        JsonValue::Obj(members) => {
            let ghost jm = jval_pairs(members@);
            proof {
                crate::json::lemma_jval_pairs_props(members@);
                assert(jm.skip(0) =~= jm);
            }
            let n = members.len();
            let mut i: usize = 0;
            let mut dec: Option<Option<HookDecisionKind>> = None;
            let mut rea: Option<Option<String>> = None;
            let mut failed: bool = false;
            while i < n && !failed
                invariant
                    0 <= i <= n,
                    n == members@.len(),
                    jm == jval_pairs(members@),
                    jm.len() == n,
                    forall|k: int|
                        0 <= k < n ==> jm[k] == (members@[k].0@, crate::json::jval(
                            members@[k].1,
                        )),
                    !failed ==> decision_fields(jm, None, None) == decision_fields(
                        jm.skip(i as int),
                        dec,
                        match rea {
                            None => None,
                            Some(o) => Some(opt_str_view(o)),
                        },
                    ),
                    failed ==> decision_fields(jm, None, None) is None,
                decreases n - i,
            {
                let ghost rest = jm.skip(i as int);
                proof {
                    assert(rest[0] == jm[i as int]);
                    assert(rest.drop_first() =~= jm.skip(i + 1));
                }
                if crate::text::string_eq_str(&members[i].0, "decision") {
                    if dec.is_some() {
                        failed = true;
                    } else {
                        match kind_from_json(&members[i].1) {
                            None => {
                                failed = true;
                            },
                            Some(d) => {
                                dec = Some(d);
                            },
                        }
                    }
                } else if crate::text::string_eq_str(&members[i].0, "reason") {
                    if rea.is_some() {
                        failed = true;
                    } else {
                        match reason_from_json(&members[i].1) {
                            None => {
                                failed = true;
                            },
                            Some(r) => {
                                rea = Some(r);
                            },
                        }
                    }
                }
                i = i + 1;
            }
            if failed {
                None
            } else {
                proof {
                    assert(jm.skip(n as int) =~= Seq::<(Seq<char>, JsonVal)>::empty());
                }
                Some(
                    HookDecision {
                        decision: match dec {
                            None => None,
                            Some(d) => d,
                        },
                        reason: match rea {
                            None => None,
                            Some(r) => r,
                        },
                    },
                )
            }
        },
        _ => None,
    }
}

/// Read a decision envelope out of a text.
pub fn parse_hook_decision(text: &str) -> (r: Option<HookDecision>)
    ensures
        match r {
            None => decision_of_text(text@) is None,
            Some(d) => decision_of_text(text@) == Some((d.decision, opt_str_view(d.reason))),
        },
{
    match crate::parse::json_parse(text) {
        None => None,
        Some(v) => decision_from_json(&v),
    }
}

/// One child invocation, ready to run: the command line, the exact bytes
/// for the child's standard input, and the effective timeout.
#[derive(Debug, Clone)]
pub struct HookCall {
    pub command: Vec<String>,
    pub input: String,
    pub timeout_ms: u64,
}

/// Runs hook children; carries only the default timeout.
pub struct HookRunner {
    pub timeout_ms: u64,
}

impl HookRunner {
    pub fn new(timeout_ms: u64) -> (r: Self)
        ensures
            r.timeout_ms == timeout_ms,
    {
        HookRunner { timeout_ms }
    }

    /// The timeout one call runs under: the override if the hook has one,
    /// else this runner's default.
    pub fn effective_timeout_ms(&self, timeout_override: Option<u64>) -> (r: u64)
        ensures
            r == match timeout_override {
                Some(t) => t,
                None => self.timeout_ms,
            },
    {
        match timeout_override {
            Some(t) => t,
            None => self.timeout_ms,
        }
    }

    /// Build the call for one hook: the command must name an executable,
    /// and the payload is printed as its standard input.
    pub fn prepare(
        &self,
        command: &Vec<String>,
        payload: &JsonValue,
        timeout_override: Option<u64>,
    ) -> (r: Result<HookCall, HookError>)
        ensures
            command@.len() == 0 <==> r is Err,
            r is Err ==> r == Result::<HookCall, HookError>::Err(HookError::EmptyCommand),
            r matches Ok(c) ==> c.command.deep_view() == command.deep_view() && c.input@
                == crate::json::json_text(payload@) && c.timeout_ms == match timeout_override {
                Some(t) => t,
                None => self.timeout_ms,
            },
    {
        if command.len() == 0 {
            Err(HookError::EmptyCommand)
        } else {
            Ok(
                HookCall {
                    command: command.clone(),
                    input: crate::json::to_text(payload),
                    timeout_ms: self.effective_timeout_ms(timeout_override),
                },
            )
        }
    }
}

/// Turn what the child did into a decision or an error: a spawn failure or
/// a timeout is reported as such; a non-zero exit fails with the trimmed
/// standard error; the standard output must be UTF-8 and, once trimmed,
/// must hold a decision envelope.
pub fn interpret_hook_output(outcome: &HookOutcome) -> (r: Result<HookDecision, HookError>)
    ensures
        (match outcome {
            HookOutcome::SpawnFailed(m) => r matches Err(e) && e matches HookError::Spawn(m2)
                && m2@ == m@,
            HookOutcome::TimedOut => r == Result::<HookDecision, HookError>::Err(
                HookError::Timeout,
            ),
            HookOutcome::Exited { exit_success, stdout, stderr } => if *exit_success == false {
                r matches Err(e) && e matches HookError::CommandFailed(s2) && s2@ == trim_spec(
                    stderr@,
                )
            } else {
                match stdout {
                    None => r == Result::<HookDecision, HookError>::Err(HookError::InvalidUtf8),
                    Some(out) => match decision_of_text(trim_spec(out@)) {
                        None => r == Result::<HookDecision, HookError>::Err(
                            HookError::InvalidResponse,
                        ),
                        Some((d, rv)) => r matches Ok(dec) && dec.decision == d && opt_str_view(
                            dec.reason,
                        ) == rv,
                    },
                }
            },
        }),
{
    match outcome {
        HookOutcome::SpawnFailed(m) => Err(HookError::Spawn(m.clone())),
        HookOutcome::TimedOut => Err(HookError::Timeout),
        HookOutcome::Exited { exit_success, stdout, stderr } => {
            if !*exit_success {
                let cs = crate::text::chars_of(stderr.as_str());
                let t = crate::text::trimmed(&cs);
                Err(HookError::CommandFailed(crate::text::string_of(&t)))
            } else {
                match stdout {
                    None => Err(HookError::InvalidUtf8),
                    Some(out) => {
                        let cs = crate::text::chars_of(out.as_str());
                        let t = crate::text::trimmed(&cs);
                        let ts = crate::text::string_of(&t);
                        match parse_hook_decision(ts.as_str()) {
                            None => Err(HookError::InvalidResponse),
                            Some(d) => Ok(d),
                        }
                    },
                }
            }
        },
    }
}

} // verus!
