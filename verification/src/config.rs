//! Hook configuration: which programs run at which lifecycle event.

use vstd::prelude::*;

verus! {

/// One configured hook: an optional regex matcher, the command line to run
/// (element 0 is the executable), and an optional timeout override in
/// milliseconds.
#[derive(Debug, Clone, PartialEq)]
pub struct HookCommandConfig {
    pub matcher: Option<String>,
    pub command: Vec<String>,
    pub timeout_ms: Option<u64>,
}

/// The abstraction of one configured hook.
pub struct HookCommandConfigView {
    pub matcher: Option<Seq<char>>,
    pub command: Seq<Seq<char>>,
    pub timeout_ms: Option<u64>,
}

impl View for HookCommandConfig {
    type V = HookCommandConfigView;

    open spec fn view(&self) -> HookCommandConfigView {
        HookCommandConfigView {
            matcher: match self.matcher {
                None => None,
                Some(s) => Some(s@),
            },
            command: self.command.deep_view(),
            timeout_ms: self.timeout_ms,
        }
    }
}

impl HookCommandConfig {
    /// Copy this configured hook.
    pub fn duplicate(&self) -> (r: Self)
        ensures
            r@ == self@,
    {
        let matcher: Option<String> = match &self.matcher {
            None => None,
            Some(s) => Some(s.clone()),
        };
        let mut command: Vec<String> = Vec::new();
        let n = self.command.len();
        let mut i: usize = 0;
        while i < n
            invariant
                0 <= i <= n,
                n == self.command@.len(),
                command@.len() == i,
                forall|k: int| 0 <= k < i ==> command@[k]@ == self.command@[k]@,
            decreases n - i,
        {
            command.push(self.command[i].clone());
            i = i + 1;
        }
        proof {
            assert(command.deep_view() =~= self.command.deep_view());
        }
        HookCommandConfig { matcher, command, timeout_ms: self.timeout_ms }
    }
}

/// The four ordered hook lists, one per lifecycle event. Order within a list
/// is significant: hooks run in declaration order.
#[derive(Debug, Clone)]
pub struct HooksConfig {
    pub pre_tool_use: Vec<HookCommandConfig>,
    pub post_tool_use: Vec<HookCommandConfig>,
    pub session_start: Vec<HookCommandConfig>,
    pub user_prompt_submit: Vec<HookCommandConfig>,
}

impl Default for HooksConfig {
    /// All four lists default to empty.
    fn default() -> (r: Self)
        ensures
            r.pre_tool_use@.len() == 0,
            r.post_tool_use@.len() == 0,
            r.session_start@.len() == 0,
            r.user_prompt_submit@.len() == 0,
    {
        HooksConfig {
            pre_tool_use: Vec::new(),
            post_tool_use: Vec::new(),
            session_start: Vec::new(),
            user_prompt_submit: Vec::new(),
        }
    }
}

} // verus!
