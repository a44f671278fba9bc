//! Consent for destructive tool operations: the user's decision and what
//! the sandbox makes of it.

use vstd::prelude::*;
use crate::tools::ToolError;
use crate::text::concat;

verus! {

/// The user's answer to a consent prompt.
#[derive(Debug, Clone, Copy, PartialEq, Eq, Structural)]
pub enum ConsentDecision {
    /// Allow this operation.
    Allow,
    /// Refuse this operation.
    Deny,
    /// Allow this operation and the tool's future ones.
    AllowAlways,
}

/// Approves every operation.
#[derive(Debug, Clone, Copy)]
pub struct AutoApprove;

/// Refuses every operation.
#[derive(Debug, Clone, Copy)]
pub struct AutoDeny;

/// How the user is asked for consent: at a terminal, in a window, or
/// automatically in tests.
pub trait ConsentCallback: Send + Sync {
    /// Whether `d` is an answer this callback may give on `operation` by
    /// `tool_name` with `args`; any answer, for a callback that says no
    /// more (such as one that asks a person).
    open spec fn may_answer(
        &self,
        tool_name: Seq<char>,
        operation: Seq<char>,
        args: serde_json::Value,
        d: ConsentDecision,
    ) -> bool {
        true
    }

    /// The user's decision on `operation` by `tool_name` with `args`.
    fn request_consent(
        &self,
        tool_name: &str,
        operation: &str,
        args: &serde_json::Value,
    ) -> (res: ConsentDecision)
        ensures
            self.may_answer(tool_name@, operation@, *args, res),
    ;
}

impl ConsentCallback for AutoApprove {
    /// Its one answer is `Allow`.
    open spec fn may_answer(
        &self,
        tool_name: Seq<char>,
        operation: Seq<char>,
        args: serde_json::Value,
        d: ConsentDecision,
    ) -> bool {
        d == ConsentDecision::Allow
    }

    /// Allows every operation.
    fn request_consent(
        &self,
        tool_name: &str,
        operation: &str,
        args: &serde_json::Value,
    ) -> (res: ConsentDecision)
        ensures
            res == ConsentDecision::Allow,
    {
        ConsentDecision::Allow
    }
}

impl ConsentCallback for AutoDeny {
    /// Its one answer is `Deny`.
    open spec fn may_answer(
        &self,
        tool_name: Seq<char>,
        operation: Seq<char>,
        args: serde_json::Value,
        d: ConsentDecision,
    ) -> bool {
        d == ConsentDecision::Deny
    }

    /// Refuses every operation.
    fn request_consent(
        &self,
        tool_name: &str,
        operation: &str,
        args: &serde_json::Value,
    ) -> (res: ConsentDecision)
        ensures
            res == ConsentDecision::Deny,
    {
        ConsentDecision::Deny
    }
}

/// Whether a decision lets the operation run.
pub open spec fn allows(decision: ConsentDecision) -> bool {
    decision == ConsentDecision::Allow || decision == ConsentDecision::AllowAlways
}

/// What the consent sandbox makes of a decision on `operation` by
/// `tool_name`: the operation runs when allowed; a refusal is a
/// permission error that names both.
pub fn consent_verdict(decision: ConsentDecision, tool_name: &str, operation: &str) -> (res: Result<
    (),
    ToolError,
>)
    ensures
        allows(decision) <==> res is Ok,
        !allows(decision) ==> (res matches Err(ToolError::PermissionDenied(m)) && m@
            == "user denied "@ + operation@ + " by tool '"@ + tool_name@ + "'"@),
{
    match decision {
        ConsentDecision::Allow | ConsentDecision::AllowAlways => Ok(()),
        ConsentDecision::Deny => {
            let mut m = concat("user denied ", operation);
            m.append(" by tool '");
            m.append(tool_name);
            m.append("'");
            Err(ToolError::PermissionDenied(m))
        },
    }
}

/// The consent sandbox: every checked operation is put to the callback, and
/// runs only when the user allows it. It counts the requests and remembers
/// whether the last one was allowed.
///
/// The count and the last decision are plain fields, updated through
/// `&mut self`, so that their values are stated; a driver that shares the
/// sandbox between tools puts it behind a lock.
pub struct ConsentSandbox {
    callback: Box<dyn ConsentCallback>,
    consent_requests: u32,
    last_decision: bool,
}

impl ConsentSandbox {
    /// How many operations were put to the user (modulo 2^32).
    pub closed spec fn requests(&self) -> u32 {
        self.consent_requests
    }

    /// Whether the last operation put to the user was allowed (true before
    /// any).
    pub closed spec fn last_allowed(&self) -> bool {
        self.last_decision
    }

    /// Whether `d` is an answer the sandbox's callback may give on
    /// `operation` by `tool_name` with `args`.
    pub closed spec fn may_answer(
        &self,
        tool_name: Seq<char>,
        operation: Seq<char>,
        args: serde_json::Value,
        d: ConsentDecision,
    ) -> bool {
        self.callback.may_answer(tool_name, operation, args, d)
    }

    /// A sandbox that asks `callback`; no request yet, and the last
    /// operation counts as allowed.
    pub fn new(callback: Box<dyn ConsentCallback>) -> (res: ConsentSandbox)
        ensures
            res.requests() == 0,
            res.last_allowed(),
    {
        ConsentSandbox { callback, consent_requests: 0, last_decision: true }
    }

    /// Asks the callback about `operation` by `tool_name` with `args`: `Ok`
    /// when its answer allows it, otherwise a permission error that names
    /// both. The request is counted (wrapping at 2^32) and its outcome
    /// remembered; the callback stays the same.
    pub fn check(&mut self, tool_name: &str, operation: &str, args: &serde_json::Value) -> (res:
        Result<(), ToolError>)
        ensures
            exists|d: ConsentDecision|
                #[trigger] old(self).may_answer(tool_name@, operation@, *args, d) && (allows(d)
                    <==> res is Ok),
            forall|t: Seq<char>, o: Seq<char>, a: serde_json::Value, d: ConsentDecision|
                #[trigger] final(self).may_answer(t, o, a, d) == old(self).may_answer(t, o, a, d),
            res is Ok || (res matches Err(ToolError::PermissionDenied(m)) && m@ == "user denied "@
                + operation@ + " by tool '"@ + tool_name@ + "'"@),
            final(self).requests() == (old(self).requests() as int + 1) % 0x1_0000_0000,
            final(self).last_allowed() == (res is Ok),
    {
        self.consent_requests = self.consent_requests.wrapping_add(1);
        let decision = self.callback.request_consent(tool_name, operation, args);
        assert(old(self).may_answer(tool_name@, operation@, *args, decision));
        let verdict = consent_verdict(decision, tool_name, operation);
        self.last_decision = verdict.is_ok();
        verdict
    }

    /// How many operations were put to the user (modulo 2^32).
    pub fn consent_request_count(&self) -> (res: u32)
        ensures
            res == self.requests(),
    {
        self.consent_requests
    }

    /// Whether the last operation put to the user was allowed.
    pub fn last_operation_allowed(&self) -> (res: bool)
        ensures
            res == self.last_allowed(),
    {
        self.last_decision
    }
}

/// Whether a tool call may go ahead: a destructive tool under a consent
/// sandbox needs the user's consent to "execute", which the sandbox counts
/// and remembers; any other call may, and no sandbox is asked.
pub fn execution_gate(
    destructive: bool,
    sandbox: Option<&mut ConsentSandbox>,
    tool_name: &str,
    args: &serde_json::Value,
) -> (res: Result<(), ToolError>)
    ensures
        !destructive || sandbox is None ==> res is Ok,
        res is Ok || (res matches Err(ToolError::PermissionDenied(m)) && m@ == "user denied "@
            + "execute"@ + " by tool '"@ + tool_name@ + "'"@),
        match sandbox {
            Some(s) => if destructive {
                &&& exists|d: ConsentDecision|
                    #[trigger] s.may_answer(tool_name@, "execute"@, *args, d) && (allows(d)
                        <==> res is Ok)
                &&& forall|t: Seq<char>, o: Seq<char>, a: serde_json::Value, d: ConsentDecision|
                    #[trigger] final(s).may_answer(t, o, a, d) == s.may_answer(t, o, a, d)
                &&& final(s).requests() == (s.requests() as int + 1) % 0x1_0000_0000
                &&& final(s).last_allowed() == (res is Ok)
            } else {
                *final(s) == *s
            },
            None => true,
        },
{
    if destructive {
        match sandbox {
            Some(s) => s.check(tool_name, "execute", args),
            None => Ok(()),
        }
    } else {
        Ok(())
    }
}

} // verus!
