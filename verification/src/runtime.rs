//! The mediator between an agent and its tools.
//!
//! Wrap any tool-executing closure: [`AgentGuard`] authorizes the call against the policy,
//! routes high-risk actions through an approval callback, and writes a signed audit entry for
//! every decision.

use crate::audit::{AuditLog, EntropyError, EntryView, LogView};
use crate::clock::{clock_gives, is_reading, now_seconds, reading_text};
use crate::crypto::{draw, is_draw};
use crate::policy::{Decision, Policy, ToolCall};
use crate::text::{join, surround};
use vstd::prelude::*;

verus! {

/// Returned as `Err` when a tool call is denied by policy.
#[derive(Debug, PartialEq, Eq)]
pub struct ToolBlockedError {
    /// The human-readable block message.
    pub message: String,
}

impl ToolBlockedError {
    /// The block message, as it is shown to a human.
    pub fn to_string(&self) -> (res: String)
        ensures
            res@ == self.message@,
    {
        self.message.clone()
    }
}

impl Clone for ToolBlockedError {
    fn clone(&self) -> (res: Self)
        ensures
            res == *self,
    {
        ToolBlockedError { message: self.message.clone() }
    }
}

/// Who answers when a call needs human approval.
trait Approver {
    /// Whether the call and the reason may be put to the approver.
    spec fn can_ask(&self, call: ToolCall, reason: Seq<char>) -> bool;

    /// Whether this can be the answer on a call that needs approval for the reason given.
    spec fn may_answer(&self, call: ToolCall, reason: Seq<char>, approved: bool) -> bool;

    fn approve(&self, call: &ToolCall, reason: &str) -> (approved: bool)
        requires
            self.can_ask(*call, reason@),
        ensures
            self.may_answer(*call, reason@, approved),
    ;
}

/// Denies every call.
struct DenyAll;

impl Approver for DenyAll {
    spec fn can_ask(&self, call: ToolCall, reason: Seq<char>) -> bool {
        true
    }

    spec fn may_answer(&self, call: ToolCall, reason: Seq<char>, approved: bool) -> bool {
        !approved
    }

    fn approve(&self, call: &ToolCall, reason: &str) -> (approved: bool) {
        false
    }
}

/// Asks a closure.
struct Callback<F: Fn(&ToolCall, &str) -> bool> {
    ask: F,
}

impl<F: Fn(&ToolCall, &str) -> bool> Approver for Callback<F> {
    spec fn can_ask(&self, call: ToolCall, reason: Seq<char>) -> bool {
        closure_can_ask(self.ask, call, reason)
    }

    spec fn may_answer(&self, call: ToolCall, reason: Seq<char>, approved: bool) -> bool {
        closure_may_answer(self.ask, call, reason, approved)
    }

    fn approve(&self, call: &ToolCall, reason: &str) -> (approved: bool) {
        (self.ask)(call, reason)
    }
}

/// The human-approval callback of a guard: given the call and the policy reason, it decides
/// whether to permit an approval-gated tool.
pub struct Approval {
    callback: Box<dyn Approver>,
}

impl Approval {
    /// Whether the callback can be asked about the call with the reason.
    pub closed spec fn can_ask(self, call: ToolCall, reason: Seq<char>) -> bool {
        self.callback.can_ask(call, reason)
    }

    /// Whether the callback can give this answer on the call and the reason.
    pub closed spec fn may_answer(self, call: ToolCall, reason: Seq<char>, approved: bool) -> bool {
        self.callback.may_answer(call, reason, approved)
    }

    /// A callback that denies every call.
    pub fn deny_all() -> (res: Self)
        ensures
            forall|call: ToolCall, reason: Seq<char>| #[trigger] res.can_ask(call, reason),
            forall|call: ToolCall, reason: Seq<char>, approved: bool| #[trigger]
                res.may_answer(call, reason, approved) == !approved,
    {
        Approval { callback: Box::new(DenyAll) }
    }

    /// A callback that asks the closure.
    pub fn from_fn<F>(ask: F) -> (res: Self) where F: Fn(&ToolCall, &str) -> bool + 'static
        ensures
            forall|call: ToolCall, reason: Seq<char>| #[trigger]
                res.can_ask(call, reason) == closure_can_ask(ask, call, reason),
            forall|call: ToolCall, reason: Seq<char>, approved: bool| #[trigger]
                res.may_answer(call, reason, approved) == closure_may_answer(
                    ask,
                    call,
                    reason,
                    approved,
                ),
    {
        Approval { callback: Box::new(Callback { ask }) }
    }

    /// The answer on the call and the reason.
    pub fn ask(&self, call: &ToolCall, reason: &str) -> (approved: bool)
        requires
            self.can_ask(*call, reason@),
        ensures
            self.may_answer(*call, reason@, approved),
    {
        self.callback.approve(call, reason)
    }
}

/// Whether the closure can be called on the call and the reason.
pub open spec fn closure_can_ask<F: Fn(&ToolCall, &str) -> bool>(
    ask: F,
    call: ToolCall,
    reason: Seq<char>,
) -> bool {
    forall|text: &str| text@ == reason ==> #[trigger] call_requires(ask, (&call, text))
}

/// Whether the closure can give this answer on the call and the reason.
pub open spec fn closure_may_answer<F: Fn(&ToolCall, &str) -> bool>(
    ask: F,
    call: ToolCall,
    reason: Seq<char>,
    approved: bool,
) -> bool {
    exists|text: &str| text@ == reason && #[trigger] call_ensures(ask, (&call, text), approved)
}

/// What a verdict comes to once the human has answered: the answer counts where approval is
/// asked for, and nowhere else.
pub open spec fn settled(verdict: (Decision, Seq<char>), approved: bool) -> (Decision, Seq<char>) {
    if verdict.0 == Decision::Approve {
        if approved {
            (Decision::Allow, "human approved: "@ + verdict.1)
        } else {
            (Decision::Deny, "human denied: "@ + verdict.1)
        }
    } else {
        verdict
    }
}

/// The message for a call that was blocked.
pub open spec fn block_message(tool: Seq<char>, reason: Seq<char>) -> Seq<char> {
    "blocked '"@ + tool + "': "@ + reason
}

/// The message of a blocked call, if it was blocked.
pub open spec fn message_of<T>(res: Result<T, ToolBlockedError>) -> Option<Seq<char>> {
    match res {
        Ok(_) => None,
        Err(e) => Some(e.message@),
    }
}

/// Takes the answer of the human to a call that needs approval.
pub fn settle(reason: &str, approved: bool) -> (res: (Decision, String))
    ensures
        (res.0, res.1@) == settled((Decision::Approve, reason@), approved),
{
    if approved {
        (Decision::Allow, join("human approved: ", reason))
    } else {
        (Decision::Deny, join("human denied: ", reason))
    }
}

/// Mediates every tool call: evaluate policy, route high-risk actions through a human-approval
/// callback, audit the decision, then execute or block.
pub struct AgentGuard {
    /// The policy this guard enforces.
    pub policy: Policy,
    /// The signed audit log every decision is written to.
    pub audit: AuditLog,
    /// The callback that is asked about approval-gated tools.
    pub approve: Approval,
}

impl AgentGuard {
    /// Whether the call can be allowed: by the policy, or by an answer that the callback can give
    /// where the policy asks for approval.
    pub open spec fn may_execute(self, call: ToolCall) -> bool {
        let verdict = self.policy.verdict(call);
        ||| verdict.0 == Decision::Allow
        ||| verdict.0 == Decision::Approve && self.approve.may_answer(call, verdict.1, true)
    }

    /// Whether guarding the call can come to this, with this answer of the human and this
    /// reading of the clock: what is in the log afterwards, and the message of a blocked call.
    pub open spec fn can_come_to(
        self,
        call: ToolCall,
        approved: bool,
        reading: Option<(u64, u32)>,
        log: LogView,
        blocked: Option<Seq<char>>,
    ) -> bool {
        let verdict = self.policy.verdict(call);
        let (decision, reason) = settled(verdict, approved);
        &&& verdict.0 == Decision::Approve ==> self.approve.may_answer(call, verdict.1, approved)
        &&& clock_gives(reading)
        &&& is_reading(reading)
        &&& log == self.audit@.after_recording(
            reading_text(reading),
            call.tool@,
            decision.word(),
            reason,
        )
        &&& blocked == if decision == Decision::Allow {
            None
        } else {
            Some(block_message(call.tool@, reason))
        }
    }

    /// Build a guard with the given audit log and the default approval callback, which denies.
    pub fn with_log(policy: Policy, audit: AuditLog) -> (res: Self)
        ensures
            res.policy == policy,
            res.audit == audit,
            forall|call: ToolCall, reason: Seq<char>| #[trigger]
                res.approve.can_ask(call, reason),
            forall|call: ToolCall, reason: Seq<char>, approved: bool| #[trigger]
                res.approve.may_answer(call, reason, approved) == !approved,
    {
        AgentGuard { policy, audit, approve: Approval::deny_all() }
    }

    /// Build a guard with the default approval callback, which denies, and an audit log with what
    /// the random source gave for a key.
    pub fn from_entropy(policy: Policy, drawn: Result<[u8; 32], getrandom::Error>) -> (res: Result<
        Self,
        EntropyError,
    >)
        ensures
            match drawn {
                Ok(secret) => res matches Ok(guard) && {
                    &&& guard.policy == policy
                    &&& guard.audit@ == (LogView {
                        secret: secret@,
                        recorded: 0,
                        entries: Seq::empty(),
                    })
                    &&& guard.audit@.intact()
                    &&& forall|call: ToolCall, reason: Seq<char>| #[trigger]
                        guard.approve.can_ask(call, reason)
                    &&& forall|call: ToolCall, reason: Seq<char>, approved: bool| #[trigger]
                        guard.approve.may_answer(call, reason, approved) == !approved
                },
                Err(_) => res is Err,
            },
    {
        match AuditLog::from_entropy(drawn) {
            Ok(audit) => Ok(AgentGuard::with_log(policy, audit)),
            Err(e) => Err(e),
        }
    }

    /// Build a guard with a fresh audit log and the default approval callback, which denies (a
    /// safe default; wire a real UI/CLI in prod). Whether there is a key for the log rests on the
    /// random source of the operating system; `from_entropy` says what comes of each draw.
    pub fn new(policy: Policy) -> (res: Result<Self, EntropyError>)
        ensures
            exists|drawn: Result<[u8; 32], getrandom::Error>| #[trigger]
                is_draw(drawn) && match drawn {
                    Ok(secret) => res matches Ok(guard) && guard.audit@.secret == secret@,
                    Err(_) => res is Err,
                },
            res matches Ok(guard) ==> {
                &&& guard.policy == policy
                &&& guard.audit@.secret.len() == 32
                &&& guard.audit@.entries == Seq::<EntryView>::empty()
                &&& guard.audit@.recorded == 0
                &&& guard.audit@.intact()
                &&& forall|call: ToolCall, reason: Seq<char>| #[trigger]
                    guard.approve.can_ask(call, reason)
                &&& forall|call: ToolCall, reason: Seq<char>, approved: bool| #[trigger]
                    guard.approve.may_answer(call, reason, approved) == !approved
            },
    {
        AgentGuard::from_entropy(policy, draw())
    }

    /// Set the human-approval callback for approval-gated tools.
    pub fn with_approval<F>(self, callback: F) -> (res: Self) where
        F: Fn(&ToolCall, &str) -> bool + 'static,

        ensures
            res.policy == self.policy,
            res.audit == self.audit,
            forall|call: ToolCall, reason: Seq<char>| #[trigger]
                res.approve.can_ask(call, reason) == closure_can_ask(callback, call, reason),
            forall|call: ToolCall, reason: Seq<char>, approved: bool| #[trigger]
                res.approve.may_answer(call, reason, approved) == closure_may_answer(
                    callback,
                    call,
                    reason,
                    approved,
                ),
    {
        AgentGuard {
            policy: self.policy,
            audit: self.audit,
            approve: Approval::from_fn(callback),
        }
    }

    /// Use a caller-supplied audit log (e.g. one built with a known key).
    pub fn with_audit(self, audit: AuditLog) -> (res: Self)
        ensures
            res.policy == self.policy,
            res.audit == audit,
            res.approve == self.approve,
    {
        AgentGuard { policy: self.policy, audit, approve: self.approve }
    }

    /// Records a decision at the time given, and executes the call if it is allowed. The closure
    /// need not be callable where the call is not allowed: it is then left alone.
    pub fn carry_out<T, F>(
        &mut self,
        call: &ToolCall,
        decision: Decision,
        reason: &str,
        ts: &str,
        execute: F,
    ) -> (res: Result<T, ToolBlockedError>) where F: FnOnce(&ToolCall) -> T
        requires
            decision == Decision::Allow ==> call_requires(execute, (call,)),
        ensures
            final(self).policy == old(self).policy,
            final(self).approve == old(self).approve,
            final(self).audit@ == old(self).audit@.after_recording(
                ts@,
                call.tool@,
                decision.word(),
                reason@,
            ),
            final(self).audit@.last_is_signed(),
            final(self).audit@.intact() == old(self).audit@.intact(),
            match res {
                Ok(out) => decision == Decision::Allow && call_ensures(execute, (call,), out),
                Err(e) => decision != Decision::Allow && e.message@ == block_message(
                    call.tool@,
                    reason@,
                ),
            },
    {
        self.audit.record_at(ts, call.tool.as_str(), decision.value(), reason);
        if decision == Decision::Allow {
            Ok(execute(call))
        } else {
            let head = surround("blocked '", call.tool.as_str(), "': ");
            Err(ToolBlockedError { message: join(head.as_str(), reason) })
        }
    }

    /// Authorize a tool call with the answer of the human, which counts where the policy asks for
    /// approval, and record the decision at the time given. Executes the call if it is allowed;
    /// the closure need not be callable where it is not.
    pub fn guard_answered<T, F>(
        &mut self,
        call: &ToolCall,
        approved: bool,
        ts: &str,
        execute: F,
    ) -> (res: Result<T, ToolBlockedError>) where F: FnOnce(&ToolCall) -> T
        requires
            settled(old(self).policy.verdict(*call), approved).0 == Decision::Allow
                ==> call_requires(execute, (call,)),
        ensures
            final(self).policy == old(self).policy,
            final(self).approve == old(self).approve,
            final(self).audit@ == old(self).audit@.after_recording(
                ts@,
                call.tool@,
                settled(old(self).policy.verdict(*call), approved).0.word(),
                settled(old(self).policy.verdict(*call), approved).1,
            ),
            final(self).audit@.last_is_signed(),
            final(self).audit@.intact() == old(self).audit@.intact(),
            match res {
                Ok(out) => settled(old(self).policy.verdict(*call), approved).0 == Decision::Allow
                    && call_ensures(execute, (call,), out),
                Err(e) => settled(old(self).policy.verdict(*call), approved).0 != Decision::Allow
                    && e.message@ == block_message(
                    call.tool@,
                    settled(old(self).policy.verdict(*call), approved).1,
                ),
            },
    {
        let (mut decision, mut reason) = self.policy.evaluate(call);
        if decision == Decision::Approve {
            let (d, r) = settle(reason.as_str(), approved);
            decision = d;
            reason = r;
        }
        self.carry_out(call, decision, reason.as_str(), ts, execute)
    }

    /// Authorize a tool call and, if allowed, execute it. Records a signed audit entry for every
    /// decision and returns `Err(ToolBlockedError)` when denied. The closure need not be callable
    /// where nothing can allow the call, nor the callback where the policy does not ask for
    /// approval: they are then left alone.
    pub fn guard<T, F>(&mut self, call: &ToolCall, execute: F) -> (res: Result<
        T,
        ToolBlockedError,
    >) where F: FnOnce(&ToolCall) -> T
        requires
            old(self).policy.verdict(*call).0 == Decision::Approve ==> old(self).approve.can_ask(
                *call,
                old(self).policy.verdict(*call).1,
            ),
            old(self).may_execute(*call) ==> call_requires(execute, (call,)),
        ensures
            final(self).policy == old(self).policy,
            final(self).approve == old(self).approve,
            exists|approved: bool, reading: Option<(u64, u32)>| #[trigger]
                old(self).can_come_to(
                    *call,
                    approved,
                    reading,
                    final(self).audit@,
                    message_of(res),
                ),
            final(self).audit@.last_is_signed(),
            final(self).audit@.intact() == old(self).audit@.intact(),
            res matches Ok(out) ==> call_ensures(execute, (call,), out),
    {
        let (decision, reason) = self.policy.evaluate(call);
        let approved = decision == Decision::Approve && self.approve.ask(call, reason.as_str());
        let ts = now_seconds();
        let res = self.guard_answered(call, approved, ts.as_str(), execute);
        proof {
            let reading = choose|reading: Option<(u64, u32)>|
                clock_gives(reading) && is_reading(reading) && ts@ == #[trigger] reading_text(
                    reading,
                );
            assert(old(self).can_come_to(
                *call,
                approved,
                reading,
                self.audit@,
                message_of(res),
            ));
        }
        res
    }
}

} // verus!
