//! What the policy engine and the guard promise of every call.

use crate::audit::{AuditEntry, AuditLog, EntropyError, LogView};
use crate::clock::{clock_gives, is_reading, now_seconds, reading_text, seconds_text};
use crate::crypto::is_draw;
use crate::glob::{glob_matches, is_plain, law_infix_glob, law_prefix_glob};
use crate::policy::{
    any_match, first_match, table_of, ArgValue, Decision, Policy, ToolCall, ToolPolicy,
};
use crate::runtime::{
    block_message, closure_can_ask, closure_may_answer, message_of, settled, AgentGuard,
    ToolBlockedError,
};
use crate::text::{decimal, law_digits_spell};
use vstd::prelude::*;

verus! {

/// Whether a path is within the path constraints of a tool. A tool with a list of allowed paths
/// needs a path; one without takes a call that names none.
pub open spec fn path_in_bounds(rules: ToolPolicy, path: Seq<char>) -> bool {
    if path.len() == 0 {
        rules.path_allow@.len() == 0
    } else {
        &&& forall|k: int|
            0 <= k < rules.path_deny@.len() ==> !glob_matches(
                path,
                (#[trigger] rules.path_deny@[k])@,
            )
        &&& rules.path_allow@.len() == 0 || exists|k: int|
            0 <= k < rules.path_allow@.len() && glob_matches(
                path,
                (#[trigger] rules.path_allow@[k])@,
            )
    }
}

/// Whether a domain is within the domain constraint of a tool.
pub open spec fn domain_in_bounds(rules: ToolPolicy, domain: Seq<char>) -> bool {
    rules.domain_allow@.len() == 0 || (domain.len() > 0 && exists|k: int|
        0 <= k < rules.domain_allow@.len() && (#[trigger] rules.domain_allow@[k])@ == domain)
}

/// Whether the policy lists the tool of the call, and the call is within its constraints.
pub open spec fn in_bounds(policy: Policy, call: ToolCall) -> bool {
    let rules = policy.tools@[call.tool@];
    &&& policy.admits(call.tool@)
    &&& path_in_bounds(rules, call.arg_text("path"@))
    &&& domain_in_bounds(rules, call.arg_text("domain"@))
}

proof fn lemma_first_match(globs: Seq<String>, path: Seq<char>)
    ensures
        first_match(globs, path) is Some <==> any_match(globs, path),
    decreases globs.len(),
{
    if globs.len() > 0 {
        let rest = globs.skip(1);
        lemma_first_match(rest, path);
        if any_match(rest, path) {
            let k = choose|k: int| 0 <= k < rest.len() && glob_matches(path, (#[trigger] rest[k])@);
            assert(globs[k + 1] == rest[k]);
        }
        if any_match(globs, path) && !glob_matches(path, globs[0]@) {
            let k = choose|k: int|
                0 <= k < globs.len() && glob_matches(path, (#[trigger] globs[k])@);
            assert(rest[k - 1] == globs[k]);
        }
    }
}

/// A call passes if and only if its tool is listed as allowed and the call is within the
/// constraints of the tool. What passes is allowed, or goes to a human where the tool requires
/// it. Nothing else is ever authorized.
pub proof fn law_only_calls_in_bounds_pass(policy: Policy, call: ToolCall)
    ensures
        policy.verdict(call).0 == Decision::Deny <==> !in_bounds(policy, call),
        policy.verdict(call).0 == Decision::Allow <==> in_bounds(policy, call)
            && !policy.tools@[call.tool@].require_approval,
        policy.verdict(call).0 == Decision::Approve <==> in_bounds(policy, call)
            && policy.tools@[call.tool@].require_approval,
{
    lemma_first_match(policy.tools@[call.tool@].path_deny@, call.arg_text("path"@));
}

/// A tool that the policy does not list as allowed is denied, whatever the arguments.
pub proof fn law_deny_by_default(policy: Policy, call: ToolCall)
    requires
        !policy.tools@.contains_key(call.tool@) || !policy.tools@[call.tool@].allow,
    ensures
        policy.verdict(call).0 == Decision::Deny,
{
}

/// A path that matches a deny pattern is denied, whatever the allow patterns say.
pub proof fn law_deny_patterns_win(policy: Policy, call: ToolCall)
    requires
        call.arg_text("path"@).len() > 0,
        exists|k: int|
            0 <= k < policy.tools@[call.tool@].path_deny@.len() && glob_matches(
                call.arg_text("path"@),
                (#[trigger] policy.tools@[call.tool@].path_deny@[k])@,
            ),
    ensures
        policy.verdict(call).0 == Decision::Deny,
{
    law_only_calls_in_bounds_pass(policy, call);
}

/// A tool that requires approval is never allowed without it.
pub proof fn law_approval_is_never_skipped(policy: Policy, call: ToolCall)
    requires
        policy.tools@[call.tool@].require_approval,
    ensures
        policy.verdict(call).0 != Decision::Allow,
{
}

/// Where a tool is restricted to certain domains, only calls that name one of them, letter for
/// letter, pass.
pub proof fn law_domains_are_matched_exactly(policy: Policy, call: ToolCall)
    requires
        policy.tools@[call.tool@].domain_allow@.len() > 0,
        policy.verdict(call).0 != Decision::Deny,
    ensures
        exists|k: int|
            0 <= k < policy.tools@[call.tool@].domain_allow@.len() && (
            #[trigger] policy.tools@[call.tool@].domain_allow@[k])@ == call.arg_text("domain"@),
{
}

/// Where a tool is restricted to what is below certain roots, only paths that begin with one of
/// them pass.
pub proof fn law_paths_stay_below_the_roots(policy: Policy, call: ToolCall, roots: Seq<Seq<char>>)
    requires
        roots.len() > 0,
        policy.tools@[call.tool@].path_allow@.len() == roots.len(),
        forall|k: int|
            0 <= k < roots.len() ==> is_plain(#[trigger] roots[k])
                && policy.tools@[call.tool@].path_allow@[k]@ == roots[k].push('*'),
        policy.verdict(call).0 != Decision::Deny,
    ensures
        exists|k: int|
            0 <= k < roots.len() && (#[trigger] roots[k]).is_prefix_of(call.arg_text("path"@)),
{
    let path = call.arg_text("path"@);
    let globs = policy.tools@[call.tool@].path_allow@;
    law_only_calls_in_bounds_pass(policy, call);
    let k = choose|k: int| 0 <= k < globs.len() && glob_matches(path, (#[trigger] globs[k])@);
    law_prefix_glob(path, roots[k]);
}

/// Where the paths that contain a text are denied, no path that contains it passes.
pub proof fn law_denied_text_never_passes(
    policy: Policy,
    call: ToolCall,
    k: int,
    text: Seq<char>,
    at: int,
)
    requires
        is_plain(text),
        0 <= k < policy.tools@[call.tool@].path_deny@.len(),
        policy.tools@[call.tool@].path_deny@[k]@ == seq!['*'] + text.push('*'),
        0 <= at <= call.arg_text("path"@).len(),
        call.arg_text("path"@).len() > 0,
        text.is_prefix_of(call.arg_text("path"@).skip(at)),
    ensures
        policy.verdict(call).0 == Decision::Deny,
{
    let path = call.arg_text("path"@);
    law_infix_glob(path, text);
    let deny = policy.tools@[call.tool@].path_deny@;
    assert(glob_matches(path, deny[k]@));
    law_deny_patterns_win(policy, call);
}

/// Only the tool, the path and the domain of a call count.
pub proof fn law_verdict_rests_on_path_and_domain(policy: Policy, a: ToolCall, b: ToolCall)
    requires
        a.tool@ == b.tool@,
        a.arg_text("path"@) == b.arg_text("path"@),
        a.arg_text("domain"@) == b.arg_text("domain"@),
    ensures
        policy.verdict(a) == policy.verdict(b),
{
}

/// A null argument counts as a missing one: two calls that differ in nothing else get the same
/// verdict.
pub proof fn law_null_counts_as_missing(policy: Policy, a: ToolCall, b: ToolCall, key: Seq<char>)
    requires
        a.tool@ == b.tool@,
        b.args@ == a.args@.insert(key, ArgValue::Null),
        !a.args@.contains_key(key),
    ensures
        policy.verdict(a) == policy.verdict(b),
{
}

/// A tool is looked up by its whole name, and where it is listed more than once the last policy
/// counts.
pub proof fn law_last_policy_counts(tools: Seq<ToolPolicy>, k: int)
    requires
        0 <= k < tools.len(),
        forall|m: int| k < m < tools.len() ==> (#[trigger] tools[m]).tool@ != tools[k].tool@,
    ensures
        table_of(tools).contains_key(tools[k].tool@),
        table_of(tools)[tools[k].tool@] == tools[k],
    decreases tools.len(),
{
    if k < tools.len() - 1 {
        let shorter = tools.drop_last();
        assert(tools.last() == tools[tools.len() - 1]);
        assert forall|m: int| k < m < shorter.len() implies (#[trigger] shorter[m]).tool@
            != shorter[k].tool@ by {
            assert(shorter[m] == tools[m]);
        }
        law_last_policy_counts(shorter, k);
    }
}

/// A tool that no policy of the list names is not in the table.
pub proof fn law_unlisted_tool_has_no_policy(tools: Seq<ToolPolicy>, tool: Seq<char>)
    requires
        forall|m: int| 0 <= m < tools.len() ==> (#[trigger] tools[m]).tool@ != tool,
    ensures
        !table_of(tools).contains_key(tool),
    decreases tools.len(),
{
    if tools.len() > 0 {
        let shorter = tools.drop_last();
        assert(tools.last() == tools[tools.len() - 1]);
        assert forall|m: int| 0 <= m < shorter.len() implies (#[trigger] shorter[m]).tool@ != tool by {
            assert(shorter[m] == tools[m]);
        }
        law_unlisted_tool_has_no_policy(shorter, tool);
    }
}

/// Decisions are spelled "allow", "deny" and "approve".
pub proof fn law_decision_words()
    ensures
        Decision::Allow.word() == "allow"@,
        Decision::Deny.word() == "deny"@,
        Decision::Approve.word() == "approve"@,
{
}

/// A string argument is its own text, an integer is written in decimal, a null has no text, and any
/// other object has some.
pub proof fn law_argument_texts(s: String, n: i64)
    ensures
        ArgValue::Str(s).text() == s@,
        ArgValue::Int(n).text() == decimal(n as int),
        ArgValue::Int(n).text().len() > 0,
        ArgValue::Null.text().len() == 0,
        ArgValue::Other.text() == "<object>"@,
        ArgValue::Other.text().len() > 0,
{
    reveal_strlit("<object>");
    if n >= 0 {
        law_digits_spell(n as nat);
    }
}

/// The text of an argument of a call is that of its value, and a missing one has none.
pub proof fn law_argument_of_call(call: ToolCall, key: Seq<char>)
    ensures
        call.args@.contains_key(key) ==> call.arg_text(key) == call.args@[key].text(),
        !call.args@.contains_key(key) ==> call.arg_text(key).len() == 0,
{
}

/// A tool that is not listed, or listed as not allowed, is denied with its name in the reason.
pub proof fn law_reason_for_unlisted_tool(policy: Policy, call: ToolCall)
    requires
        !policy.tools@.contains_key(call.tool@) || !policy.tools@[call.tool@].allow,
    ensures
        policy.verdict(call) == (
            Decision::Deny,
            "tool '"@ + call.tool@ + "' not in allow-list (deny-by-default)"@,
        ),
{
}

/// A tool with a list of allowed paths is denied where the call names no path.
pub proof fn law_reason_for_missing_path(policy: Policy, call: ToolCall)
    requires
        policy.tools@.contains_key(call.tool@),
        policy.tools@[call.tool@].allow,
        policy.tools@[call.tool@].path_allow@.len() > 0,
        call.arg_text("path"@).len() == 0,
    ensures
        policy.verdict(call) == (
            Decision::Deny,
            "tool '"@ + call.tool@ + "' requires a path within its allowed set"@,
        ),
{
}

proof fn lemma_first_match_is(globs: Seq<String>, path: Seq<char>, k: int)
    requires
        0 <= k < globs.len(),
        glob_matches(path, globs[k]@),
        forall|m: int| 0 <= m < k ==> !glob_matches(path, (#[trigger] globs[m])@),
    ensures
        first_match(globs, path) == Some(globs[k]@),
    decreases k,
{
    if k > 0 {
        let rest = globs.skip(1);
        assert(!glob_matches(path, globs[0]@));
        assert(rest[k - 1] == globs[k]);
        assert forall|m: int| 0 <= m < k - 1 implies !glob_matches(path, (#[trigger] rest[m])@) by {
            assert(rest[m] == globs[m + 1]);
        }
        lemma_first_match_is(rest, path, k - 1);
    }
}

/// A path that matches a deny pattern is denied, and the reason names the path and the first
/// pattern in the list that it matches.
pub proof fn law_reason_for_denied_path(policy: Policy, call: ToolCall, k: int)
    requires
        policy.tools@.contains_key(call.tool@),
        policy.tools@[call.tool@].allow,
        call.arg_text("path"@).len() > 0,
        0 <= k < policy.tools@[call.tool@].path_deny@.len(),
        glob_matches(call.arg_text("path"@), policy.tools@[call.tool@].path_deny@[k]@),
        forall|m: int|
            0 <= m < k ==> !glob_matches(
                call.arg_text("path"@),
                (#[trigger] policy.tools@[call.tool@].path_deny@[m])@,
            ),
    ensures
        policy.verdict(call) == (
            Decision::Deny,
            "path '"@ + call.arg_text("path"@) + "' matches deny pattern '"@
                + policy.tools@[call.tool@].path_deny@[k]@ + "'"@,
        ),
{
    lemma_first_match_is(policy.tools@[call.tool@].path_deny@, call.arg_text("path"@), k);
}

/// A path that matches no deny pattern, and none of the allow patterns that there are, is denied
/// with its name in the reason.
pub proof fn law_reason_for_path_outside(policy: Policy, call: ToolCall)
    requires
        policy.tools@.contains_key(call.tool@),
        policy.tools@[call.tool@].allow,
        call.arg_text("path"@).len() > 0,
        forall|k: int|
            0 <= k < policy.tools@[call.tool@].path_deny@.len() ==> !glob_matches(
                call.arg_text("path"@),
                (#[trigger] policy.tools@[call.tool@].path_deny@[k])@,
            ),
        policy.tools@[call.tool@].path_allow@.len() > 0,
        forall|k: int|
            0 <= k < policy.tools@[call.tool@].path_allow@.len() ==> !glob_matches(
                call.arg_text("path"@),
                (#[trigger] policy.tools@[call.tool@].path_allow@[k])@,
            ),
    ensures
        policy.verdict(call) == (
            Decision::Deny,
            "path '"@ + call.arg_text("path"@) + "' not in allowed paths"@,
        ),
{
    lemma_first_match(policy.tools@[call.tool@].path_deny@, call.arg_text("path"@));
}

/// A call within the path constraints of its tool is denied where the tool has a list of domains
/// and the call names none, or one that differs from each of them.
pub proof fn law_reason_for_domain_outside(policy: Policy, call: ToolCall)
    requires
        policy.tools@.contains_key(call.tool@),
        policy.tools@[call.tool@].allow,
        path_in_bounds(policy.tools@[call.tool@], call.arg_text("path"@)),
        policy.tools@[call.tool@].domain_allow@.len() > 0,
        call.arg_text("domain"@).len() == 0 || forall|k: int|
            0 <= k < policy.tools@[call.tool@].domain_allow@.len() ==> (
            #[trigger] policy.tools@[call.tool@].domain_allow@[k])@ != call.arg_text("domain"@),
    ensures
        policy.verdict(call) == (
            Decision::Deny,
            if call.arg_text("domain"@).len() == 0 {
                "tool '"@ + call.tool@ + "' requires a domain within its allowed set"@
            } else {
                "domain '"@ + call.arg_text("domain"@) + "' not in allow-list"@
            },
        ),
{
    lemma_first_match(policy.tools@[call.tool@].path_deny@, call.arg_text("path"@));
}

/// A call whose tool is allowed, whose path matches no deny pattern and one of the allow patterns
/// where there are any, and whose domain is any one of the listed domains where there are any,
/// passes: it is allowed, or goes to a human where the tool requires it.
pub proof fn law_call_in_bounds_passes(policy: Policy, call: ToolCall, a: int, d: int)
    requires
        policy.tools@.contains_key(call.tool@),
        policy.tools@[call.tool@].allow,
        ({
            let rules = policy.tools@[call.tool@];
            let path = call.arg_text("path"@);
            &&& path.len() == 0 ==> rules.path_allow@.len() == 0
            &&& path.len() > 0 ==> forall|k: int|
                0 <= k < rules.path_deny@.len() ==> !glob_matches(
                    path,
                    (#[trigger] rules.path_deny@[k])@,
                )
            &&& rules.path_allow@.len() > 0 ==> 0 <= a < rules.path_allow@.len() && glob_matches(
                path,
                rules.path_allow@[a]@,
            )
            &&& rules.domain_allow@.len() > 0 ==> {
                &&& 0 <= d < rules.domain_allow@.len()
                &&& rules.domain_allow@[d]@ == call.arg_text("domain"@)
                &&& call.arg_text("domain"@).len() > 0
            }
        }),
    ensures
        policy.verdict(call) == if policy.tools@[call.tool@].require_approval {
            (Decision::Approve, "tool '"@ + call.tool@ + "' requires human approval"@)
        } else {
            (Decision::Allow, "ok"@)
        },
{
    lemma_first_match(policy.tools@[call.tool@].path_deny@, call.arg_text("path"@));
}

/// For a tool with a list of domains and no other constraint, every domain of the list passes,
/// wherever it stands, and every other one is denied.
pub proof fn law_every_listed_domain_passes(policy: Policy, call: ToolCall, k: int)
    requires
        policy.tools@.contains_key(call.tool@),
        policy.tools@[call.tool@].allow,
        !policy.tools@[call.tool@].require_approval,
        policy.tools@[call.tool@].path_allow@.len() == 0,
        policy.tools@[call.tool@].path_deny@.len() == 0,
        0 <= k < policy.tools@[call.tool@].domain_allow@.len(),
    ensures
        call.arg_text("domain"@).len() > 0 && call.arg_text("domain"@)
            == policy.tools@[call.tool@].domain_allow@[k]@ ==> policy.verdict(call).0
            == Decision::Allow,
        (forall|m: int|
            0 <= m < policy.tools@[call.tool@].domain_allow@.len() ==> (
            #[trigger] policy.tools@[call.tool@].domain_allow@[m])@ != call.arg_text("domain"@))
            ==> policy.verdict(call).0 == Decision::Deny,
{
    let domains = policy.tools@[call.tool@].domain_allow@;
    if call.arg_text("domain"@).len() > 0 && call.arg_text("domain"@) == domains[k]@ {
        law_call_in_bounds_passes(policy, call, 0, k);
    }
    if forall|m: int|
        0 <= m < domains.len() ==> (#[trigger] domains[m])@ != call.arg_text("domain"@) {
        law_reason_for_domain_outside(policy, call);
    }
}

/// The answer of the human allows a call where approval is asked for, and nowhere else: it
/// neither lifts a denial nor revokes what the policy allows.
pub proof fn law_answer_counts_only_where_asked(verdict: (Decision, Seq<char>), approved: bool)
    ensures
        settled(verdict, approved).0 == Decision::Allow <==> verdict.0 == Decision::Allow || (
        verdict.0 == Decision::Approve && approved),
        settled(verdict, approved).0 != Decision::Approve,
{
}

/// Every guarded call leaves exactly one new entry in the log, and the entry names the tool. It
/// says "allow" if and only if the call was executed.
pub proof fn law_every_decision_is_audited(
    guard: AgentGuard,
    call: ToolCall,
    approved: bool,
    reading: Option<(u64, u32)>,
    log: LogView,
    blocked: Option<Seq<char>>,
)
    requires
        guard.can_come_to(call, approved, reading, log, blocked),
    ensures
        log.entries.len() == guard.audit@.entries.len() + 1,
        log.entries.drop_last() == guard.audit@.entries,
        log.entries.last().tool == call.tool@,
        log.entries.last().decision == "allow"@ <==> blocked is None,
        log.entries.last().decision == "deny"@ <==> blocked is Some,
{
    reveal_strlit("allow");
    reveal_strlit("deny");
    assert("allow"@.len() != "deny"@.len());
    assert(log.entries.drop_last() =~= guard.audit@.entries);
}

/// A human's yes allows and a human's no denies, and the reason says so in front of that of the
/// policy. Where no approval is asked for, the verdict stands as it is.
pub proof fn law_settled_reasons(decision: Decision, reason: Seq<char>, approved: bool)
    ensures
        decision == Decision::Approve && approved ==> settled((decision, reason), approved) == (
            Decision::Allow,
            "human approved: "@ + reason,
        ),
        decision == Decision::Approve && !approved ==> settled((decision, reason), approved) == (
            Decision::Deny,
            "human denied: "@ + reason,
        ),
        decision != Decision::Approve ==> settled((decision, reason), approved) == (
            decision,
            reason,
        ),
{
}

/// A blocked call is told from an executed one, and its message names the tool and the reason.
pub proof fn law_block_messages<T>(out: T, error: ToolBlockedError, tool: Seq<char>, reason: Seq<char>)
    ensures
        message_of(Ok::<T, ToolBlockedError>(out)) is None,
        message_of(Err::<T, ToolBlockedError>(error)) == Some(error.message@),
        block_message(tool, reason) == "blocked '"@ + tool + "': "@ + reason,
{
}

/// A callback made of a closure gives the answers that the closure gives, and can be asked where
/// the closure can be called.
pub proof fn law_closures_answer_for_themselves<F: Fn(&ToolCall, &str) -> bool>(
    ask: F,
    call: ToolCall,
    reason: Seq<char>,
    approved: bool,
)
    ensures
        closure_may_answer(ask, call, reason, approved) <==> exists|text: &str|
            text@ == reason && #[trigger] call_ensures(ask, (&call, text), approved),
        closure_can_ask(ask, call, reason) <==> forall|text: &str|
            text@ == reason ==> #[trigger] call_requires(ask, (&call, text)),
{
}

/// A call may be executed if and only if the policy allows it, or asks for approval and the
/// callback can say yes to it.
pub proof fn law_what_may_execute(guard: AgentGuard, call: ToolCall)
    ensures
        guard.may_execute(call) <==> guard.policy.verdict(call).0 == Decision::Allow || (
        guard.policy.verdict(call).0 == Decision::Approve && guard.approve.may_answer(
            call,
            guard.policy.verdict(call).1,
            true,
        )),
{
}

/// What a guarded call comes to, whatever is in the log: where the policy asks for approval the
/// callback has given the answer on this call and the policy's reason; the time of the entry is a
/// reading of the clock; the entry holds the tool, the decision and the reason; and the message of
/// a blocked call names the tool and the same reason.
pub proof fn law_guarded_call_comes_to(
    guard: AgentGuard,
    call: ToolCall,
    approved: bool,
    reading: Option<(u64, u32)>,
    log: LogView,
    blocked: Option<Seq<char>>,
)
    requires
        guard.can_come_to(call, approved, reading, log, blocked),
    ensures
        clock_gives(reading),
        log == guard.audit@.after_recording(
            log.entries.last().ts,
            call.tool@,
            log.entries.last().decision,
            log.entries.last().reason,
        ),
        log.entries.last().ts == reading_text(reading),
        guard.policy.verdict(call).0 == Decision::Approve ==> guard.approve.may_answer(
            call,
            guard.policy.verdict(call).1,
            approved,
        ),
        guard.policy.verdict(call).0 == Decision::Approve && approved ==> {
            &&& blocked is None
            &&& log.entries.last().decision == "allow"@
            &&& log.entries.last().reason == "human approved: "@ + guard.policy.verdict(call).1
        },
        guard.policy.verdict(call).0 == Decision::Approve && !approved ==> {
            &&& log.entries.last().decision == "deny"@
            &&& log.entries.last().reason == "human denied: "@ + guard.policy.verdict(call).1
        },
        guard.policy.verdict(call).0 == Decision::Allow ==> {
            &&& blocked is None
            &&& log.entries.last().decision == "allow"@
            &&& log.entries.last().reason == guard.policy.verdict(call).1
        },
        guard.policy.verdict(call).0 == Decision::Deny ==> {
            &&& log.entries.last().decision == "deny"@
            &&& log.entries.last().reason == guard.policy.verdict(call).1
        },
        log.entries.last().decision == "deny"@ ==> blocked == Some(
            "blocked '"@ + call.tool@ + "': "@ + log.entries.last().reason,
        ),
{
    reveal_strlit("allow");
    reveal_strlit("deny");
    assert("allow"@.len() != "deny"@.len());
}

/// A call that the policy allows is executed, whatever is in the log and whatever the callback
/// would say.
pub proof fn law_allowed_call_is_executed(
    guard: AgentGuard,
    call: ToolCall,
    approved: bool,
    reading: Option<(u64, u32)>,
    log: LogView,
    blocked: Option<Seq<char>>,
)
    requires
        guard.can_come_to(call, approved, reading, log, blocked),
        guard.policy.verdict(call).0 == Decision::Allow,
    ensures
        blocked is None,
{
}

/// A call that needs approval is executed where the callback cannot but say yes to it, whatever is
/// in the log.
pub proof fn law_approved_call_is_executed(
    guard: AgentGuard,
    call: ToolCall,
    approved: bool,
    reading: Option<(u64, u32)>,
    log: LogView,
    blocked: Option<Seq<char>>,
)
    requires
        guard.can_come_to(call, approved, reading, log, blocked),
        guard.policy.verdict(call).0 == Decision::Approve,
        !guard.approve.may_answer(call, guard.policy.verdict(call).1, false),
    ensures
        blocked is None,
{
}

/// A call that nothing can allow is blocked. A tool closure need not even be callable for the
/// guard to handle such a call, so it is not executed.
pub proof fn law_only_what_may_execute_passes(
    guard: AgentGuard,
    call: ToolCall,
    approved: bool,
    reading: Option<(u64, u32)>,
    log: LogView,
    blocked: Option<Seq<char>>,
)
    requires
        guard.can_come_to(call, approved, reading, log, blocked),
        !guard.may_execute(call),
    ensures
        blocked is Some,
{
}

/// A call that the policy denies is blocked, whatever the human answers.
pub proof fn law_denied_call_is_blocked(
    guard: AgentGuard,
    call: ToolCall,
    approved: bool,
    reading: Option<(u64, u32)>,
    log: LogView,
    blocked: Option<Seq<char>>,
)
    requires
        guard.can_come_to(call, approved, reading, log, blocked),
        guard.policy.verdict(call).0 == Decision::Deny,
    ensures
        blocked is Some,
{
}

/// A guard whose callback denies, such as the default one, blocks every call that needs
/// approval.
pub proof fn law_unapproved_call_is_blocked(
    guard: AgentGuard,
    call: ToolCall,
    approved: bool,
    reading: Option<(u64, u32)>,
    log: LogView,
    blocked: Option<Seq<char>>,
)
    requires
        forall|c: ToolCall, reason: Seq<char>| !#[trigger] guard.approve.may_answer(c, reason, true),
        guard.can_come_to(call, approved, reading, log, blocked),
        guard.policy.verdict(call).0 == Decision::Approve,
    ensures
        blocked is Some,
{
}

/// Whatever a new guard comes to rests on a draw from the random source: the secret key of its log
/// is what was drawn, the policy is the one given, the log is empty, and there is no guard only
/// where the draw failed.
pub proof fn law_new_guard_has_a_drawn_key(policy: Policy, made: Result<AgentGuard, EntropyError>)
    requires
        call_ensures(AgentGuard::new, (policy,), made),
    ensures
        exists|drawn: Result<[u8; 32], getrandom::Error>| #[trigger]
            is_draw(drawn) && (made is Ok <==> drawn is Ok) && (made is Ok ==> made->Ok_0.audit@
                == (LogView { secret: drawn->Ok_0@, recorded: 0, entries: Seq::empty() })
                && made->Ok_0.policy == policy),
{
    let drawn = choose|drawn: Result<[u8; 32], getrandom::Error>| #[trigger]
        is_draw(drawn) && match drawn {
            Ok(secret) => made matches Ok(guard) && guard.audit@.secret == secret@,
            Err(_) => made is Err,
        };
    assert(is_draw(drawn));
}

/// Whatever a new log comes to rests on a draw from the random source: its secret key is what was
/// drawn, it is empty, and there is no log only where the draw failed.
pub proof fn law_new_log_has_a_drawn_key(made: Result<AuditLog, EntropyError>)
    requires
        call_ensures(AuditLog::new, (), made),
    ensures
        exists|drawn: Result<[u8; 32], getrandom::Error>| #[trigger]
            is_draw(drawn) && (made is Ok <==> drawn is Ok) && (made is Ok ==> made->Ok_0@ == (
            LogView { secret: drawn->Ok_0@, recorded: 0, entries: Seq::empty() })),
{
    let drawn = choose|drawn: Result<[u8; 32], getrandom::Error>| #[trigger]
        is_draw(drawn) && match drawn {
            Ok(secret) => made matches Ok(log) && log@.secret == secret@,
            Err(_) => made is Err,
        };
    assert(is_draw(drawn));
}

/// The time that is written down is that of a reading of the clock.
pub proof fn law_time_is_read_from_the_clock(text: String)
    requires
        call_ensures(now_seconds, (), text),
    ensures
        exists|reading: Option<(u64, u32)>| #[trigger]
            clock_gives(reading) && match reading {
                Some(t) => text@ == seconds_text(t.0, t.1),
                None => text@ == seconds_text(0, 0),
            },
{
    let reading = choose|reading: Option<(u64, u32)>|
        clock_gives(reading) && is_reading(reading) && text@ == #[trigger] reading_text(reading);
    assert(clock_gives(reading));
}

/// The time of a recorded entry is that of a reading of the clock, and the entry has the tool, the
/// decision and the reason that were given.
pub proof fn law_recorded_time_is_read_from_the_clock(
    log: &mut AuditLog,
    tool: &str,
    decision: &str,
    reason: &str,
    entry: AuditEntry,
)
    requires
        call_ensures(AuditLog::record, (log, tool, decision, reason), entry),
    ensures
        entry.tool@ == tool@,
        entry.decision@ == decision@,
        entry.reason@ == reason@,
        exists|reading: Option<(u64, u32)>| #[trigger]
            clock_gives(reading) && match reading {
                Some(t) => entry.ts@ == seconds_text(t.0, t.1),
                None => entry.ts@ == seconds_text(0, 0),
            },
{
    let reading = choose|reading: Option<(u64, u32)>|
        clock_gives(reading) && is_reading(reading) && entry@.ts == #[trigger] reading_text(
            reading,
        );
    assert(clock_gives(reading));
}

} // verus!
