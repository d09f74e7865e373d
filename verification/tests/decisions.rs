//! The policy engine and the guard, with their exact reasons and messages.

use agent_guard::audit::verify_sig;
use agent_guard::runtime::settle;
use agent_guard::text::to_decimal;
use agent_guard::{
    AgentGuard, Approval, ArgValue, AuditLog, Decision, EntropyError, NameTable, Policy,
    ToolBlockedError, ToolCall, ToolPolicy,
};

fn tool(name: &str) -> ToolPolicy {
    ToolPolicy {
        tool: name.to_string(),
        allow: true,
        ..Default::default()
    }
}

fn with(name: &str, args: &[(&str, ArgValue)]) -> ToolCall {
    let mut table = NameTable::new();
    for (key, value) in args {
        table.insert(key.to_string(), value.clone());
    }
    ToolCall::with_args(name, table)
}

fn decide(policy: &Policy, call: &ToolCall) -> (Decision, String) {
    policy.evaluate(call)
}

fn reader() -> Policy {
    Policy::new(vec![ToolPolicy {
        path_allow: vec!["/a/*".to_string(), "/b/*".to_string()],
        path_deny: vec!["*.key".to_string(), "*secret*".to_string()],
        domain_allow: vec!["x.org".to_string()],
        ..tool("read")
    }])
}

#[test]
fn every_reason_is_spelled_out() {
    let policy = reader();
    let path = |p: &str| ("path", ArgValue::from(p));
    let domain = |d: &str| ("domain", ArgValue::from(d));
    assert_eq!(
        decide(&policy, &with("write", &[])),
        (Decision::Deny, "tool 'write' not in allow-list (deny-by-default)".to_string())
    );
    assert_eq!(
        decide(&policy, &with("read", &[])),
        (Decision::Deny, "tool 'read' requires a path within its allowed set".to_string())
    );
    assert_eq!(
        decide(&policy, &with("read", &[path("/a/secret.key")])),
        (
            Decision::Deny,
            "path '/a/secret.key' matches deny pattern '*.key'".to_string()
        )
    );
    assert_eq!(
        decide(&policy, &with("read", &[path("/a/secret")])),
        (
            Decision::Deny,
            "path '/a/secret' matches deny pattern '*secret*'".to_string()
        )
    );
    assert_eq!(
        decide(&policy, &with("read", &[path("/c/x")])),
        (Decision::Deny, "path '/c/x' not in allowed paths".to_string())
    );
    assert_eq!(
        decide(&policy, &with("read", &[path("/b/x")])),
        (
            Decision::Deny,
            "tool 'read' requires a domain within its allowed set".to_string()
        )
    );
    assert_eq!(
        decide(&policy, &with("read", &[path("/b/x"), domain("y.org")])),
        (Decision::Deny, "domain 'y.org' not in allow-list".to_string())
    );
    assert_eq!(
        decide(&policy, &with("read", &[path("/b/x"), domain("x.org")])),
        (Decision::Allow, "ok".to_string())
    );
    let gated = Policy::new(vec![ToolPolicy {
        require_approval: true,
        ..tool("sh")
    }]);
    assert_eq!(
        decide(&gated, &with("sh", &[])),
        (Decision::Approve, "tool 'sh' requires human approval".to_string())
    );
}

#[test]
fn approval_does_not_lift_a_constraint() {
    let policy = Policy::new(vec![ToolPolicy {
        path_allow: vec!["/a/*".to_string()],
        require_approval: true,
        ..tool("rm")
    }]);
    let outside = with("rm", &[("path", "/c".into())]);
    assert_eq!(policy.evaluate(&outside).0, Decision::Deny);
    let mut guard = AgentGuard::with_log(policy, AuditLog::from_secret([1u8; 32]))
        .with_approval(|_, _| true);
    assert!(guard.guard(&outside, |_| ()).is_err());
}

#[test]
fn defaults_deny_everything() {
    assert_eq!(
        Policy::default().evaluate(&ToolCall::new("x")).0,
        Decision::Deny
    );
    let listed = Policy::new(vec![ToolPolicy {
        tool: "x".to_string(),
        ..Default::default()
    }]);
    assert_eq!(listed.evaluate(&ToolCall::new("x")).0, Decision::Deny);
}

#[test]
fn the_last_policy_for_a_tool_counts() {
    let refused = ToolPolicy {
        allow: false,
        ..tool("x")
    };
    let call = ToolCall::new("x");
    let opened = Policy::new(vec![refused.clone(), tool("x")]);
    assert_eq!(opened.evaluate(&call).0, Decision::Allow);
    let closed = Policy::new(vec![tool("x"), tool("y"), refused]);
    assert_eq!(closed.evaluate(&call).0, Decision::Deny);
    assert_eq!(closed.evaluate(&ToolCall::new("y")).0, Decision::Allow);
}

#[test]
fn null_counts_as_missing() {
    let policy = reader();
    for key in ["path", "domain", "other"] {
        let base = with("read", &[]);
        let nulled = with("read", &[(key, ArgValue::Null)]);
        assert_eq!(policy.evaluate(&base), policy.evaluate(&nulled));
    }
}

#[test]
fn other_arguments_do_not_count() {
    let policy = reader();
    let base = with("read", &[("path", "/a/x".into()), ("domain", "x.org".into())]);
    let more = with(
        "read",
        &[
            ("path", "/a/x".into()),
            ("domain", "x.org".into()),
            ("Path", "/etc/passwd".into()),
            ("extra", ArgValue::Other),
        ],
    );
    assert_eq!(policy.evaluate(&base), policy.evaluate(&more));
}

#[test]
fn objects_have_a_placeholder_for_a_path() {
    let (decision, reason) = reader().evaluate(&with("read", &[("path", ArgValue::Other)]));
    assert_eq!(decision, Decision::Deny);
    assert_eq!(reason, "path '<object>' not in allowed paths");
}

#[test]
fn a_deny_list_alone_takes_calls_without_a_path() {
    let policy = Policy::new(vec![ToolPolicy {
        path_deny: vec!["*".to_string()],
        ..tool("x")
    }]);
    assert_eq!(policy.evaluate(&ToolCall::new("x")).0, Decision::Allow);
    assert_eq!(
        policy.evaluate(&with("x", &[("path", "a".into())])).0,
        Decision::Deny
    );
}

#[test]
fn argument_texts() {
    let call = with(
        "t",
        &[
            ("s", "text".into()),
            ("owned", String::from("more").into()),
            ("n", (-7i64).into()),
            ("null", ArgValue::Null),
            ("o", ArgValue::Other),
        ],
    );
    assert_eq!(call.arg_string("s"), "text");
    assert_eq!(call.arg_string("owned"), "more");
    assert_eq!(call.arg_string("n"), "-7");
    assert_eq!(call.arg_string("null"), "");
    assert_eq!(call.arg_string("o"), "<object>");
    assert_eq!(call.arg_string("missing"), "");
    assert_eq!(call.clone().arg_string("s"), "text");
}

#[test]
fn integers_in_decimal() {
    for n in [0, 7, 10, -1, -10, 12345, i64::MAX, i64::MIN] {
        assert_eq!(to_decimal(n), n.to_string());
    }
}

#[test]
fn tables_hold_one_value_per_name() {
    let mut table: NameTable<i64> = NameTable::default();
    assert!(table.get("a").is_none());
    assert_eq!(table.insert("a".to_string(), 1), None);
    assert_eq!(table.insert("b".to_string(), 2), None);
    assert_eq!(table.insert("a".to_string(), 3), Some(1));
    assert_eq!(table.get("a"), Some(&3));
    assert_eq!(table.get("b"), Some(&2));
    assert!(table.get("A").is_none());
    let copy = table.clone();
    table.insert("b".to_string(), 9);
    assert_eq!(copy.get("b"), Some(&2));
    assert_eq!(copy.get("a"), Some(&3));
}

#[test]
fn tables_count_test_and_remove() {
    let mut table: NameTable<i64> = NameTable::new();
    assert_eq!(table.len(), 0);
    assert_eq!(table.remove("a"), None);
    table.insert("a".to_string(), 1);
    table.insert("b".to_string(), 2);
    table.insert("c".to_string(), 3);
    table.insert("b".to_string(), 4);
    assert_eq!(table.len(), 3);
    assert!(table.contains_key("b"));
    assert!(!table.contains_key("B"));
    assert_eq!(table.remove("b"), Some(4));
    assert_eq!(table.remove("b"), None);
    assert!(!table.contains_key("b"));
    assert_eq!(table.len(), 2);
    assert_eq!(table.get("a"), Some(&1));
    assert_eq!(table.get("c"), Some(&3));
}

#[test]
fn a_tool_taken_out_of_the_policy_is_denied() {
    let mut policy = Policy::new(vec![tool("ls"), tool("cat")]);
    assert_eq!(policy.evaluate(&ToolCall::new("ls")).0, Decision::Allow);
    assert!(policy.tools.remove("ls").is_some());
    assert_eq!(policy.evaluate(&ToolCall::new("ls")).0, Decision::Deny);
    assert_eq!(policy.evaluate(&ToolCall::new("cat")).0, Decision::Allow);
    assert_eq!(policy.tools.len(), 1);
}

#[test]
fn cloned_policies_decide_alike() {
    let policy = reader();
    let copy = policy.clone();
    for path in ["/a/x", "/b/secret", "/c", ""] {
        let call = with("read", &[("path", path.into()), ("domain", "x.org".into())]);
        assert_eq!(policy.evaluate(&call), copy.evaluate(&call));
    }
}

#[test]
fn answers_settle_what_needs_approval() {
    assert_eq!(
        settle("why", true),
        (Decision::Allow, "human approved: why".to_string())
    );
    assert_eq!(
        settle("why", false),
        (Decision::Deny, "human denied: why".to_string())
    );
}

fn gated() -> AgentGuard {
    let policy = Policy::new(vec![
        ToolPolicy {
            require_approval: true,
            ..tool("sh")
        },
        tool("ls"),
    ]);
    AgentGuard::with_log(policy, AuditLog::from_secret([1u8; 32]))
}

#[test]
fn a_guard_comes_of_a_draw_or_not_at_all() {
    assert!(matches!(
        AgentGuard::from_entropy(reader(), Err(getrandom::Error::UNSUPPORTED)),
        Err(EntropyError)
    ));
    let policy = Policy::new(vec![ToolPolicy {
        require_approval: true,
        ..tool("sh")
    }]);
    let mut guard = AgentGuard::from_entropy(policy, Ok([5u8; 32])).ok().unwrap();
    assert_eq!(
        guard.audit.public_key(),
        AuditLog::from_secret([5u8; 32]).public_key()
    );
    assert!(guard.audit.entries().is_empty());
    assert!(guard.audit.verify_chain());
    assert!(guard.guard(&ToolCall::new("sh"), |_| ()).is_err());
    assert_eq!(guard.audit.entries().len(), 1);
}

#[test]
fn the_default_callback_denies() {
    let mut guard = gated();
    let err = guard.guard(&ToolCall::new("sh"), |_| 1).unwrap_err();
    assert_eq!(
        err.message,
        "blocked 'sh': human denied: tool 'sh' requires human approval"
    );
    assert!(!Approval::deny_all().ask(&ToolCall::new("sh"), "why"));
}

#[test]
fn the_callback_sees_the_call_and_the_reason() {
    let mut guard = gated().with_approval(|call, reason| {
        call.tool == "sh" && reason == "tool 'sh' requires human approval"
    });
    assert_eq!(guard.guard(&ToolCall::new("sh"), |c| c.tool.len()), Ok(2));
    let entries = guard.audit.entries();
    assert_eq!(entries[0].decision, "allow");
    assert_eq!(
        entries[0].reason,
        "human approved: tool 'sh' requires human approval"
    );
    let approval = Approval::from_fn(|_, reason| reason == "why");
    assert!(approval.ask(&ToolCall::new("sh"), "why"));
    assert!(!approval.ask(&ToolCall::new("sh"), "why not"));
}

#[test]
fn the_callback_is_asked_only_where_approval_is_needed() {
    let mut guard = gated().with_approval(|_, _| panic!("asked"));
    assert_eq!(guard.guard(&ToolCall::new("ls"), |_| 5), Ok(5));
    assert!(guard.guard(&ToolCall::new("rm"), |_| 5).is_err());
}

#[test]
fn a_given_answer_is_settled_recorded_and_carried_out() {
    let mut guard = gated().with_approval(|_, _| panic!("asked"));
    let sh = ToolCall::new("sh");
    assert_eq!(guard.guard_answered(&sh, true, "1", |_| 5), Ok(5));
    assert_eq!(
        guard.guard_answered(&sh, false, "2", |_| 5),
        Err(ToolBlockedError {
            message: "blocked 'sh': human denied: tool 'sh' requires human approval".to_string()
        })
    );
    // The answer neither revokes what is allowed nor lifts a denial.
    assert_eq!(
        guard.guard_answered(&ToolCall::new("ls"), false, "3", |_| 5),
        Ok(5)
    );
    assert!(guard
        .guard_answered(&ToolCall::new("rm"), true, "4", |_| 5)
        .is_err());
    let entries = guard.audit.entries();
    let written: Vec<(&str, &str, &str)> = entries
        .iter()
        .map(|e| (e.ts.as_str(), e.decision.as_str(), e.reason.as_str()))
        .collect();
    assert_eq!(
        written,
        vec![
            ("1", "allow", "human approved: tool 'sh' requires human approval"),
            ("2", "deny", "human denied: tool 'sh' requires human approval"),
            ("3", "allow", "ok"),
            ("4", "deny", "tool 'rm' not in allow-list (deny-by-default)"),
        ]
    );
    assert!(guard.audit.verify_chain());
}

#[test]
fn blocked_calls_are_not_executed() {
    let mut guard = gated();
    let mut ran = 0;
    let _ = guard.guard(&ToolCall::new("rm"), |_| ran += 1);
    let _ = guard.guard(&ToolCall::new("sh"), |_| ran += 1);
    assert_eq!(ran, 0);
    let _ = guard.guard(&ToolCall::new("ls"), |_| ran += 1);
    assert_eq!(ran, 1);
}

#[test]
fn every_call_leaves_one_entry() {
    let mut guard = gated();
    for (k, name) in ["ls", "rm", "sh", "ls"].iter().enumerate() {
        let out = guard.guard(&ToolCall::new(name), |_| ());
        let entries = guard.audit.entries();
        assert_eq!(entries.len(), k + 1);
        assert_eq!(entries[k].tool, *name);
        assert_eq!(entries[k].decision == "allow", out.is_ok());
        assert_eq!(entries[k].decision == "deny", out.is_err());
    }
    assert!(guard.audit.verify_chain());
}

#[test]
fn entries_are_signed_whatever_stands_before_them() {
    let mut guard = gated();
    let _ = guard.guard(&ToolCall::new("ls"), |_| ());
    guard.audit.entries_mut()[0].reason = "changed".to_string();
    let _ = guard.guard(&ToolCall::new("rm"), |_| ());
    let last = guard.audit.entries()[1].clone();
    assert!(verify_sig(
        &guard.audit.public_key(),
        &last.entry_hash,
        &last.signature
    ));
    assert!(!guard.audit.verify_chain());
}

#[test]
fn decisions_can_be_carried_out_at_a_given_time() {
    let mut guard = gated();
    let call = ToolCall::new("ls");
    assert_eq!(
        guard.carry_out(&call, Decision::Allow, "ok", "1.5", |_| 3),
        Ok(3)
    );
    assert_eq!(
        guard.carry_out(&call, Decision::Deny, "no", "2", |_| 3),
        Err(ToolBlockedError {
            message: "blocked 'ls': no".to_string()
        })
    );
    let entries = guard.audit.entries();
    assert_eq!(entries[0].ts, "1.5");
    assert_eq!(entries[1].ts, "2");
    assert_eq!(entries[1].decision, "deny");
}

#[test]
fn blocked_errors_compare_by_message() {
    let err = ToolBlockedError {
        message: "m".to_string(),
    };
    assert_eq!(err.clone(), err);
    assert_eq!(err.to_string(), "m");
}
