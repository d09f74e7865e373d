//! Deny-by-default, least-privilege tool authorization.
//!
//! Every tool call is held against a policy before it is executed. The decision is to
//! allow it, to deny it, or to ask a human to approve it.

use crate::glob::{fnmatch, glob_matches};
use crate::table::NameTable;
use crate::text::{decimal, surround, to_decimal};
use vstd::prelude::*;

verus! {

/// The outcome of holding a tool call against a policy.
#[derive(Debug, Clone, Copy, PartialEq, Eq, Structural)]
pub enum Decision {
    /// Permit the tool call to execute.
    Allow,
    /// Block the tool call.
    Deny,
    /// Require human approval before the call may execute.
    Approve,
}

impl Decision {
    /// The decision as the audit log spells it.
    pub open spec fn word(self) -> Seq<char> {
        match self {
            Decision::Allow => "allow"@,
            Decision::Deny => "deny"@,
            Decision::Approve => "approve"@,
        }
    }

    /// The lowercase wire string stored in the audit log.
    pub fn value(self) -> (res: &'static str)
        ensures
            res@ == self.word(),
    {
        match self {
            Decision::Allow => "allow",
            Decision::Deny => "deny",
            Decision::Approve => "approve",
        }
    }
}

/// A single argument value in a tool call.
#[derive(Debug)]
pub enum ArgValue {
    /// A string argument.
    Str(String),
    /// An integer argument.
    Int(i64),
    /// An explicit null (treated the same as a missing argument).
    Null,
    /// Any other object; its text is a non-empty placeholder.
    Other,
}

impl ArgValue {
    /// The text of the value: a string is its own text, an integer is written in decimal,
    /// a null has the empty text and any other object a placeholder.
    pub open spec fn text(self) -> Seq<char> {
        match self {
            ArgValue::Str(s) => s@,
            ArgValue::Int(n) => decimal(n as int),
            ArgValue::Null => Seq::empty(),
            ArgValue::Other => "<object>"@,
        }
    }

    /// The text of the value.
    pub fn as_arg_string(&self) -> (res: String)
        ensures
            res@ == self.text(),
    {
        match self {
            ArgValue::Str(s) => s.clone(),
            ArgValue::Int(n) => to_decimal(*n),
            ArgValue::Null => String::new(),
            ArgValue::Other => "<object>".to_string(),
        }
    }
}

impl Clone for ArgValue {
    fn clone(&self) -> (res: Self)
        ensures
            res == *self,
    {
        match self {
            ArgValue::Str(s) => ArgValue::Str(s.clone()),
            ArgValue::Int(n) => ArgValue::Int(*n),
            ArgValue::Null => ArgValue::Null,
            ArgValue::Other => ArgValue::Other,
        }
    }
}

impl From<&str> for ArgValue {
    fn from(s: &str) -> (res: Self)
        ensures
            res matches ArgValue::Str(t) && t@ == s@,
    {
        ArgValue::Str(s.to_string())
    }
}

impl vstd::std_specs::convert::FromSpecImpl<&str> for ArgValue {
    open spec fn obeys_from_spec() -> bool {
        false
    }

    open spec fn from_spec(s: &str) -> Self {
        arbitrary()
    }
}

impl From<String> for ArgValue {
    fn from(s: String) -> (res: Self)
        ensures
            res == ArgValue::Str(s),
    {
        ArgValue::Str(s)
    }
}

impl vstd::std_specs::convert::FromSpecImpl<String> for ArgValue {
    open spec fn obeys_from_spec() -> bool {
        true
    }

    open spec fn from_spec(s: String) -> Self {
        ArgValue::Str(s)
    }
}

impl From<i64> for ArgValue {
    fn from(n: i64) -> (res: Self)
        ensures
            res == ArgValue::Int(n),
    {
        ArgValue::Int(n)
    }
}

impl vstd::std_specs::convert::FromSpecImpl<i64> for ArgValue {
    open spec fn obeys_from_spec() -> bool {
        true
    }

    open spec fn from_spec(n: i64) -> Self {
        ArgValue::Int(n)
    }
}

/// A single request by the agent to invoke a named tool with arguments.
#[derive(Debug)]
pub struct ToolCall {
    /// The tool name.
    pub tool: String,
    /// The call arguments, by name.
    pub args: NameTable<ArgValue>,
}

impl ToolCall {
    /// The text of the argument `key`; a missing argument has the empty text.
    pub open spec fn arg_text(self, key: Seq<char>) -> Seq<char> {
        if self.args@.contains_key(key) {
            self.args@[key].text()
        } else {
            Seq::empty()
        }
    }

    /// Build a tool call with no arguments.
    pub fn new(tool: &str) -> (res: Self)
        ensures
            res.tool@ == tool@,
            res.args@ == Map::<Seq<char>, ArgValue>::empty(),
    {
        ToolCall { tool: tool.to_string(), args: NameTable::new() }
    }

    /// Build a tool call with the given arguments.
    pub fn with_args(tool: &str, args: NameTable<ArgValue>) -> (res: Self)
        ensures
            res.tool@ == tool@,
            res.args == args,
    {
        ToolCall { tool: tool.to_string(), args }
    }

    /// The text of the argument `key`: a missing or null value has the empty text.
    pub fn arg_string(&self, key: &str) -> (res: String)
        ensures
            res@ == self.arg_text(key@),
    {
        match self.args.get(key) {
            Some(value) => value.as_arg_string(),
            None => String::new(),
        }
    }
}

impl Clone for ToolCall {
    fn clone(&self) -> (res: Self)
        ensures
            res.tool == self.tool,
            res.args@ == self.args@,
    {
        let args = self.args.clone();
        assert(args@ =~= self.args@);
        ToolCall { tool: self.tool.clone(), args }
    }
}

/// The constraints attached to one tool. The default value denies everything: `allow` is
/// false and every constraint list is empty.
#[derive(Debug)]
pub struct ToolPolicy {
    /// The tool this policy governs.
    pub tool: String,
    /// Whether the tool is allowed at all.
    pub allow: bool,
    /// Glob patterns a `path` argument must match.
    pub path_allow: Vec<String>,
    /// Glob patterns a `path` argument must not match.
    pub path_deny: Vec<String>,
    /// Exact domains a `domain` argument must be one of.
    pub domain_allow: Vec<String>,
    /// Whether the tool requires human approval.
    pub require_approval: bool,
}

impl Default for ToolPolicy {
    fn default() -> (res: Self)
        ensures
            res.tool@ == Seq::<char>::empty(),
            !res.allow,
            res.path_allow@ == Seq::<String>::empty(),
            res.path_deny@ == Seq::<String>::empty(),
            res.domain_allow@ == Seq::<String>::empty(),
            !res.require_approval,
    {
        ToolPolicy {
            tool: String::new(),
            allow: false,
            path_allow: Vec::new(),
            path_deny: Vec::new(),
            domain_allow: Vec::new(),
            require_approval: false,
        }
    }
}

impl Clone for ToolPolicy {
    fn clone(&self) -> (res: Self)
        ensures
            res.tool == self.tool,
            res.allow == self.allow,
            res.path_allow@ == self.path_allow@,
            res.path_deny@ == self.path_deny@,
            res.domain_allow@ == self.domain_allow@,
            res.require_approval == self.require_approval,
    {
        ToolPolicy {
            tool: self.tool.clone(),
            allow: self.allow,
            path_allow: self.path_allow.clone(),
            path_deny: self.path_deny.clone(),
            domain_allow: self.domain_allow.clone(),
            require_approval: self.require_approval,
        }
    }
}

/// The first of the globs that matches `path`, if one does.
pub open spec fn first_match(globs: Seq<String>, path: Seq<char>) -> Option<Seq<char>>
    decreases globs.len(),
{
    if globs.len() == 0 {
        None
    } else if glob_matches(path, globs[0]@) {
        Some(globs[0]@)
    } else {
        first_match(globs.skip(1), path)
    }
}

/// Whether one of the globs matches `path`.
pub open spec fn any_match(globs: Seq<String>, path: Seq<char>) -> bool {
    exists|k: int| 0 <= k < globs.len() && glob_matches(path, (#[trigger] globs[k])@)
}

/// Whether `text` is in the list.
pub open spec fn listed(list: Seq<String>, text: Seq<char>) -> bool {
    exists|k: int| 0 <= k < list.len() && (#[trigger] list[k])@ == text
}

impl ToolPolicy {
    /// What the policy has against the path of a call, if anything.
    pub open spec fn path_objection(self, tool: Seq<char>, path: Seq<char>) -> Option<Seq<char>> {
        if path.len() == 0 {
            if self.path_allow@.len() > 0 {
                Some("tool '"@ + tool + "' requires a path within its allowed set"@)
            } else {
                None
            }
        } else {
            match first_match(self.path_deny@, path) {
                Some(glob) => Some(
                    ("path '"@ + path + "' matches deny pattern '"@) + glob + "'"@,
                ),
                None => if self.path_allow@.len() > 0 && !any_match(self.path_allow@, path) {
                    Some("path '"@ + path + "' not in allowed paths"@)
                } else {
                    None
                },
            }
        }
    }

    /// What the policy has against the domain of a call, if anything.
    pub open spec fn domain_objection(self, tool: Seq<char>, domain: Seq<char>) -> Option<
        Seq<char>,
    > {
        if self.domain_allow@.len() == 0 {
            None
        } else if domain.len() == 0 {
            Some("tool '"@ + tool + "' requires a domain within its allowed set"@)
        } else if !listed(self.domain_allow@, domain) {
            Some("domain '"@ + domain + "' not in allow-list"@)
        } else {
            None
        }
    }

    fn object_to_path(&self, tool: &str, path: &str) -> (res: Option<String>)
        ensures
            match res {
                Some(reason) => self.path_objection(tool@, path@) == Some(reason@),
                None => self.path_objection(tool@, path@) is None,
            },
    {
        // A tool that is restricted to certain paths is refused where the call names none:
        // nothing then shows that it stays in bounds.
        if path.is_empty() {
            if self.path_allow.len() > 0 {
                return Some(surround("tool '", tool, "' requires a path within its allowed set"));
            }
            return None;
        }
        let mut k: usize = 0;
        assert(self.path_deny@.skip(0) =~= self.path_deny@);
        while k < self.path_deny.len()
            invariant
                path@.len() > 0,
                k <= self.path_deny.len(),
                first_match(self.path_deny@, path@) == first_match(
                    self.path_deny@.skip(k as int),
                    path@,
                ),
            decreases self.path_deny.len() - k,
        {
            assert(self.path_deny@.skip(k as int).skip(1) =~= self.path_deny@.skip(k + 1));
            let pattern = self.path_deny[k].as_str();
            if fnmatch(path, pattern) {
                let head = surround("path '", path, "' matches deny pattern '");
                return Some(surround(head.as_str(), pattern, "'"));
            }
            k += 1;
        }
        if self.path_allow.len() > 0 && !match_any(&self.path_allow, path) {
            return Some(surround("path '", path, "' not in allowed paths"));
        }
        None
    }

    fn object_to_domain(&self, tool: &str, domain: &String) -> (res: Option<String>)
        ensures
            match res {
                Some(reason) => self.domain_objection(tool@, domain@) == Some(reason@),
                None => self.domain_objection(tool@, domain@) is None,
            },
    {
        if self.domain_allow.len() == 0 {
            return None;
        }
        if domain.as_str().is_empty() {
            return Some(surround("tool '", tool, "' requires a domain within its allowed set"));
        }
        if !lists(&self.domain_allow, domain) {
            return Some(surround("domain '", domain.as_str(), "' not in allow-list"));
        }
        None
    }
}

/// Whether one of the globs matches `path`.
fn match_any(globs: &Vec<String>, path: &str) -> (res: bool)
    ensures
        res == any_match(globs@, path@),
{
    let mut k: usize = 0;
    while k < globs.len()
        invariant
            k <= globs.len(),
            forall|m: int| 0 <= m < k ==> !glob_matches(path@, (#[trigger] globs[m])@),
        decreases globs.len() - k,
    {
        if fnmatch(path, globs[k].as_str()) {
            return true;
        }
        k += 1;
    }
    false
}

/// Whether `text` is in the list.
fn lists(list: &Vec<String>, text: &String) -> (res: bool)
    ensures
        res == listed(list@, text@),
{
    let mut k: usize = 0;
    while k < list.len()
        invariant
            k <= list.len(),
            forall|m: int| 0 <= m < k ==> (#[trigger] list[m])@ != text@,
        decreases list.len() - k,
    {
        if list[k] == *text {
            return true;
        }
        k += 1;
    }
    false
}

/// Deny-by-default: only explicitly allowed tools, within their declared constraints, ever
/// pass.
#[derive(Debug)]
pub struct Policy {
    /// The allow-table, keyed by tool name.
    pub tools: NameTable<ToolPolicy>,
}

/// The table that a list of tool policies makes: where a tool is listed more than once, the
/// last one counts.
pub open spec fn table_of(tools: Seq<ToolPolicy>) -> Map<Seq<char>, ToolPolicy>
    decreases tools.len(),
{
    if tools.len() == 0 {
        Map::empty()
    } else {
        table_of(tools.drop_last()).insert(tools.last().tool@, tools.last())
    }
}

impl Policy {
    /// Whether the policy lists the tool as one that may be called at all.
    pub open spec fn admits(self, tool: Seq<char>) -> bool {
        self.tools@.contains_key(tool) && self.tools@[tool].allow
    }

    /// The decision on a call, and the reason for it.
    pub open spec fn verdict(self, call: ToolCall) -> (Decision, Seq<char>) {
        if !self.admits(call.tool@) {
            (
                Decision::Deny,
                "tool '"@ + call.tool@ + "' not in allow-list (deny-by-default)"@,
            )
        } else {
            let rules = self.tools@[call.tool@];
            match rules.path_objection(call.tool@, call.arg_text("path"@)) {
                Some(reason) => (Decision::Deny, reason),
                None => match rules.domain_objection(call.tool@, call.arg_text("domain"@)) {
                    Some(reason) => (Decision::Deny, reason),
                    None => if rules.require_approval {
                        (
                            Decision::Approve,
                            "tool '"@ + call.tool@ + "' requires human approval"@,
                        )
                    } else {
                        (Decision::Allow, "ok"@)
                    },
                },
            }
        }
    }

    /// Build a policy from a list of tool policies, keyed by tool name.
    pub fn new(tools: Vec<ToolPolicy>) -> (res: Self)
        ensures
            res.tools@ == table_of(tools@),
    {
        let ghost listed = tools@;
        let mut table: NameTable<ToolPolicy> = NameTable::new();
        for rules in it: tools
            invariant
                it.seq() == listed,
                table@ == table_of(listed.take(it.index())),
        {
            assert(listed.take(it.index() + 1).drop_last() =~= listed.take(it.index()));
            table.insert(rules.tool.clone(), rules);
        }
        assert(listed.take(listed.len() as int) =~= listed);
        Policy { tools: table }
    }

    /// Evaluate a tool call and return the decision plus a human-readable reason.
    pub fn evaluate(&self, call: &ToolCall) -> (res: (Decision, String))
        ensures
            (res.0, res.1@) == self.verdict(*call),
    {
        let tool = call.tool.as_str();
        let rules = match self.tools.get(tool) {
            Some(rules) if rules.allow => rules,
            _ => {
                return (
                    Decision::Deny,
                    surround("tool '", tool, "' not in allow-list (deny-by-default)"),
                );
            },
        };
        let path = call.arg_string("path");
        if let Some(reason) = rules.object_to_path(tool, path.as_str()) {
            return (Decision::Deny, reason);
        }
        let domain = call.arg_string("domain");
        if let Some(reason) = rules.object_to_domain(tool, &domain) {
            return (Decision::Deny, reason);
        }
        if rules.require_approval {
            return (Decision::Approve, surround("tool '", tool, "' requires human approval"));
        }
        (Decision::Allow, "ok".to_string())
    }
}

impl Default for Policy {
    /// A policy that lists no tool.
    fn default() -> (res: Self)
        ensures
            res.tools@ == Map::<Seq<char>, ToolPolicy>::empty(),
    {
        Policy { tools: NameTable::new() }
    }
}

impl Clone for Policy {
    fn clone(&self) -> (res: Self)
        ensures
            res.tools@.dom() == self.tools@.dom(),
            forall|name: Seq<char>| #[trigger]
                self.tools@.contains_key(name) ==> cloned(self.tools@[name], res.tools@[name]),
            forall|call: ToolCall| #[trigger] res.verdict(call) == self.verdict(call),
    {
        Policy { tools: self.tools.clone() }
    }
}

} // verus!
