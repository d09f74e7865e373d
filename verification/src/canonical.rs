//! The text of an audit entry that its hash commits to.
//!
//! It is a JSON object with the keys in order: decision, prev_hash, reason, tool, ts.

use crate::text::chars_of;
use vstd::prelude::*;

verus! {

/// A character inside a JSON string: a quote and a backslash get a backslash before them.
pub open spec fn escaped(c: char) -> Seq<char> {
    if c == '"' || c == '\\' {
        seq!['\\', c]
    } else {
        seq![c]
    }
}

/// The text with each character escaped.
pub open spec fn escape(s: Seq<char>) -> Seq<char>
    decreases s.len(),
{
    if s.len() == 0 {
        Seq::empty()
    } else {
        escaped(s[0]) + escape(s.skip(1))
    }
}

/// The text as a JSON string.
pub open spec fn json_text(s: Seq<char>) -> Seq<char> {
    seq!['"'] + escape(s) + seq!['"']
}

/// The canonical text of an audit entry.
pub open spec fn canonical_text(
    ts: Seq<char>,
    tool: Seq<char>,
    decision: Seq<char>,
    reason: Seq<char>,
    prev_hash: Seq<char>,
) -> Seq<char> {
    "{\"decision\": "@ + json_text(decision) + ", \"prev_hash\": "@ + json_text(prev_hash)
        + ", \"reason\": "@ + json_text(reason) + ", \"tool\": "@ + json_text(tool) + ", \"ts\": "@
        + ts + "}"@
}

/// Writes a text as a JSON string.
pub fn json_str(s: &str) -> (res: String)
    ensures
        res@ == json_text(s@),
{
    let chars = chars_of(s);
    let mut res = String::new();
    res.push('"');
    let mut k: usize = 0;
    assert(s@.skip(0) =~= s@);
    while k < chars.len()
        invariant
            chars@ == s@,
            k <= chars.len(),
            seq!['"'] + escape(s@) =~= res@ + escape(s@.skip(k as int)),
        decreases chars.len() - k,
    {
        assert(s@.skip(k as int).skip(1) =~= s@.skip(k + 1));
        let c = chars[k];
        if c == '"' || c == '\\' {
            res.push('\\');
        }
        res.push(c);
        k += 1;
    }
    res.push('"');
    res
}

/// Writes the canonical text of an audit entry.
pub fn canonical(
    ts: &str,
    tool: &str,
    decision: &str,
    reason: &str,
    prev_hash: &str,
) -> (res: String)
    ensures
        res@ == canonical_text(ts@, tool@, decision@, reason@, prev_hash@),
{
    let mut res = "{\"decision\": ".to_string();
    res.append(json_str(decision).as_str());
    res.append(", \"prev_hash\": ");
    res.append(json_str(prev_hash).as_str());
    res.append(", \"reason\": ");
    res.append(json_str(reason).as_str());
    res.append(", \"tool\": ");
    res.append(json_str(tool).as_str());
    res.append(", \"ts\": ");
    res.append(ts);
    res.append("}");
    res
}

/// Texts with the same start and the same whole have the same end.
proof fn lemma_same_start(start: Seq<char>, a: Seq<char>, b: Seq<char>)
    requires
        start + a == start + b,
    ensures
        a == b,
{
    assert((start + a).skip(start.len() as int) =~= a);
    assert((start + b).skip(start.len() as int) =~= b);
}

/// An escaped text ends where the first bare quote stands.
proof fn lemma_escape_ends(a: Seq<char>, x: Seq<char>, b: Seq<char>, y: Seq<char>)
    requires
        escape(a) + seq!['"'] + x == escape(b) + seq!['"'] + y,
    ensures
        a == b,
        x == y,
    decreases a.len(),
{
    let quote = seq!['"'];
    let left = escape(a) + quote + x;
    let right = escape(b) + quote + y;
    if a.len() == 0 {
        assert(left =~= quote + x);
        assert(left[0] == '"');
        if b.len() > 0 {
            assert(right[0] == escaped(b[0])[0]);
            assert(false);
        }
        assert(right =~= quote + y);
        lemma_same_start(quote, x, y);
        assert(a =~= b);
    } else {
        assert(left[0] == escaped(a[0])[0]);
        if b.len() == 0 {
            assert(right =~= quote + y);
            assert(right[0] == '"');
            assert(false);
        }
        assert(right[0] == escaped(b[0])[0]);
        if escaped(a[0]).len() == 2 {
            assert(left[1] == escaped(a[0])[1]);
        }
        if escaped(b[0]).len() == 2 {
            assert(right[1] == escaped(b[0])[1]);
        }
        assert(a[0] == b[0]);
        let rest_left = escape(a.skip(1)) + quote + x;
        let rest_right = escape(b.skip(1)) + quote + y;
        assert(left =~= escaped(a[0]) + rest_left);
        assert(right =~= escaped(b[0]) + rest_right);
        lemma_same_start(escaped(a[0]), rest_left, rest_right);
        lemma_escape_ends(a.skip(1), x, b.skip(1), y);
        assert(a =~= seq![a[0]] + a.skip(1));
        assert(b =~= seq![b[0]] + b.skip(1));
    }
}

/// A JSON string at the start of a text is read in one way only.
proof fn lemma_json_ends(a: Seq<char>, x: Seq<char>, b: Seq<char>, y: Seq<char>)
    requires
        json_text(a) + x == json_text(b) + y,
    ensures
        a == b,
        x == y,
{
    let quote = seq!['"'];
    assert(json_text(a) + x =~= quote + (escape(a) + quote + x));
    assert(json_text(b) + y =~= quote + (escape(b) + quote + y));
    lemma_same_start(quote, escape(a) + quote + x, escape(b) + quote + y);
    lemma_escape_ends(a, x, b, y);
}

/// One field of the object: its key with what stands before it, its value, and the rest.
proof fn lemma_field(key: Seq<char>, a: Seq<char>, x: Seq<char>, b: Seq<char>, y: Seq<char>)
    requires
        key + (json_text(a) + x) == key + (json_text(b) + y),
    ensures
        a == b,
        x == y,
{
    lemma_same_start(key, json_text(a) + x, json_text(b) + y);
    lemma_json_ends(a, x, b, y);
}

/// The canonical text as a key, a value and the rest, four times over.
proof fn lemma_canonical_nested(
    ts: Seq<char>,
    tool: Seq<char>,
    decision: Seq<char>,
    reason: Seq<char>,
    prev_hash: Seq<char>,
)
    ensures
        canonical_text(ts, tool, decision, reason, prev_hash) == "{\"decision\": "@ + (json_text(
            decision,
        ) + (", \"prev_hash\": "@ + (json_text(prev_hash) + (", \"reason\": "@ + (json_text(reason)
            + (", \"tool\": "@ + (json_text(tool) + (", \"ts\": "@ + (ts + "}"@))))))))),
{
    assert(canonical_text(ts, tool, decision, reason, prev_hash) =~= "{\"decision\": "@ + (
    json_text(decision) + (", \"prev_hash\": "@ + (json_text(prev_hash) + (", \"reason\": "@ + (
    json_text(reason) + (", \"tool\": "@ + (json_text(tool) + (", \"ts\": "@ + (ts
        + "}"@))))))))));
}

/// The canonical text commits to all five fields: two entries with the same text agree on
/// every one of them.
pub proof fn law_canonical_commits(
    ts1: Seq<char>,
    tool1: Seq<char>,
    decision1: Seq<char>,
    reason1: Seq<char>,
    prev1: Seq<char>,
    ts2: Seq<char>,
    tool2: Seq<char>,
    decision2: Seq<char>,
    reason2: Seq<char>,
    prev2: Seq<char>,
)
    requires
        canonical_text(ts1, tool1, decision1, reason1, prev1) == canonical_text(
            ts2,
            tool2,
            decision2,
            reason2,
            prev2,
        ),
    ensures
        ts1 == ts2,
        tool1 == tool2,
        decision1 == decision2,
        reason1 == reason2,
        prev1 == prev2,
{
    lemma_canonical_nested(ts1, tool1, decision1, reason1, prev1);
    lemma_canonical_nested(ts2, tool2, decision2, reason2, prev2);
    let end1 = ", \"ts\": "@ + (ts1 + "}"@);
    let end2 = ", \"ts\": "@ + (ts2 + "}"@);
    let tool_on1 = ", \"tool\": "@ + (json_text(tool1) + end1);
    let tool_on2 = ", \"tool\": "@ + (json_text(tool2) + end2);
    let reason_on1 = ", \"reason\": "@ + (json_text(reason1) + tool_on1);
    let reason_on2 = ", \"reason\": "@ + (json_text(reason2) + tool_on2);
    let prev_on1 = ", \"prev_hash\": "@ + (json_text(prev1) + reason_on1);
    let prev_on2 = ", \"prev_hash\": "@ + (json_text(prev2) + reason_on2);
    lemma_field("{\"decision\": "@, decision1, prev_on1, decision2, prev_on2);
    lemma_field(", \"prev_hash\": "@, prev1, reason_on1, prev2, reason_on2);
    lemma_field(", \"reason\": "@, reason1, tool_on1, reason2, tool_on2);
    lemma_field(", \"tool\": "@, tool1, end1, tool2, end2);
    lemma_same_start(", \"ts\": "@, ts1 + "}"@, ts2 + "}"@);
    assert((ts1 + "}"@).len() == ts1.len() + "}"@.len());
    assert((ts2 + "}"@).len() == ts2.len() + "}"@.len());
    assert((ts1 + "}"@).take(ts1.len() as int) =~= ts1);
    assert((ts2 + "}"@).take(ts2.len() as int) =~= ts2);
}

/// A text without a quote and a backslash is a JSON string as it stands, between quotes.
pub proof fn law_json_plain(s: Seq<char>)
    requires
        forall|k: int| 0 <= k < s.len() ==> #[trigger] s[k] != '"' && s[k] != '\\',
    ensures
        json_text(s) == seq!['"'] + s + seq!['"'],
{
    lemma_escape_plain(s);
}

proof fn lemma_escape_plain(s: Seq<char>)
    requires
        forall|k: int| 0 <= k < s.len() ==> #[trigger] s[k] != '"' && s[k] != '\\',
    ensures
        escape(s) == s,
    decreases s.len(),
{
    if s.len() > 0 {
        let rest = s.skip(1);
        assert forall|k: int| 0 <= k < rest.len() implies #[trigger] rest[k] != '"' && rest[k]
            != '\\' by {
            assert(rest[k] == s[k + 1]);
        }
        lemma_escape_plain(rest);
        assert(seq![s[0]] + rest =~= s);
    } else {
        assert(s =~= Seq::empty());
    }
}

/// Inside a JSON string a quote and a backslash have a backslash before them, and stand between
/// what is written of the text on either side.
pub proof fn law_json_escapes(before: Seq<char>, c: char, after: Seq<char>)
    requires
        c == '"' || c == '\\',
    ensures
        json_text(before + seq![c] + after) == json_text(before).drop_last() + seq!['\\', c]
            + json_text(after).skip(1),
{
    lemma_escape_splits(before, seq![c] + after);
    assert(before + seq![c] + after =~= before + (seq![c] + after));
    let tail = seq![c] + after;
    assert(tail[0] == c);
    assert(tail.skip(1) =~= after);
    assert(escape(tail) == seq!['\\', c] + escape(after));
    assert(json_text(before).drop_last() =~= seq!['"'] + escape(before));
    assert(json_text(after).skip(1) =~= escape(after) + seq!['"']);
    assert(json_text(before + seq![c] + after) =~= json_text(before).drop_last() + seq!['\\', c]
        + json_text(after).skip(1));
}

proof fn lemma_escape_splits(a: Seq<char>, b: Seq<char>)
    ensures
        escape(a + b) == escape(a) + escape(b),
    decreases a.len(),
{
    if a.len() == 0 {
        assert(a + b =~= b);
        assert(escape(a) + escape(b) =~= escape(b));
    } else {
        lemma_escape_splits(a.skip(1), b);
        assert((a + b)[0] == a[0]);
        assert((a + b).skip(1) =~= a.skip(1) + b);
        assert(escape(a + b) =~= escape(a) + escape(b));
    }
}

/// The canonical text is one JSON object: each of the five fields stands behind its own key, the
/// keys in order, and the time as it is.
pub proof fn law_canonical_layout(
    ts: Seq<char>,
    tool: Seq<char>,
    decision: Seq<char>,
    reason: Seq<char>,
    prev_hash: Seq<char>,
)
    ensures
        canonical_text(ts, tool, decision, reason, prev_hash) == "{\"decision\": "@ + json_text(
            decision,
        ) + ", \"prev_hash\": "@ + json_text(prev_hash) + ", \"reason\": "@ + json_text(reason)
            + ", \"tool\": "@ + json_text(tool) + ", \"ts\": "@ + ts + "}"@,
{
}

} // verus!
