//! Signed, append-only audit log for every tool-call decision.
//!
//! Each entry is chained to the one before it and Ed25519-signed, so the trail is
//! tamper-evident: it shows after the fact exactly what the agent was allowed to do and why.

use crate::canonical::{canonical, canonical_text};
use crate::clock::{clock_gives, is_reading, now_seconds, reading_text};
use crate::crypto::{
    accepts, draw, ed25519_accepts, ed25519_public, ed25519_signature, is_draw, public_key_of,
    sha256, sha256_digest, sign,
};
use crate::hex::{hex_bytes, hex_decode, hex_encode, hex_text, law_hex_round_trip};
use crate::tamper::law_recording_mends_nothing;
use vstd::prelude::*;
use vstd::utf8::encode_utf8;

verus! {

/// One audit line. Fields are public and mutable so that tampering can change them after the
/// fact: verification is what catches any such edit.
#[derive(Debug)]
pub struct AuditEntry {
    /// Wall-clock time the entry was recorded: the seconds since the Unix epoch, in decimal.
    pub ts: String,
    /// The tool the decision was about.
    pub tool: String,
    /// The decision, as a wire string ("allow"/"deny"/"approve").
    pub decision: String,
    /// The human-readable reason for the decision.
    pub reason: String,
    /// Hash of the previous entry, chaining this one to it.
    pub prev_hash: String,
    /// SHA-256 hash committing to this entry's fields.
    pub entry_hash: String,
    /// Ed25519 signature over `entry_hash`, hex-encoded.
    pub signature: String,
}

/// What an audit line says.
#[verifier::ext_equal]
pub struct EntryView {
    pub ts: Seq<char>,
    pub tool: Seq<char>,
    pub decision: Seq<char>,
    pub reason: Seq<char>,
    pub prev_hash: Seq<char>,
    pub entry_hash: Seq<char>,
    pub signature: Seq<char>,
}

impl View for AuditEntry {
    type V = EntryView;

    open spec fn view(&self) -> EntryView {
        EntryView {
            ts: self.ts@,
            tool: self.tool@,
            decision: self.decision@,
            reason: self.reason@,
            prev_hash: self.prev_hash@,
            entry_hash: self.entry_hash@,
            signature: self.signature@,
        }
    }
}

impl Clone for AuditEntry {
    fn clone(&self) -> (res: Self)
        ensures
            res == *self,
    {
        AuditEntry {
            ts: self.ts.clone(),
            tool: self.tool.clone(),
            decision: self.decision.clone(),
            reason: self.reason.clone(),
            prev_hash: self.prev_hash.clone(),
            entry_hash: self.entry_hash.clone(),
            signature: self.signature.clone(),
        }
    }
}

/// What a list of audit lines says.
pub open spec fn entry_views(entries: Seq<AuditEntry>) -> Seq<EntryView> {
    entries.map_values(|e: AuditEntry| e@)
}

/// The SHA-256 hash of a text, in hexadecimal.
pub open spec fn text_hash(text: Seq<char>) -> Seq<char> {
    hex_text(sha256_digest(encode_utf8(text))@)
}

/// The hash that the chain holds before the entry at `k`: none before the first one.
pub open spec fn hash_before(entries: Seq<EntryView>, k: int) -> Seq<char> {
    if k == 0 {
        Seq::empty()
    } else {
        entries[k - 1].entry_hash
    }
}

impl EntryView {
    /// The text that the hash of the entry has to commit to.
    pub open spec fn committed_text(self) -> Seq<char> {
        canonical_text(self.ts, self.tool, self.decision, self.reason, self.prev_hash)
    }

    /// Whether the entry is the right one behind `prev_hash`, and signed under the key.
    pub open spec fn is_valid(self, public: Seq<u8>, prev_hash: Seq<char>) -> bool {
        &&& self.prev_hash == prev_hash
        &&& self.entry_hash == text_hash(self.committed_text())
        &&& is_signature(public, self.entry_hash, self.signature)
    }
}

/// Whether the text is the lowercase hexadecimal form of a signature that the key accepts for
/// the message.
pub open spec fn is_signature(public: Seq<u8>, message: Seq<char>, text: Seq<char>) -> bool {
    &&& text == hex_text(hex_bytes(text))
    &&& hex_bytes(text).len() == 64
    &&& ed25519_accepts(public, encode_utf8(message), hex_bytes(text))
}

/// Whether the entry at `k` is the right one behind those before it, and signed under the key.
pub open spec fn valid_at(public: Seq<u8>, entries: Seq<EntryView>, k: int) -> bool {
    entries[k].is_valid(public, hash_before(entries, k))
}

/// Whether each entry is the right one behind those before it, and signed under the key.
pub open spec fn is_chain(public: Seq<u8>, entries: Seq<EntryView>) -> bool {
    forall|k: int| 0 <= k < entries.len() ==> #[trigger] valid_at(public, entries, k)
}

/// What an audit log holds.
#[verifier::ext_equal]
pub struct LogView {
    /// The secret signing key.
    pub secret: Seq<u8>,
    /// How many entries were recorded over the life of the log.
    pub recorded: nat,
    /// The entries that are in the log now.
    pub entries: Seq<EntryView>,
}

impl LogView {
    /// The verifying key.
    pub open spec fn public(self) -> Seq<u8> {
        ed25519_public(self.secret)@
    }

    /// Whether the log is as it was recorded: nothing is missing, and the entries are a chain.
    pub open spec fn intact(self) -> bool {
        self.entries.len() == self.recorded && is_chain(self.public(), self.entries)
    }

    /// The entry that the log would record now.
    pub open spec fn next_entry(
        self,
        ts: Seq<char>,
        tool: Seq<char>,
        decision: Seq<char>,
        reason: Seq<char>,
    ) -> EntryView {
        let prev_hash = hash_before(self.entries, self.entries.len() as int);
        let entry_hash = text_hash(canonical_text(ts, tool, decision, reason, prev_hash));
        EntryView {
            ts,
            tool,
            decision,
            reason,
            prev_hash,
            entry_hash,
            signature: hex_text(ed25519_signature(self.secret, encode_utf8(entry_hash))@),
        }
    }

    /// Whether the log ends with an entry, and its key accepts the signature of that entry.
    pub open spec fn last_is_signed(self) -> bool {
        &&& self.entries.len() > 0
        &&& is_signature(
            self.public(),
            self.entries.last().entry_hash,
            self.entries.last().signature,
        )
    }

    /// The log with that entry at its end. The count of recorded entries stops at the largest
    /// `u128`, which is more than a list in memory can hold.
    pub open spec fn after_recording(
        self,
        ts: Seq<char>,
        tool: Seq<char>,
        decision: Seq<char>,
        reason: Seq<char>,
    ) -> LogView {
        LogView {
            secret: self.secret,
            recorded: if self.recorded < u128::MAX {
                self.recorded + 1
            } else {
                self.recorded
            },
            entries: self.entries.push(self.next_entry(ts, tool, decision, reason)),
        }
    }
}

/// The next entry of a chain fits behind those before it.
proof fn lemma_next_entry_fits(
    log: LogView,
    ts: Seq<char>,
    tool: Seq<char>,
    decision: Seq<char>,
    reason: Seq<char>,
)
    requires
        is_chain(log.public(), log.entries),
        log.after_recording(ts, tool, decision, reason).last_is_signed(),
    ensures
        is_chain(
            log.public(),
            log.after_recording(ts, tool, decision, reason).entries,
        ),
{
    let entry = log.next_entry(ts, tool, decision, reason);
    let after = log.entries.push(entry);
    assert(after.last() == entry);
    assert forall|k: int| 0 <= k < after.len() implies #[trigger] valid_at(
        log.public(),
        after,
        k,
    ) by {
        if k < log.entries.len() {
            assert(valid_at(log.public(), log.entries, k));
            assert(after[k] == log.entries[k]);
            assert(hash_before(after, k) == hash_before(log.entries, k));
        } else {
            assert(hash_before(after, k) == entry.prev_hash);
        }
    }
}

/// The random source of the operating system gave no key.
#[derive(Debug, Clone, Copy, PartialEq, Eq, Structural)]
pub struct EntropyError;

/// A signed, append-only, hash-chained record of tool-call decisions. Each entry commits to the
/// hash of the previous one and is signed on its own, which makes the trail tamper-evident.
pub struct AuditLog {
    secret: [u8; 32],
    recorded: u128,
    entries: Vec<AuditEntry>,
}

impl View for AuditLog {
    type V = LogView;

    closed spec fn view(&self) -> LogView {
        LogView {
            secret: self.secret@,
            recorded: self.recorded as nat,
            entries: entry_views(self.entries@),
        }
    }
}

impl AuditLog {
    /// Create an audit log with the given Ed25519 secret key.
    pub fn from_secret(secret: [u8; 32]) -> (res: Self)
        ensures
            res@ == (LogView { secret: secret@, recorded: 0, entries: Seq::empty() }),
            res@.intact(),
    {
        let res = AuditLog { secret, recorded: 0, entries: Vec::new() };
        assert(res@.entries =~= Seq::empty());
        res
    }

    /// Create an audit log with what the random source gave for a key.
    pub fn from_entropy(drawn: Result<[u8; 32], getrandom::Error>) -> (res: Result<
        Self,
        EntropyError,
    >)
        ensures
            match drawn {
                Ok(secret) => res matches Ok(log) && log@ == (LogView {
                    secret: secret@,
                    recorded: 0,
                    entries: Seq::empty(),
                }) && log@.intact(),
                Err(_) => res is Err,
            },
    {
        match drawn {
            Ok(secret) => Ok(AuditLog::from_secret(secret)),
            Err(_) => Err(EntropyError),
        }
    }

    /// Create an audit log with a freshly generated Ed25519 key, where the random source of the
    /// operating system gives one. Whether it does, and which key it is, rests on that source;
    /// `from_entropy` says what comes of each draw.
    pub fn new() -> (res: Result<Self, EntropyError>)
        ensures
            exists|drawn: Result<[u8; 32], getrandom::Error>| #[trigger]
                is_draw(drawn) && match drawn {
                    Ok(secret) => res matches Ok(log) && log@.secret == secret@,
                    Err(_) => res is Err,
                },
            res matches Ok(log) ==> {
                &&& log@.secret.len() == 32
                &&& log@.entries == Seq::<EntryView>::empty()
                &&& log@.recorded == 0
                &&& log@.intact()
            },
    {
        AuditLog::from_entropy(draw())
    }

    /// The verifying (public) key for this log's signatures.
    pub fn public_key(&self) -> (res: [u8; 32])
        ensures
            res@ == self@.public(),
    {
        public_key_of(&self.secret)
    }

    /// Append a signed, chained entry for a tool-call decision, with the time it is given, and
    /// return a clone.
    pub fn record_at(&mut self, ts: &str, tool: &str, decision: &str, reason: &str) -> (res:
        AuditEntry)
        ensures
            res@ == old(self)@.next_entry(ts@, tool@, decision@, reason@),
            final(self)@ == old(self)@.after_recording(ts@, tool@, decision@, reason@),
            is_signature(final(self)@.public(), res@.entry_hash, res@.signature),
            final(self)@.intact() == old(self)@.intact(),
    {
        let prev_hash = match self.entries.last() {
            Some(e) => e.entry_hash.clone(),
            None => String::new(),
        };
        let entry_hash = sha256_hex(
            canonical(ts, tool, decision, reason, prev_hash.as_str()).as_str(),
        );
        let raw = sign(&self.secret, entry_hash.as_str().as_bytes());
        proof {
            law_hex_round_trip(raw@);
        }
        let entry = AuditEntry {
            ts: ts.to_string(),
            tool: tool.to_string(),
            decision: decision.to_string(),
            reason: reason.to_string(),
            prev_hash,
            entry_hash,
            signature: hex_encode(&raw),
        };
        self.entries.push(entry.clone());
        if self.recorded < u128::MAX {
            self.recorded += 1;
        }
        proof {
            assert(self@.entries =~= old(self)@.entries.push(entry@));
            assert(self@ == old(self)@.after_recording(ts@, tool@, decision@, reason@));
            if old(self)@.intact() {
                lemma_next_entry_fits(old(self)@, ts@, tool@, decision@, reason@);
            } else {
                assert(old(self)@.entries.len() == old(self).entries.len());
                law_recording_mends_nothing(old(self)@, ts@, tool@, decision@, reason@);
            }
        }
        entry
    }

    /// Append a signed, chained entry for a tool-call decision and return a clone.
    pub fn record(&mut self, tool: &str, decision: &str, reason: &str) -> (res: AuditEntry)
        ensures
            res@ == old(self)@.next_entry(res@.ts, tool@, decision@, reason@),
            final(self)@ == old(self)@.after_recording(res@.ts, tool@, decision@, reason@),
            is_signature(final(self)@.public(), res@.entry_hash, res@.signature),
            final(self)@.intact() == old(self)@.intact(),
            exists|reading: Option<(u64, u32)>|
                clock_gives(reading) && is_reading(reading) && res@.ts == #[trigger] reading_text(
                    reading,
                ),
    {
        let ts = now_seconds();
        self.record_at(ts.as_str(), tool, decision, reason)
    }

    /// A snapshot clone of the entry list.
    pub fn entries(&self) -> (res: Vec<AuditEntry>)
        ensures
            entry_views(res@) == self@.entries,
    {
        self.entries.clone()
    }

    /// Mutable access to the backing entries, for white-box tamper tests.
    pub fn entries_mut(&mut self) -> (res: &mut Vec<AuditEntry>)
        ensures
            entry_views(res@) == old(self)@.entries,
            final(self)@ == (LogView { entries: entry_views(final(res)@), ..old(self)@ }),
    {
        &mut self.entries
    }

    /// Recompute every entry's hash and check its signature and link to the previous entry;
    /// returns false if anything has been altered, reordered, truncated, or re-signed with the
    /// wrong key.
    pub fn verify_chain(&self) -> (res: bool)
        ensures
            res == self@.intact(),
    {
        if self.entries.len() as u128 != self.recorded {
            return false;
        }
        verify_entries(&public_key_of(&self.secret), &self.entries)
    }
}

/// Whether the entries are a chain under the key.
fn verify_entries(public: &[u8; 32], entries: &Vec<AuditEntry>) -> (res: bool)
    ensures
        res == is_chain(public@, entry_views(entries@)),
{
    let ghost views = entry_views(entries@);
    let mut prev = String::new();
    let mut k: usize = 0;
    while k < entries.len()
        invariant
            views == entry_views(entries@),
            k <= entries.len(),
            prev@ == hash_before(views, k as int),
            forall|m: int| 0 <= m < k ==> #[trigger] valid_at(public@, views, m),
        decreases entries.len() - k,
    {
        let e = &entries[k];
        assert(views[k as int] == e@);
        if !verify_entry(public, e, &prev) {
            assert(!valid_at(public@, views, k as int));
            return false;
        }
        prev = e.entry_hash.clone();
        k += 1;
    }
    true
}

/// Whether the entry is the right one behind `prev`, and signed under the key.
fn verify_entry(public: &[u8; 32], e: &AuditEntry, prev: &String) -> (res: bool)
    ensures
        res == e@.is_valid(public@, prev@),
{
    if !(e.prev_hash == *prev) {
        return false;
    }
    let text = canonical(
        e.ts.as_str(),
        e.tool.as_str(),
        e.decision.as_str(),
        e.reason.as_str(),
        prev.as_str(),
    );
    let expected = sha256_hex(text.as_str());
    if !(expected == e.entry_hash) {
        return false;
    }
    verify_sig(public, e.entry_hash.as_str(), &e.signature)
}

/// Whether the text is a signature of the message, as the log writes signatures.
pub fn verify_sig(public: &[u8; 32], message: &str, signature_hex: &String) -> (res: bool)
    ensures
        res == is_signature(public@, message@, signature_hex@),
{
    let raw = match hex_decode(signature_hex.as_str()) {
        Some(raw) => raw,
        None => {
            proof {
                law_hex_round_trip(hex_bytes(signature_hex@));
            }
            return false;
        },
    };
    if raw.len() != 64 || !(hex_encode(raw.as_slice()) == *signature_hex) {
        return false;
    }
    accepts(public, message.as_bytes(), raw.as_slice())
}

/// The SHA-256 hash of a text, in hexadecimal.
pub fn sha256_hex(s: &str) -> (res: String)
    ensures
        res@ == text_hash(s@),
{
    hex_encode(&sha256(s.as_bytes()))
}

} // verus!
