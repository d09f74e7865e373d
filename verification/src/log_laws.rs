//! What an audit entry holds, and what it takes for a log to verify.

use crate::audit::{entry_views, is_signature, text_hash, valid_at, AuditEntry, LogView};
use crate::canonical::canonical_text;
use crate::crypto::{ed25519_accepts, ed25519_public, ed25519_signature, sha256_digest};
use crate::hex::{hex_byte_at, hex_bytes, hex_text, hex_text_at, hex_value};
use vstd::prelude::*;
use vstd::utf8::encode_utf8;

verus! {

/// What is said of a list of audit lines is said of each field of each line.
pub proof fn law_views_leave_nothing_out(entries: Seq<AuditEntry>, k: int)
    requires
        0 <= k < entries.len(),
    ensures
        entry_views(entries).len() == entries.len(),
        entry_views(entries)[k].ts == entries[k].ts@,
        entry_views(entries)[k].tool == entries[k].tool@,
        entry_views(entries)[k].decision == entries[k].decision@,
        entry_views(entries)[k].reason == entries[k].reason@,
        entry_views(entries)[k].prev_hash == entries[k].prev_hash@,
        entry_views(entries)[k].entry_hash == entries[k].entry_hash@,
        entry_views(entries)[k].signature == entries[k].signature@,
{
}

/// The hash of a text is the SHA-256 digest of its UTF-8 bytes, in hexadecimal, and the public key
/// of a log is the one that belongs to its secret key.
pub proof fn law_hash_and_key(text: Seq<char>, log: LogView)
    ensures
        text_hash(text) == hex_text(sha256_digest(encode_utf8(text))@),
        log.public() == ed25519_public(log.secret)@,
{
}

/// Recording keeps the key and every earlier entry, counts one more, and adds one entry. It has the
/// four texts that were given, the hash of the entry before it (none for the first), the hash of
/// those five, and the signature of that hash under the key of the log.
pub proof fn law_recording_appends_one_entry(
    log: LogView,
    ts: Seq<char>,
    tool: Seq<char>,
    decision: Seq<char>,
    reason: Seq<char>,
)
    ensures
        ({
            let after = log.after_recording(ts, tool, decision, reason);
            let entry = after.entries[log.entries.len() as int];
            &&& after.secret == log.secret
            &&& log.recorded < u128::MAX ==> after.recorded == log.recorded + 1
            &&& after.entries.len() == log.entries.len() + 1
            &&& forall|k: int|
                0 <= k < log.entries.len() ==> #[trigger] after.entries[k] == log.entries[k]
            &&& entry == log.next_entry(ts, tool, decision, reason)
            &&& entry.ts == ts
            &&& entry.tool == tool
            &&& entry.decision == decision
            &&& entry.reason == reason
            &&& log.entries.len() == 0 ==> entry.prev_hash == Seq::<char>::empty()
            &&& log.entries.len() > 0 ==> entry.prev_hash == log.entries[log.entries.len()
                - 1].entry_hash
            &&& entry.entry_hash == hex_text(
                sha256_digest(
                    encode_utf8(canonical_text(ts, tool, decision, reason, entry.prev_hash)),
                )@,
            )
            &&& entry.signature == hex_text(
                ed25519_signature(log.secret, encode_utf8(entry.entry_hash))@,
            )
        }),
{
}

/// A text is a signature if and only if it is 128 lowercase hexadecimal digits, and the key accepts
/// the bytes that they spell for the UTF-8 bytes of the message.
pub proof fn law_signature_text(public: Seq<u8>, message: Seq<char>, text: Seq<char>)
    ensures
        is_signature(public, message, text) <==> {
            &&& text.len() == 128
            &&& forall|k: int|
                0 <= k < text.len() ==> ('0' <= #[trigger] text[k] <= '9' || 'a' <= text[k] <= 'f')
            &&& ed25519_accepts(public, encode_utf8(message), hex_bytes(text))
        },
{
    let bytes = hex_bytes(text);
    if is_signature(public, message, text) {
        assert forall|k: int| 0 <= k < text.len() implies ('0' <= #[trigger] text[k] <= '9' || 'a'
            <= text[k] <= 'f') by {
            assert(text[k] == hex_text_at(bytes, k));
        }
    }
    if text.len() == 128 && forall|k: int|
        0 <= k < text.len() ==> ('0' <= #[trigger] text[k] <= '9' || 'a' <= text[k] <= 'f') {
        assert forall|k: int| 0 <= k < text.len() implies #[trigger] hex_text_at(bytes, k)
            == text[k] by {
            assert(bytes[k / 2] == hex_byte_at(text, k / 2));
            let high = hex_value(text[2 * (k / 2)])->0;
            let low = hex_value(text[2 * (k / 2) + 1])->0;
            assert(0 <= high < 16 && 0 <= low < 16);
            assert(bytes[k / 2] == 16 * high + low);
        }
        assert(hex_text(bytes) =~= text);
    }
}

/// A log verifies if and only if no entry is missing or added, and each entry names the hash of the
/// one before it (the first one none), has the hash of its own fields, and a signature of that hash
/// that the key of the log accepts.
pub proof fn law_what_verifies(log: LogView)
    ensures
        log.intact() <==> {
            &&& log.entries.len() == log.recorded
            &&& forall|k: int|
                0 <= k < log.entries.len() ==> {
                    let e = #[trigger] log.entries[k];
                    &&& e.prev_hash == if k == 0 {
                        Seq::<char>::empty()
                    } else {
                        log.entries[k - 1].entry_hash
                    }
                    &&& e.entry_hash == hex_text(
                        sha256_digest(
                            encode_utf8(
                                canonical_text(e.ts, e.tool, e.decision, e.reason, e.prev_hash),
                            ),
                        )@,
                    )
                    &&& is_signature(ed25519_public(log.secret)@, e.entry_hash, e.signature)
                }
        },
{
    assert forall|k: int| 0 <= k < log.entries.len() implies #[trigger] valid_at(
        log.public(),
        log.entries,
        k,
    ) == ({
        let e = log.entries[k];
        &&& e.prev_hash == if k == 0 {
            Seq::<char>::empty()
        } else {
            log.entries[k - 1].entry_hash
        }
        &&& e.entry_hash == hex_text(
            sha256_digest(
                encode_utf8(canonical_text(e.ts, e.tool, e.decision, e.reason, e.prev_hash)),
            )@,
        )
        &&& is_signature(ed25519_public(log.secret)@, e.entry_hash, e.signature)
    }) by {}
    if log.intact() {
        assert forall|k: int| 0 <= k < log.entries.len() implies {
            let e = #[trigger] log.entries[k];
            &&& e.prev_hash == if k == 0 {
                Seq::<char>::empty()
            } else {
                log.entries[k - 1].entry_hash
            }
            &&& e.entry_hash == hex_text(
                sha256_digest(
                    encode_utf8(canonical_text(e.ts, e.tool, e.decision, e.reason, e.prev_hash)),
                )@,
            )
            &&& is_signature(ed25519_public(log.secret)@, e.entry_hash, e.signature)
        } by {
            assert(valid_at(log.public(), log.entries, k));
        }
    }
}

} // verus!
