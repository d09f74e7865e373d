//! Why a change to the audit log does not go unnoticed.
//!
//! A log that was changed after the fact still verifies only where someone has found two
//! different byte strings with one SHA-256 digest, or a signature that the log never wrote.

use crate::audit::{hash_before, is_chain, text_hash, valid_at, EntryView, LogView};
use crate::canonical::law_canonical_commits;
use crate::crypto::{ed25519_accepts, sha256_digest};
use crate::hex::{hex_bytes, law_hex_text_injective};
use vstd::prelude::*;
use vstd::utf8::{encode_utf8, encode_utf8_decode_utf8};

verus! {

/// Whether the two entries show a collision of SHA-256: the bytes that they commit to differ,
/// and have the same digest.
pub open spec fn collide(a: EntryView, b: EntryView) -> bool {
    &&& encode_utf8(a.committed_text()) != encode_utf8(b.committed_text())
    &&& sha256_digest(encode_utf8(a.committed_text()))@ == sha256_digest(
        encode_utf8(b.committed_text()),
    )@
}

/// Whether an entry of the one list and an entry of the other show a collision of SHA-256.
pub open spec fn show_collision(a: Seq<EntryView>, b: Seq<EntryView>) -> bool {
    exists|i: int, j: int|
        0 <= i < a.len() && 0 <= j < b.len() && #[trigger] collide(a[i], b[j])
}

/// Whether some entry of the list carries this hash with this signature.
pub open spec fn carries(
    entries: Seq<EntryView>,
    entry_hash: Seq<char>,
    signature: Seq<char>,
) -> bool {
    exists|j: int|
        0 <= j < entries.len() && (#[trigger] entries[j]).entry_hash == entry_hash
            && entries[j].signature == signature
}

/// Whether an entry of `altered` carries a signed hash that no recorded entry carries.
pub open spec fn shows_forgery(recorded: Seq<EntryView>, altered: Seq<EntryView>) -> bool {
    exists|i: int|
        0 <= i < altered.len() && !carries(
            recorded,
            (#[trigger] altered[i]).entry_hash,
            altered[i].signature,
        )
}

/// Entries with the same hash say the same, or show a collision.
pub proof fn law_hash_commits(a: EntryView, b: EntryView)
    requires
        a.entry_hash == text_hash(a.committed_text()),
        b.entry_hash == text_hash(b.committed_text()),
        a.entry_hash == b.entry_hash,
    ensures
        collide(a, b) || {
            &&& a.ts == b.ts
            &&& a.tool == b.tool
            &&& a.decision == b.decision
            &&& a.reason == b.reason
            &&& a.prev_hash == b.prev_hash
        },
{
    let text_a = a.committed_text();
    let text_b = b.committed_text();
    law_hex_text_injective(
        sha256_digest(encode_utf8(text_a))@,
        sha256_digest(encode_utf8(text_b))@,
    );
    if !collide(a, b) {
        encode_utf8_decode_utf8(text_a);
        encode_utf8_decode_utf8(text_b);
        law_canonical_commits(
            a.ts,
            a.tool,
            a.decision,
            a.reason,
            a.prev_hash,
            b.ts,
            b.tool,
            b.decision,
            b.reason,
            b.prev_hash,
        );
    }
}

/// Of two entries of a chain the later one links to an entry, and the first one to none.
proof fn lemma_link_is_not_empty(public: Seq<u8>, entries: Seq<EntryView>, k: int)
    requires
        is_chain(public, entries),
        0 < k <= entries.len(),
    ensures
        hash_before(entries, k).len() > 0,
{
    assert(valid_at(public, entries, k - 1));
    let text = entries[k - 1].committed_text();
    assert(sha256_digest(encode_utf8(text))@.len() == 32);
}

/// No hash comes twice in a chain, or its entries show a collision.
pub proof fn law_hashes_are_distinct(
    public: Seq<u8>,
    entries: Seq<EntryView>,
    i: int,
    j: int,
)
    requires
        is_chain(public, entries),
        0 <= i < j < entries.len(),
        entries[i].entry_hash == entries[j].entry_hash,
    ensures
        show_collision(entries, entries),
    decreases i,
{
    assert(valid_at(public, entries, i));
    assert(valid_at(public, entries, j));
    law_hash_commits(entries[i], entries[j]);
    if !collide(entries[i], entries[j]) {
        lemma_link_is_not_empty(public, entries, j);
        if i > 0 {
            law_hashes_are_distinct(public, entries, i - 1, j - 1);
        }
    }
}

/// The first `n` entries of an altered chain are the first `n` that were recorded.
proof fn lemma_same_entries(
    public: Seq<u8>,
    recorded: Seq<EntryView>,
    altered: Seq<EntryView>,
    n: int,
)
    requires
        is_chain(public, recorded),
        is_chain(public, altered),
        !shows_forgery(recorded, altered),
        !show_collision(recorded, recorded),
        !show_collision(recorded, altered),
        0 <= n <= altered.len(),
    ensures
        n <= recorded.len(),
        altered.take(n) == recorded.take(n),
    decreases n,
{
    if n == 0 {
        assert(altered.take(0) =~= recorded.take(0));
    } else {
        let k = n - 1;
        lemma_same_entries(public, recorded, altered, k);
        assert(carries(recorded, altered[k].entry_hash, altered[k].signature));
        let j = choose|j: int|
            0 <= j < recorded.len() && (#[trigger] recorded[j]).entry_hash == altered[k].entry_hash
                && recorded[j].signature == altered[k].signature;
        assert(valid_at(public, recorded, j));
        assert(valid_at(public, altered, k));
        assert(!collide(recorded[j], altered[k]));
        law_hash_commits(recorded[j], altered[k]);
        if k == 0 {
            if j > 0 {
                lemma_link_is_not_empty(public, recorded, j);
            }
        } else {
            lemma_link_is_not_empty(public, altered, k);
            assert(altered[k - 1] == altered.take(k)[k - 1]);
            assert(recorded[k - 1] == recorded.take(k)[k - 1]);
            if j < k {
                law_hashes_are_distinct(public, recorded, j - 1, k - 1);
            } else if k < j {
                law_hashes_are_distinct(public, recorded, k - 1, j - 1);
            }
        }
        assert(j == k);
        assert(altered[k] =~= recorded[k]);
        assert forall|m: int| 0 <= m < n implies altered.take(n)[m] == recorded.take(n)[m] by {
            if m < k {
                assert(altered.take(k)[m] == recorded.take(k)[m]);
            }
        }
        assert(altered.take(n) =~= recorded.take(n));
    }
}

/// Whatever an intact log is changed into (an entry edited, removed, added, moved or replaced),
/// it no longer verifies, unless the change shows a collision of SHA-256 or a forged signature.
pub proof fn law_tampering_is_detected(log: LogView, altered: Seq<EntryView>)
    requires
        log.intact(),
        altered != log.entries,
    ensures
        ({
            ||| !(LogView { entries: altered, ..log }).intact()
            ||| shows_forgery(log.entries, altered)
            ||| show_collision(log.entries, log.entries)
            ||| show_collision(log.entries, altered)
        }),
{
    let tampered = LogView { entries: altered, ..log };
    if tampered.intact() && !shows_forgery(log.entries, altered) && !show_collision(
        log.entries,
        log.entries,
    ) && !show_collision(log.entries, altered) {
        lemma_same_entries(log.public(), log.entries, altered, altered.len() as int);
        assert(altered.take(altered.len() as int) =~= altered);
        assert(log.entries.take(log.entries.len() as int) =~= log.entries);
    }
}

/// An edit of the time, the tool, the decision, the reason or the link of an entry is caught,
/// unless the entry and the edited one show a collision of SHA-256.
pub proof fn law_edited_entry_is_detected(log: LogView, k: int, edited: EntryView)
    requires
        log.intact(),
        0 <= k < log.entries.len(),
        edited != log.entries[k],
        edited.entry_hash == log.entries[k].entry_hash,
        edited.signature == log.entries[k].signature,
    ensures
        ({
            ||| !(LogView { entries: log.entries.update(k, edited), ..log }).intact()
            ||| collide(log.entries[k], edited)
        }),
{
    let altered = log.entries.update(k, edited);
    assert(valid_at(log.public(), log.entries, k));
    if is_chain(log.public(), altered) {
        assert(valid_at(log.public(), altered, k));
        law_hash_commits(log.entries[k], edited);
        assert(collide(log.entries[k], edited) || edited =~= log.entries[k]);
    }
}

/// An entry that is given another hash or another link, and nothing else, is caught.
pub proof fn law_edited_hash_is_detected(log: LogView, k: int, edited: EntryView)
    requires
        log.intact(),
        0 <= k < log.entries.len(),
        edited.ts == log.entries[k].ts,
        edited.tool == log.entries[k].tool,
        edited.decision == log.entries[k].decision,
        edited.reason == log.entries[k].reason,
        edited.prev_hash != log.entries[k].prev_hash || edited.entry_hash
            != log.entries[k].entry_hash,
    ensures
        !(LogView { entries: log.entries.update(k, edited), ..log }).intact(),
{
    let altered = log.entries.update(k, edited);
    assert(valid_at(log.public(), log.entries, k));
    if is_chain(log.public(), altered) {
        assert(valid_at(log.public(), altered, k));
        assert(hash_before(altered, k) == hash_before(log.entries, k));
    }
}

/// An entry that is given another signature, be it a changed one, one in other letters or one
/// under another key, is caught, unless Ed25519 accepts other bytes than those that the log
/// wrote.
pub proof fn law_edited_signature_is_detected(log: LogView, k: int, signature: Seq<char>)
    requires
        log.intact(),
        0 <= k < log.entries.len(),
        signature != log.entries[k].signature,
    ensures
        ({
            let edited = EntryView { signature, ..log.entries[k] };
            ||| !(LogView { entries: log.entries.update(k, edited), ..log }).intact()
            ||| {
                &&& hex_bytes(signature) != hex_bytes(log.entries[k].signature)
                &&& ed25519_accepts(
                    log.public(),
                    encode_utf8(log.entries[k].entry_hash),
                    hex_bytes(signature),
                )
            }
        }),
{
    let edited = EntryView { signature, ..log.entries[k] };
    let altered = log.entries.update(k, edited);
    assert(valid_at(log.public(), log.entries, k));
    if is_chain(log.public(), altered) {
        assert(valid_at(log.public(), altered, k));
    }
}

/// A log that has lost entries is caught.
pub proof fn law_truncation_is_detected(log: LogView, kept: Seq<EntryView>)
    requires
        log.intact(),
        kept.len() < log.entries.len(),
    ensures
        !(LogView { entries: kept, ..log }).intact(),
{
}

/// Two entries that have changed places are caught, unless the entries of the log show a
/// collision of SHA-256.
pub proof fn law_reordering_is_detected(log: LogView, i: int, j: int)
    requires
        log.intact(),
        0 <= i < j < log.entries.len(),
    ensures
        ({
            ||| !(LogView {
                entries: log.entries.update(i, log.entries[j]).update(j, log.entries[i]),
                ..log
            }).intact()
            ||| show_collision(log.entries, log.entries)
        }),
{
    let entries = log.entries;
    let swapped = entries.update(i, entries[j]).update(j, entries[i]);
    // Where the entry at `m` of the swapped list stood before.
    let origin = |m: int|
        if m == i {
            j
        } else if m == j {
            i
        } else {
            m
        };
    if swapped == entries {
        assert(swapped[i] == entries[j]);
        law_hashes_are_distinct(log.public(), entries, i, j);
    } else {
        law_tampering_is_detected(log, swapped);
        assert forall|m: int| 0 <= m < swapped.len() implies carries(
            entries,
            (#[trigger] swapped[m]).entry_hash,
            swapped[m].signature,
        ) by {
            assert(swapped[m] == entries[origin(m)]);
        }
        if show_collision(entries, swapped) {
            let (a, b) = choose|a: int, b: int|
                0 <= a < entries.len() && 0 <= b < swapped.len() && #[trigger] collide(
                    entries[a],
                    swapped[b],
                );
            assert(swapped[b] == entries[origin(b)]);
            assert(collide(entries[a], entries[origin(b)]));
        }
    }
}

/// What was tampered with is not mended by recording more: a log that does not verify does not
/// verify with another entry at its end. A log in memory holds no more entries than a `usize`
/// counts.
pub proof fn law_recording_mends_nothing(
    log: LogView,
    ts: Seq<char>,
    tool: Seq<char>,
    decision: Seq<char>,
    reason: Seq<char>,
)
    requires
        !log.intact(),
        log.entries.len() <= usize::MAX,
    ensures
        !log.after_recording(ts, tool, decision, reason).intact(),
{
    let after = log.after_recording(ts, tool, decision, reason);
    if log.entries.len() == log.recorded {
        let k = choose|k: int|
            0 <= k < log.entries.len() && !#[trigger] valid_at(log.public(), log.entries, k);
        assert(after.entries[k] == log.entries[k]);
        assert(hash_before(after.entries, k) == hash_before(log.entries, k));
        assert(!valid_at(after.public(), after.entries, k));
    }
}

} // verus!
