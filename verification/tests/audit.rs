//! The audit log: what it writes, and what its verification catches.

use agent_guard::audit::{sha256_hex, verify_sig};
use agent_guard::canonical::{canonical, json_str};
use agent_guard::clock::{now_seconds, write_reading};
use agent_guard::hex::{hex_decode, hex_encode};
use agent_guard::{AuditLog, EntropyError};
use ed25519_dalek::{Signer, SigningKey};

const FIRST_HASH: &str = "4ce0e8928b54cad9f906a390902cefd9e763f8489de2e3dfb0adc8b06a03bd7a";
const SECOND_HASH: &str = "0e36722c896383f82adb3dc779e6cfe2d80b1501f09802953dd163f9881a77e4";

fn recorded(n: usize) -> AuditLog {
    let mut log = AuditLog::from_secret([3u8; 32]);
    for i in 0..n {
        log.record(&format!("tool-{i}"), "allow", "ok");
    }
    log
}

#[test]
fn sha256_of_a_known_text() {
    assert_eq!(
        sha256_hex("abc"),
        "ba7816bf8f01cfea414140de5dae2223b00361a396177a9cb410ff61f20015ad"
    );
    assert_eq!(
        sha256_hex(""),
        "e3b0c44298fc1c149afbf4c8996fb92427ae41e4649b934ca495991b7852b855"
    );
}

#[test]
fn known_key_has_the_known_public_key() {
    let secret = hex_decode("9d61b19deffd5a60ba844af492ec2cc44449c5697b326919703bac031cae7f60");
    let secret: [u8; 32] = secret.unwrap().try_into().unwrap();
    assert_eq!(
        hex_encode(&AuditLog::from_secret(secret).public_key()),
        "d75a980182b10ab7d54bfed3c964073a0ee172f3daa62325af021a68f707511a"
    );
}

#[test]
fn known_signature_is_accepted_in_lowercase_only() {
    let public = hex_decode("3d4017c3e843895a92b70aa74d1b7ebc9c982ccf2ec4968cc0cd55f12af4660c");
    let public: [u8; 32] = public.unwrap().try_into().unwrap();
    let signature = "92a009a9f0d4cab8720e820b5f642540a2b27b5416503f8fb3762223ebdb69da\
                     085ac1e43e15996e458f3613d0f11d8c387b2eaeb4302aeeb00d291612bb0c00"
        .to_string();
    assert!(verify_sig(&public, "r", &signature));
    assert!(!verify_sig(&public, "s", &signature));
    assert!(!verify_sig(&public, "r", &signature.to_uppercase()));
    assert!(!verify_sig(&public, "r", &signature[2..].to_string()));
    assert!(!verify_sig(&public, "r", &signature[1..].to_string()));
    assert!(!verify_sig(&public, "r", &"not hex".to_string()));
    assert!(!verify_sig(&[9u8; 32], "r", &signature));
}

#[test]
fn recorded_entries_have_the_exact_fields() {
    let secret = [5u8; 32];
    let mut log = AuditLog::from_secret(secret);
    let first = log.record_at("12.5", "t", "allow", "ok");
    assert_eq!(first.ts, "12.5");
    assert_eq!(first.tool, "t");
    assert_eq!(first.decision, "allow");
    assert_eq!(first.reason, "ok");
    assert_eq!(first.prev_hash, "");
    assert_eq!(first.entry_hash, FIRST_HASH);
    let second = log.record_at("13", "u", "deny", "a \"b\"");
    assert_eq!(second.prev_hash, FIRST_HASH);
    assert_eq!(second.entry_hash, SECOND_HASH);
    let key = SigningKey::from_bytes(&secret);
    assert_eq!(
        second.signature,
        hex_encode(&key.sign(SECOND_HASH.as_bytes()).to_bytes())
    );
    assert_eq!(log.public_key(), key.verifying_key().to_bytes());
    assert!(log.verify_chain());
    assert_eq!(log.entries().len(), 2);
    assert_eq!(log.entries()[1].signature, second.signature);
}

#[test]
fn canonical_text_has_its_keys_in_order() {
    assert_eq!(
        canonical("12.5", "t", "allow", "ok", ""),
        "{\"decision\": \"allow\", \"prev_hash\": \"\", \"reason\": \"ok\", \"tool\": \"t\", \"ts\": 12.5}"
    );
}

#[test]
fn json_strings_escape_quote_and_backslash() {
    assert_eq!(json_str("a\"b\\c"), "\"a\\\"b\\\\c\"");
    assert_eq!(json_str(""), "\"\"");
    assert_eq!(json_str("line\n\u{e9}"), "\"line\n\u{e9}\"");
}

#[test]
fn a_field_cannot_pose_as_two() {
    assert_ne!(
        canonical("1", "t", "allow", "ok", ""),
        canonical("1", "t", "allow\", \"prev_hash\": \"", "ok", "")
    );
    assert_ne!(
        canonical("1", "t", "allow", "ok", ""),
        canonical("1", "ok", "allow", "t", "")
    );
}

#[test]
fn hex_reads_back_what_it_writes() {
    let all: Vec<u8> = (0..=255).collect();
    assert_eq!(hex_decode(&hex_encode(&all)).unwrap(), all);
    assert_eq!(hex_encode(&[0x00, 0x0f, 0xa0, 0xff]), "000fa0ff");
    assert_eq!(hex_encode(&[]), "");
}

#[test]
fn hex_takes_both_cases_and_nothing_else() {
    assert_eq!(hex_decode("aBCd").unwrap(), vec![0xab, 0xcd]);
    assert_eq!(hex_decode("").unwrap(), Vec::<u8>::new());
    assert!(hex_decode("abc").is_none());
    assert!(hex_decode("zz").is_none());
    assert!(hex_decode("a/").is_none());
    assert!(hex_decode("a:").is_none());
    assert!(hex_decode("\u{e9}").is_none());
    assert!(hex_decode("a\u{e9}a").is_none());
}

#[test]
fn clock_readings_are_written_as_seconds() {
    assert_eq!(write_reading(Some((1_700_000_000, 500_000_000))), "1700000000.5");
    assert_eq!(write_reading(Some((7, 0))), "7");
    assert_eq!(write_reading(Some((0, 1_000_000))), "0.001");
    assert_eq!(write_reading(None), "0");
}

#[test]
fn the_clock_stands_after_the_epoch() {
    let now: f64 = now_seconds().parse().unwrap();
    assert!(now > 1_600_000_000.0);
    let mut log = AuditLog::from_secret([1u8; 32]);
    let later: f64 = log.record("t", "allow", "ok").ts.parse().unwrap();
    assert!(later >= now);
}

#[test]
fn fresh_logs_have_fresh_keys() {
    let a = AuditLog::new().unwrap();
    let b = AuditLog::new().unwrap();
    assert_ne!(a.public_key(), b.public_key());
    assert_ne!(a.public_key(), AuditLog::from_secret([0u8; 32]).public_key());
    assert!(a.verify_chain());
    assert!(a.entries().is_empty());
}

#[test]
fn a_failing_random_source_gives_no_log() {
    assert!(matches!(
        AuditLog::from_entropy(Err(getrandom::Error::UNSUPPORTED)),
        Err(EntropyError)
    ));
    let log = AuditLog::from_entropy(Ok([5u8; 32])).ok().unwrap();
    assert_eq!(
        log.public_key(),
        AuditLog::from_secret([5u8; 32]).public_key()
    );
}

#[test]
fn editing_each_field_is_detected() {
    for field in 0..7 {
        let mut log = recorded(4);
        assert!(log.verify_chain());
        let entry = &mut log.entries_mut()[1];
        let text = match field {
            0 => &mut entry.ts,
            1 => &mut entry.tool,
            2 => &mut entry.decision,
            3 => &mut entry.reason,
            4 => &mut entry.prev_hash,
            5 => &mut entry.entry_hash,
            _ => &mut entry.signature,
        };
        text.push('0');
        assert!(!log.verify_chain(), "edit of field {field} went unnoticed");
    }
}

#[test]
fn losing_entries_is_detected_at_either_end() {
    let mut log = recorded(4);
    log.entries_mut().pop();
    assert!(!log.verify_chain());
    let mut log = recorded(4);
    log.entries_mut().remove(0);
    assert!(!log.verify_chain());
    let mut log = recorded(4);
    log.entries_mut().clear();
    assert!(!log.verify_chain());
}

#[test]
fn adding_a_copied_entry_is_detected() {
    let mut log = recorded(2);
    let copy = log.entries()[1].clone();
    log.entries_mut().push(copy);
    assert!(!log.verify_chain());
}

#[test]
fn an_entry_hashed_anew_is_detected() {
    let mut log = recorded(3);
    let entry = &mut log.entries_mut()[1];
    entry.decision = "deny".to_string();
    entry.entry_hash = sha256_hex(&canonical(
        &entry.ts,
        &entry.tool,
        &entry.decision,
        &entry.reason,
        &entry.prev_hash,
    ));
    assert!(!log.verify_chain());
}

#[test]
fn a_signature_in_other_letters_is_detected() {
    let mut log = recorded(1);
    let entry = &mut log.entries_mut()[0];
    entry.signature = entry.signature.to_uppercase();
    assert!(!log.verify_chain());
}

#[test]
fn hashes_of_a_chain_are_distinct() {
    let mut log = AuditLog::from_secret([3u8; 32]);
    for _ in 0..5 {
        log.record_at("1", "same", "allow", "ok");
    }
    let entries = log.entries();
    for i in 0..entries.len() {
        for j in 0..i {
            assert_ne!(entries[i].entry_hash, entries[j].entry_hash);
        }
    }
    assert!(log.verify_chain());
}

#[test]
fn recording_does_not_mend_a_broken_log() {
    let mut log = recorded(3);
    log.entries_mut()[0].reason = "changed".to_string();
    log.record("t", "allow", "ok");
    assert!(!log.verify_chain());
    let mut log = recorded(3);
    log.entries_mut().pop();
    log.record("t", "allow", "ok");
    assert!(!log.verify_chain());
}

#[test]
fn an_entry_recorded_after_tampering_is_signed() {
    let mut log = recorded(2);
    log.entries_mut()[1].entry_hash = "changed".to_string();
    let entry = log.record("t", "allow", "ok");
    assert_eq!(entry.prev_hash, "changed");
    assert_eq!(entry.entry_hash.len(), 64);
    assert_eq!(entry.signature.len(), 128);
    assert!(verify_sig(&log.public_key(), &entry.entry_hash, &entry.signature));
    assert!(!log.verify_chain());
}

#[test]
fn putting_an_edit_back_makes_the_log_verify_again() {
    let mut log = recorded(3);
    let kept = log.entries();
    log.entries_mut()[2].tool = "other".to_string();
    assert!(!log.verify_chain());
    *log.entries_mut() = kept;
    assert!(log.verify_chain());
}
