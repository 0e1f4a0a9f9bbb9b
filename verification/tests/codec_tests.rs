use manga_syncer::codec::convert_uuid;
use manga_syncer::errors::SyncError;
use manga_syncer::sanitize::convert_filename;

#[test]
fn stable_key_of_known_uuid() {
    let key = convert_uuid("f110d48a-8461-428e-bbcb-5ae3c0d53d25").unwrap();
    assert_eq!(key, "8RDUioRhQo67y1rjwNU9JQ");
}

#[test]
fn stable_key_low_bytes() {
    let key = convert_uuid("00000000-0000-0000-0000-000000000001").unwrap();
    assert_eq!(key, "AAAAAAAAAAAAAAAAAAAAAQ");
}

#[test]
fn stable_key_high_bytes() {
    let key = convert_uuid("ffffffff-ffff-ffff-ffff-ffffffffffff").unwrap();
    assert_eq!(key, "_____________________w");
}

#[test]
fn stable_key_is_deterministic() {
    let a = convert_uuid("f110d48a-8461-428e-bbcb-5ae3c0d53d25").unwrap();
    let b = convert_uuid("f110d48a-8461-428e-bbcb-5ae3c0d53d25").unwrap();
    assert_eq!(a, b);
}

#[test]
fn stable_key_same_id_other_spelling() {
    let a = convert_uuid("f110d48a-8461-428e-bbcb-5ae3c0d53d25").unwrap();
    let b = convert_uuid("F110D48A-8461-428E-BBCB-5AE3C0D53D25").unwrap();
    assert_eq!(a, b);
}

#[test]
fn stable_keys_of_distinct_ids_differ() {
    let ids = [
        "f110d48a-8461-428e-bbcb-5ae3c0d53d25",
        "f110d48a-8461-428e-bbcb-5ae3c0d53d26",
        "00000000-0000-0000-0000-000000000001",
        "ffffffff-ffff-ffff-ffff-ffffffffffff",
        "01234567-89ab-cdef-0123-456789abcdef",
    ];
    let mut keys = Vec::new();
    for id in ids {
        keys.push(convert_uuid(id).unwrap());
    }
    for i in 0..keys.len() {
        for j in 0..keys.len() {
            if i != j {
                assert_ne!(keys[i], keys[j]);
            }
        }
    }
}

#[test]
fn stable_key_is_fixed_length() {
    let key = convert_uuid("01234567-89ab-cdef-0123-456789abcdef").unwrap();
    assert_eq!(key.chars().count(), 22);
}

#[test]
fn malformed_uuid_is_invalid_identity() {
    assert_eq!(convert_uuid("not-a-uuid"), Err(SyncError::InvalidIdentity));
    assert_eq!(convert_uuid(""), Err(SyncError::InvalidIdentity));
    assert_eq!(
        convert_uuid("f110d48a-8461-428e-bbcb-5ae3c0d53d2"),
        Err(SyncError::InvalidIdentity)
    );
}

#[test]
fn sanitize_replaces_and_collapses() {
    assert_eq!(convert_filename("  Hello -- World?!  ", false), "Hello - World-!");
    assert_eq!(convert_filename("  Hello -- World?!  ", true), "Hello - World?!");
}

#[test]
fn sanitize_keeps_letters_and_digits() {
    assert_eq!(convert_filename("Chapter 12", false), "Chapter 12");
    assert_eq!(convert_filename("Tokyo☆Title/Name", false), "Tokyo☆Title-Name");
    assert_eq!(convert_filename("école Nr. 3", false), "école Nr. 3");
}

#[test]
fn sanitize_trims_joiners_and_spaces() {
    assert_eq!(convert_filename("--- title ---", false), "title");
    assert_eq!(convert_filename("   ", false), "");
    assert_eq!(convert_filename("////", false), "");
}

#[test]
fn sanitize_output_never_has_double_joiner() {
    let inputs = [
        "a//b//c",
        "a-/-b",
        "--a--b--",
        "x\\\\y",
        "☆/☆//☆",
        "?a??b?",
    ];
    for input in inputs {
        let out = convert_filename(input, false);
        assert!(!out.contains("--"), "double joiner in {:?} from {:?}", out, input);
        if let Some(first) = out.chars().next() {
            assert!(first != '-' && first != ' ');
        }
        if let Some(last) = out.chars().last() {
            assert!(last != '-' && last != ' ');
        }
    }
}

#[test]
fn sanitize_question_mark_mode() {
    assert_eq!(convert_filename("why?", false), "why");
    assert_eq!(convert_filename("why?", true), "why?");
}
