use imgstruct::caesar::{caesar_crack, caesar_transform, rotate_rot18, rotate_rot47, rotate_standard};

#[test]
fn test_standard_encrypt() {
    let res = caesar_transform(
        "Hello World".into(),
        3,
        "encrypt".into(),
        false,
        "standard".into(),
    )
    .unwrap();
    assert_eq!(res, "Khoor Zruog");
}

#[test]
fn test_standard_decrypt() {
    let res = caesar_transform(
        "Khoor Zruog".into(),
        3,
        "decrypt".into(),
        false,
        "standard".into(),
    )
    .unwrap();
    assert_eq!(res, "Hello World");
}

#[test]
fn test_wrap_around() {
    let res =
        caesar_transform("Zz".into(), 1, "encrypt".into(), false, "standard".into()).unwrap();
    assert_eq!(res, "Aa");
}

#[test]
fn test_number_shift() {
    let res_off =
        caesar_transform("A1".into(), 1, "encrypt".into(), false, "standard".into()).unwrap();
    assert_eq!(res_off, "B1");

    let res_on =
        caesar_transform("A1".into(), 1, "encrypt".into(), true, "standard".into()).unwrap();
    assert_eq!(res_on, "B2");

    let res_wrap =
        caesar_transform("9".into(), 1, "encrypt".into(), true, "standard".into()).unwrap();
    assert_eq!(res_wrap, "0");
}

#[test]
fn test_rot18() {
    let input = "A0";
    let encrypted =
        caesar_transform(input.into(), 0, "encrypt".into(), false, "rot18".into()).unwrap();
    assert_eq!(encrypted, "N5");

    let decrypted =
        caesar_transform(encrypted, 0, "encrypt".into(), false, "rot18".into()).unwrap();
    assert_eq!(decrypted, input);
}

#[test]
fn test_rot47() {
    let input = "abc";
    let encrypted =
        caesar_transform(input.into(), 0, "encrypt".into(), false, "rot47".into()).unwrap();
    assert_eq!(encrypted, "234");

    let decrypted =
        caesar_transform(encrypted, 0, "encrypt".into(), false, "rot47".into()).unwrap();
    assert_eq!(decrypted, input);
}

#[test]
fn test_crack_common() {
    let cipher = "URYYB";

    let results = caesar_crack(cipher.into(), None, "common".into()).unwrap();

    assert!(!results.is_empty());
    let best_match = &results[0];

    assert_eq!(best_match.label, "ROT13");
    assert_eq!(best_match.text, "HELLO");
}

#[test]
fn test_crack_full_scope() {
    let cipher = "AOL";
    let expected_plain = "THE";

    let common_results = caesar_crack(cipher.into(), None, "common".into()).unwrap();
    let found_in_common = common_results.iter().any(|r| r.text == expected_plain);
    assert!(!found_in_common, "Common scope shouldn't include Shift 7");

    let full_results = caesar_crack(cipher.into(), None, "full".into()).unwrap();

    let best_match = &full_results[0];
    if best_match.text != expected_plain {
        println!(
            "Warning: Best match was {} ({}), expected {}",
            best_match.text, best_match.label, expected_plain
        );
        let target = full_results
            .iter()
            .find(|r| r.text == expected_plain)
            .expect("Should find THE in results");
        assert!(target.label.contains("Shift -7"));
    } else {
        assert_eq!(best_match.text, expected_plain);
        assert!(best_match.label.contains("Shift -7"));
    }
}

#[test]
fn test_crack_keyword() {
    let cipher = "KHOOR";
    let keyword = "HELLO";

    let results = caesar_crack(cipher.into(), Some(keyword.into()), "full".into()).unwrap();

    assert!(results[0].score > 1000);
    assert_eq!(results[0].text, "HELLO");
}

#[test]
fn test_empty_input() {
    let res =
        caesar_transform("".into(), 3, "encrypt".into(), false, "standard".into()).unwrap();
    assert_eq!(res, "");
}

#[test]
fn test_crack_empty_input_rejected() {
    let res = caesar_crack("".into(), None, "common".into());
    assert!(res.is_err());
    assert_eq!(res.unwrap_err(), "输入内容不能为空");
}

#[test]
fn test_crack_common_count_and_order() {
    let results = caesar_crack("HELLO".into(), None, "common".into()).unwrap();
    assert_eq!(results.len(), 5);
    for w in results.windows(2) {
        assert!(w[0].score >= w[1].score);
    }
}

#[test]
fn test_crack_full_count() {
    let results = caesar_crack("HELLO".into(), None, "full".into()).unwrap();
    // five common candidates plus shifts 1..=25 without 3, 5 and 13
    assert_eq!(results.len(), 27);
}

#[test]
fn test_rotate_standard_non_ascii_passthrough() {
    let out = rotate_standard("a中z!", 1, false, false);
    assert_eq!(out, "b中a!");
}

#[test]
fn test_rotate_rot18_digits() {
    assert_eq!(rotate_rot18("Abc789"), "Nop234");
}

#[test]
fn test_rotate_rot47_bounds() {
    // '!' (33) -> 'P' (80); '~' (126) -> 'O' (79); space passes through
    assert_eq!(rotate_rot47("! ~"), "P O");
}
