use imgstruct::vigenere::{solve_caesar_shift, vigenere_cipher};

#[test]
fn test_standard_cipher_vector() {
    let plaintext = "THISCRYPTOSYSTEMISNOTSECURE";
    let key = "CIPHER";
    let expected = "VPXZGIAXIVWPUBTTMJPWIZITWZT";
    assert_eq!(
        vigenere_cipher(plaintext.into(), key.into(), "encrypt".into()).unwrap(),
        expected
    );
    assert_eq!(
        vigenere_cipher(expected.into(), key.into(), "decrypt".into()).unwrap(),
        plaintext
    );
}

#[test]
fn test_cipher_preserves_non_letters() {
    let out = vigenere_cipher("AB c-d!".into(), "b".into(), "encrypt".into()).unwrap();
    assert_eq!(out, "BC d-e!");
}

#[test]
fn test_cipher_empty_input_rejected() {
    let res = vigenere_cipher("".into(), "KEY".into(), "encrypt".into());
    assert_eq!(res.unwrap_err(), "输入内容不能为空");
}

#[test]
fn test_cipher_key_without_letters_rejected() {
    let res = vigenere_cipher("HELLO".into(), "123 !".into(), "encrypt".into());
    assert_eq!(res.unwrap_err(), "密钥必须包含有效的英文字母");
}

#[test]
fn test_cipher_bad_mode_rejected() {
    let res = vigenere_cipher("HELLO".into(), "KEY".into(), "rot".into());
    assert_eq!(res.unwrap_err(), "无效的操作模式");
}

#[test]
fn test_solve_caesar_shift_plain_english() {
    // an unshifted English-like group correlates best with shift 0
    let group = b"ETAONETAONSHRDLU";
    assert_eq!(solve_caesar_shift(group), b'A');
}

#[test]
fn test_solve_caesar_shift_shifted_group() {
    // 'E' shifted by 22 gives 'A': a group of 'A's looks like key letter 'W'
    assert_eq!(solve_caesar_shift(b"AAAAAAAA"), b'W');
}

#[test]
fn test_solve_caesar_shift_empty_group() {
    // with no letters every correlation is zero and shift 0 wins
    assert_eq!(solve_caesar_shift(b""), b'A');
}
