//! The Vigenère polyalphabetic cipher, and the frequency-correlation
//! solver that recovers the best single-alphabet shift of a letter group.

use vstd::prelude::*;

use vstd::string::StringExecFns;

verus! {

/// True for an ASCII letter of either case.
pub open spec fn is_alpha(c: char) -> bool {
    (97 <= c as int && c as int <= 122) || (65 <= c as int && c as int <= 90)
}

/// The letter index (0 through 25) of an ASCII letter.
pub open spec fn alpha_code(c: char) -> int {
    if 97 <= c as int && c as int <= 122 {
        c as int - 97
    } else {
        c as int - 65
    }
}

/// The key as letter indices: every non-letter is dropped.
pub open spec fn key_codes(k: Seq<char>) -> Seq<u8>
    decreases k.len(),
{
    if k.len() == 0 {
        seq![]
    } else {
        let rest = key_codes(k.drop_last());
        if is_alpha(k.last()) {
            rest.push(alpha_code(k.last()) as u8)
        } else {
            rest
        }
    }
}

/// One character enciphered with key letter `k`: letters move by `k`
/// within their case (backwards when deciphering), everything else
/// passes through.
pub open spec fn vig_char(c: char, k: u8, enc: bool) -> char {
    if 97 <= c as int && c as int <= 122 {
        if enc {
            ((((c as int - 97) + k) % 26 + 97) as char)
        } else {
            ((((c as int - 97) + 26 - k) % 26 + 97) as char)
        }
    } else if 65 <= c as int && c as int <= 90 {
        if enc {
            ((((c as int - 65) + k) % 26 + 65) as char)
        } else {
            ((((c as int - 65) + 26 - k) % 26 + 65) as char)
        }
    } else {
        c
    }
}

/// The whole text enciphered against the key, the key index advancing
/// only on letters.
pub open spec fn vig_map(s: Seq<char>, key: Seq<u8>, enc: bool, ki: int) -> Seq<char>
    recommends
        key.len() > 0,
        ki >= 0,
    decreases s.len(),
{
    if s.len() == 0 || key.len() == 0 {
        Seq::<char>::empty()
    } else {
        let c = s[0];
        if is_alpha(c) {
            seq![vig_char(c, key[ki % key.len() as int], enc)] + vig_map(
                s.drop_first(),
                key,
                enc,
                ki + 1,
            )
        } else {
            seq![c] + vig_map(s.drop_first(), key, enc, ki)
        }
    }
}

fn vig_char_exec(c: char, k: u8, enc: bool) -> (r: char)
    requires
        k < 26,
    ensures
        r == vig_char(c, k, enc),
{
    let v = c as u32;
    if 97 <= v && v <= 122 {
        if enc {
            ((((v - 97) + k as u32) % 26 + 97) as u8) as char
        } else {
            ((((v - 97) + 26 - k as u32) % 26 + 97) as u8) as char
        }
    } else if 65 <= v && v <= 90 {
        if enc {
            ((((v - 65) + k as u32) % 26 + 65) as u8) as char
        } else {
            ((((v - 65) + 26 - k as u32) % 26 + 65) as u8) as char
        }
    } else {
        c
    }
}

/// Encipher or decipher the input against the key.  Fails exactly on an
/// empty input, a key without letters, or an unknown mode, in that order
/// of checks.
pub fn vigenere_cipher(input: String, key: String, mode: String) -> (r: Result<String, String>)
    ensures
        input@.len() == 0 ==> (r matches Err(m) && m@ == "输入内容不能为空"@),
        input@.len() > 0 && key_codes(key@).len() == 0 ==> (r matches Err(m) && m@
            == "密钥必须包含有效的英文字母"@),
        input@.len() > 0 && key_codes(key@).len() > 0 && mode@ != "encrypt"@ && mode@
            != "decrypt"@ ==> (r matches Err(m) && m@ == "无效的操作模式"@),
        input@.len() > 0 && key_codes(key@).len() > 0 && (mode@ == "encrypt"@ || mode@
            == "decrypt"@) ==> (r matches Ok(out) && out@ == vig_map(
            input@,
            key_codes(key@),
            mode@ == "encrypt"@,
            0,
        )),
{
    if input.as_str().is_empty() {
        return Err(String::from_str("输入内容不能为空"));
    }

    let klen = key.as_str().unicode_len();
    let mut k_vec: Vec<u8> = Vec::new();
    let mut i: usize = 0;
    while i < klen
        invariant
            klen == key@.len(),
            i <= klen,
            k_vec@ == key_codes(key@.take(i as int)),
            forall|j: int| 0 <= j < k_vec@.len() ==> k_vec@[j] < 26,
        decreases klen - i,
    {
        let c = key.as_str().get_char(i);
        let v = c as u32;
        proof {
            assert(key@.take(i + 1).drop_last() =~= key@.take(i as int));
            assert(key@.take(i + 1).last() == key@[i as int]);
        }
        if 97 <= v && v <= 122 {
            k_vec.push((v - 97) as u8);
        } else if 65 <= v && v <= 90 {
            k_vec.push((v - 65) as u8);
        }
        i = i + 1;
    }
    proof {
        assert(key@.take(klen as int) =~= key@);
    }

    if k_vec.len() == 0 {
        return Err(String::from_str("密钥必须包含有效的英文字母"));
    }

    let encrypt_name = String::from_str("encrypt");
    let decrypt_name = String::from_str("decrypt");
    let is_encrypt: bool;
    if mode == encrypt_name {
        is_encrypt = true;
    } else if mode == decrypt_name {
        is_encrypt = false;
    } else {
        return Err(String::from_str("无效的操作模式"));
    }

    let ghost kcodes = key_codes(key@);
    let n = input.as_str().unicode_len();
    let mut out = String::new();
    let mut key_idx: usize = 0;
    let k_len = k_vec.len();
    let mut j: usize = 0;
    proof {
        assert(input@.skip(0) =~= input@);
        assert(out@ + vig_map(input@, kcodes, is_encrypt, 0) =~= vig_map(
            input@,
            kcodes,
            is_encrypt,
            0,
        ));
    }
    while j < n
        invariant
            n == input@.len(),
            j <= n,
            key_idx <= j,
            k_vec@ == kcodes,
            k_len == k_vec@.len(),
            k_len > 0,
            forall|t: int| 0 <= t < k_vec@.len() ==> k_vec@[t] < 26,
            vig_map(input@, kcodes, is_encrypt, 0) == out@ + vig_map(
                input@.skip(j as int),
                kcodes,
                is_encrypt,
                key_idx as int,
            ),
        decreases n - j,
    {
        let c = input.as_str().get_char(j);
        let v = c as u32;
        let ghost rem = input@.skip(j as int);
        proof {
            assert(rem.len() == n - j);
            assert(rem[0] == input@[j as int]);
            assert(rem.drop_first() =~= input@.skip(j as int + 1));
        }
        if (97 <= v && v <= 122) || (65 <= v && v <= 90) {
            let k = k_vec[key_idx % k_len];
            let e = vig_char_exec(c, k, is_encrypt);
            out.push(e);
            proof {
                assert(vig_map(rem, kcodes, is_encrypt, key_idx as int) == seq![
                    vig_char(c, kcodes[(key_idx % k_len) as int], is_encrypt),
                ] + vig_map(rem.drop_first(), kcodes, is_encrypt, key_idx as int + 1));
                assert(out@ =~= (out@.drop_last()) + seq![e]);
                assert((out@.drop_last() + seq![e]) + vig_map(
                    input@.skip(j as int + 1),
                    kcodes,
                    is_encrypt,
                    key_idx as int + 1,
                ) =~= out@.drop_last() + (seq![e] + vig_map(
                    input@.skip(j as int + 1),
                    kcodes,
                    is_encrypt,
                    key_idx as int + 1,
                )));
            }
            key_idx = key_idx + 1;
        } else {
            out.push(c);
            proof {
                assert(vig_map(rem, kcodes, is_encrypt, key_idx as int) == seq![c] + vig_map(
                    rem.drop_first(),
                    kcodes,
                    is_encrypt,
                    key_idx as int,
                ));
                assert(out@ =~= (out@.drop_last()) + seq![c]);
                assert((out@.drop_last() + seq![c]) + vig_map(
                    input@.skip(j as int + 1),
                    kcodes,
                    is_encrypt,
                    key_idx as int,
                ) =~= out@.drop_last() + (seq![c] + vig_map(
                    input@.skip(j as int + 1),
                    kcodes,
                    is_encrypt,
                    key_idx as int,
                )));
            }
        }
        j = j + 1;
    }
    proof {
        assert(input@.skip(n as int) =~= Seq::<char>::empty());
        assert(vig_map(input@.skip(n as int), kcodes, is_encrypt, key_idx as int)
            =~= Seq::<char>::empty());
        assert(out@ + Seq::<char>::empty() =~= out@);
    }
    Ok(out)
}

proof fn lemma_vig_cancel(x: int, k: int)
    requires
        0 <= x < 26,
        0 <= k < 26,
    ensures
        ((x + k) % 26 + 26 - k) % 26 == x,
{
    if x + k < 26 {
        vstd::arithmetic::div_mod::lemma_small_mod((x + k) as nat, 26);
        vstd::arithmetic::div_mod::lemma_mod_add_multiples_vanish(x, 26);
        vstd::arithmetic::div_mod::lemma_small_mod(x as nat, 26);
    } else {
        assert((x + k) % 26 == (x + k - 26) % 26) by {
            vstd::arithmetic::div_mod::lemma_mod_sub_multiples_vanish(x + k, 26);
        }
        vstd::arithmetic::div_mod::lemma_small_mod((x + k - 26) as nat, 26);
        vstd::arithmetic::div_mod::lemma_small_mod(x as nat, 26);
    }
}

/// Deciphering one character with the key letter that enciphered it gives
/// the character back.
proof fn lemma_vig_char_cancel(c: char, k: u8)
    requires
        k < 26,
    ensures
        vig_char(vig_char(c, k, true), k, false) == c,
{
    let v = c as int;
    if 97 <= v && v <= 122 {
        lemma_vig_cancel(v - 97, k as int);
    } else if 65 <= v && v <= 90 {
        lemma_vig_cancel(v - 65, k as int);
    }
}

/// Deciphering with the key that enciphered a text gives the text back,
/// whatever position of the key the cipher started from.
pub proof fn lemma_vigenere_roundtrip(s: Seq<char>, key: Seq<u8>, ki: int)
    requires
        key.len() > 0,
        ki >= 0,
        forall|j: int| 0 <= j < key.len() ==> key[j] < 26,
    ensures
        vig_map(vig_map(s, key, true, ki), key, false, ki) == s,
    decreases s.len(),
{
    let mid = vig_map(s, key, true, ki);
    if s.len() == 0 {
        assert(vig_map(mid, key, false, ki) =~= s);
    } else {
        let c = s[0];
        let k = key[ki % key.len() as int];
        if is_alpha(c) {
            lemma_vigenere_roundtrip(s.drop_first(), key, ki + 1);
            let e = vig_char(c, k, true);
            assert(mid == seq![e] + vig_map(s.drop_first(), key, true, ki + 1));
            assert(mid[0] == e);
            assert(is_alpha(e));
            assert(mid.drop_first() =~= vig_map(s.drop_first(), key, true, ki + 1));
            assert(vig_map(mid, key, false, ki) == seq![vig_char(e, k, false)] + vig_map(
                mid.drop_first(),
                key,
                false,
                ki + 1,
            ));
            lemma_vig_char_cancel(c, k);
            assert(seq![c] + s.drop_first() =~= s);
        } else {
            lemma_vigenere_roundtrip(s.drop_first(), key, ki);
            assert(mid == seq![c] + vig_map(s.drop_first(), key, true, ki));
            assert(mid[0] == c);
            assert(mid.drop_first() =~= vig_map(s.drop_first(), key, true, ki));
            assert(vig_map(mid, key, false, ki) == seq![c] + vig_map(
                mid.drop_first(),
                key,
                false,
                ki,
            ));
            assert(seq![c] + s.drop_first() =~= s);
        }
    }
}

/// The scaled English letter frequency (parts per hundred thousand) of
/// letter index `i`.
pub open spec fn english_weight(i: int) -> int {
    if i == 0 {
        8167
    } else if i == 1 {
        1492
    } else if i == 2 {
        2782
    } else if i == 3 {
        4253
    } else if i == 4 {
        12702
    } else if i == 5 {
        2228
    } else if i == 6 {
        2015
    } else if i == 7 {
        6094
    } else if i == 8 {
        6966
    } else if i == 9 {
        153
    } else if i == 10 {
        772
    } else if i == 11 {
        4025
    } else if i == 12 {
        2406
    } else if i == 13 {
        6749
    } else if i == 14 {
        7507
    } else if i == 15 {
        1929
    } else if i == 16 {
        95
    } else if i == 17 {
        5987
    } else if i == 18 {
        6327
    } else if i == 19 {
        9056
    } else if i == 20 {
        2758
    } else if i == 21 {
        978
    } else if i == 22 {
        2360
    } else if i == 23 {
        150
    } else if i == 24 {
        1974
    } else {
        74
    }
}

fn english_weight_exec(i: u8) -> (w: u64)
    requires
        i < 26,
    ensures
        w as int == english_weight(i as int),
        w <= 12702,
{
    match i {
        0 => 8167,
        1 => 1492,
        2 => 2782,
        3 => 4253,
        4 => 12702,
        5 => 2228,
        6 => 2015,
        7 => 6094,
        8 => 6966,
        9 => 153,
        10 => 772,
        11 => 4025,
        12 => 2406,
        13 => 6749,
        14 => 7507,
        15 => 1929,
        16 => 95,
        17 => 5987,
        18 => 6327,
        19 => 9056,
        20 => 2758,
        21 => 978,
        22 => 2360,
        23 => 150,
        24 => 1974,
        _ => 74,
    }
}

/// How many bytes of `g` hold the upper-case letter with index `c`.
pub open spec fn count_of(g: Seq<u8>, c: int) -> int
    decreases g.len(),
{
    if g.len() == 0 {
        0
    } else {
        count_of(g.drop_last(), c) + (if g.last() == 65 + c {
            1int
        } else {
            0int
        })
    }
}

proof fn lemma_count_of_bound(g: Seq<u8>, c: int)
    ensures
        0 <= count_of(g, c) <= g.len(),
    decreases g.len(),
{
    if g.len() > 0 {
        lemma_count_of_bound(g.drop_last(), c);
    }
}

/// The tail of the frequency correlation of `g` under shift `k`: the
/// terms for letter indices `c` and up.
pub open spec fn corr_from(g: Seq<u8>, k: int, c: int) -> int
    decreases 26 - c,
{
    if c < 0 || c >= 26 {
        0
    } else {
        count_of(g, c) * english_weight((c + 26 - k) % 26) + corr_from(g, k, c + 1)
    }
}

/// The frequency correlation of `g` under shift `k`.
pub open spec fn corr(g: Seq<u8>, k: int) -> int {
    corr_from(g, k, 0)
}

/// The first shift among `from` and up that beats the best seen so far.
pub open spec fn best_shift_from(g: Seq<u8>, from: int, best: int, bestv: int) -> int
    decreases 26 - from,
{
    if from >= 26 {
        best
    } else if corr(g, from) > bestv {
        best_shift_from(g, from + 1, from, corr(g, from))
    } else {
        best_shift_from(g, from + 1, best, bestv)
    }
}

/// The letter the frequency solver picks for a group: the shift whose
/// correlation with English letter frequencies is largest (the first
/// such, with shift 0 winning when every correlation is zero).
pub open spec fn solve_shift_spec(g: Seq<u8>) -> int {
    65 + best_shift_from(g, 0, 0, 0)
}

/// The correlation of the counted group under shift `k`.
fn corr_exec(counts: &[u64; 26], k: u8, Ghost(g): Ghost<Seq<u8>>) -> (r: u128)
    requires
        k < 26,
        g.len() <= 0xFFFF_FFFF_FFFF_FFFF,
        forall|c: int| 0 <= c < 26 ==> #[trigger] counts@[c] as int == count_of(g, c),
    ensures
        r as int == corr(g, k as int),
{
    let mut acc: u128 = 0;
    let mut c: u8 = 0;
    while c < 26
        invariant
            c <= 26,
            k < 26,
            g.len() <= 0xFFFF_FFFF_FFFF_FFFF,
            forall|t: int| 0 <= t < 26 ==> #[trigger] counts@[t] as int == count_of(g, t),
            acc as int + corr_from(g, k as int, c as int) == corr(g, k as int),
            acc as int <= c as int * (0x319D_FFFF_FFFF_FFFF_CE62),
        decreases 26 - c,
    {
        let idx = (c + 26 - k) % 26;
        let w = english_weight_exec(idx);
        let cnt = counts[c as usize];
        proof {
            lemma_count_of_bound(g, c as int);
            assert(idx as int == (c as int + 26 - k as int) % 26);
            assert(cnt as int == count_of(g, c as int));
            assert(corr_from(g, k as int, c as int) == count_of(g, c as int) * english_weight((
            c as int + 26 - k as int) % 26) + corr_from(g, k as int, c as int + 1));
            assert(cnt as int * (w as int) <= 0x319D_FFFF_FFFF_FFFF_CE62) by {
                vstd::arithmetic::mul::lemma_mul_upper_bound(
                    cnt as int,
                    0xFFFF_FFFF_FFFF_FFFF,
                    w as int,
                    12702,
                );
            }
            assert(cnt as int * (w as int) >= 0) by {
                vstd::arithmetic::mul::lemma_mul_nonnegative(cnt as int, w as int);
            }
            assert((c as int + 1) * (0x319D_FFFF_FFFF_FFFF_CE62) == c as int * (
            0x319D_FFFF_FFFF_FFFF_CE62) + 0x319D_FFFF_FFFF_FFFF_CE62);
        }
        acc = acc + (cnt as u128) * (w as u128);
        c = c + 1;
    }
    acc
}

/// Recover the most likely single-alphabet shift of a group of
/// upper-case letter bytes, as the letter that shift enciphers `A` to.
pub fn solve_caesar_shift(group: &[u8]) -> (r: u8)
    ensures
        r as int == solve_shift_spec(group@),
        65 <= r < 91,
{
    let ghost g = group@;
    let mut counts: [u64; 26] = [0u64; 26];
    let n = group.len();
    let mut i: usize = 0;
    while i < n
        invariant
            g == group@,
            n == g.len(),
            i <= n,
            counts@.len() == 26,
            forall|c: int| 0 <= c < 26 ==> #[trigger] counts@[c] as int == count_of(
                g.take(i as int),
                c,
            ),
            forall|c: int| 0 <= c < 26 ==> #[trigger] counts@[c] as int <= i as int,
        decreases n - i,
    {
        let b = group[i];
        proof {
            assert(g.take(i + 1).drop_last() =~= g.take(i as int));
            assert(g.take(i + 1).last() == g[i as int]);
        }
        if 65 <= b && b <= 90 {
            let idx = (b - 65) as usize;
            counts[idx] = counts[idx] + 1;
        }
        i = i + 1;
    }
    proof {
        assert(g.take(n as int) =~= g);
    }

    let mut best: u8 = 0;
    let mut bestv: u128 = 0;
    let mut k: u8 = 0;
    while k < 26
        invariant
            k <= 26,
            best < 26,
            g == group@,
            g.len() <= 0xFFFF_FFFF_FFFF_FFFF,
            counts@.len() == 26,
            forall|c: int| 0 <= c < 26 ==> #[trigger] counts@[c] as int == count_of(g, c),
            best_shift_from(g, k as int, best as int, bestv as int) == best_shift_from(g, 0, 0, 0),
        decreases 26 - k,
    {
        let cv = corr_exec(&counts, k, Ghost(g));
        if cv > bestv {
            best = k;
            bestv = cv;
        }
        k = k + 1;
    }
    65 + best
}

} // verus!
