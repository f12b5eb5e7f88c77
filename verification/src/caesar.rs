//! Rotation ciphers: the standard shift cipher with an optional digit
//! shift, the fixed rotations over letters-and-digits and over the whole
//! printable ASCII range, and a brute-force solver that scores every
//! candidate rotation by English letter frequency.

use vstd::prelude::*;

use crate::textutil::{contains_str, dec_str, lower_of, lowercase, push_dec, seq_contains};
use vstd::string::StringExecFns;

verus! {

broadcast use vstd::seq_lib::group_to_multiset_ensures;

/// A candidate produced by the brute-force solver: the rotation tried,
/// the decoded text, and its frequency score.
#[derive(Debug, Clone, PartialEq)]
pub struct CrackResult {
    pub label: String,
    pub text: String,
    pub score: u128,
}

/// Mathematical model of a [`CrackResult`].
#[verifier::ext_equal]
pub ghost struct CrackModel {
    pub label: Seq<char>,
    pub text: Seq<char>,
    pub score: int,
}

impl View for CrackResult {
    type V = CrackModel;

    open spec fn view(&self) -> CrackModel {
        CrackModel { label: self.label@, text: self.text@, score: self.score as int }
    }
}

/// The models of a candidate list, in order.
pub open spec fn crack_models(s: Seq<CrackResult>) -> Seq<CrackModel> {
    s.map_values(|c: CrackResult| c@)
}

/// The effective letter rotation of a shift: reversed for decryption.
pub open spec fn shift_alpha(shift: u8, decrypt: bool) -> int {
    if decrypt {
        ((26 - (shift % 26)) % 26) as int
    } else {
        (shift % 26) as int
    }
}

/// The effective digit rotation of a shift: reversed for decryption.
pub open spec fn shift_digit(shift: u8, decrypt: bool) -> int {
    if decrypt {
        ((10 - (shift % 10)) % 10) as int
    } else {
        (shift % 10) as int
    }
}

/// One character under the standard rotation: letters rotate by `sa`
/// within their case, digits by `sd` when digit shifting is on, and
/// everything else passes through unchanged.
pub open spec fn rot_std_char(c: char, sa: int, sd: int, sn: bool) -> char {
    if 97 <= c as int && c as int <= 122 {
        ((((c as int - 97) + sa) % 26 + 97) as char)
    } else if 65 <= c as int && c as int <= 90 {
        ((((c as int - 65) + sa) % 26 + 65) as char)
    } else if sn && 48 <= c as int && c as int <= 57 {
        ((((c as int - 48) + sd) % 10 + 48) as char)
    } else {
        c
    }
}

/// The standard rotation applied to a whole text.
pub open spec fn rot_std(s: Seq<char>, sa: int, sd: int, sn: bool) -> Seq<char> {
    s.map_values(|c: char| rot_std_char(c, sa, sd, sn))
}

/// One character under the printable-ASCII rotation: code points 33
/// through 126 rotate by 47 within that range.
pub open spec fn rot47_char(c: char) -> char {
    if 33 <= c as int && c as int <= 126 {
        ((33 + ((c as int - 33) + 47) % 94) as char)
    } else {
        c
    }
}

/// The printable-ASCII rotation applied to a whole text.
pub open spec fn rot47_seq(s: Seq<char>) -> Seq<char> {
    s.map_values(|c: char| rot47_char(c))
}

fn rot_std_char_exec(c: char, sa: u8, sd: u8, sn: bool) -> (r: char)
    requires
        sa < 26,
        sd < 10,
    ensures
        r == rot_std_char(c, sa as int, sd as int, sn),
{
    let v = c as u32;
    if 97 <= v && v <= 122 {
        ((((v - 97) + sa as u32) % 26 + 97) as u8) as char
    } else if 65 <= v && v <= 90 {
        ((((v - 65) + sa as u32) % 26 + 65) as u8) as char
    } else if sn && 48 <= v && v <= 57 {
        ((((v - 48) + sd as u32) % 10 + 48) as u8) as char
    } else {
        c
    }
}

fn rot47_char_exec(c: char) -> (r: char)
    ensures
        r == rot47_char(c),
{
    let v = c as u32;
    if 33 <= v && v <= 126 {
        ((33 + ((v - 33) + 47) % 94) as u8) as char
    } else {
        c
    }
}

/// Apply the standard rotation character by character.
fn rot_map_std(text: &str, sa: u8, sd: u8, sn: bool) -> (r: String)
    requires
        sa < 26,
        sd < 10,
    ensures
        r@ == rot_std(text@, sa as int, sd as int, sn),
{
    let n = text.unicode_len();
    let mut r = String::new();
    let mut i: usize = 0;
    while i < n
        invariant
            sa < 26,
            sd < 10,
            n == text@.len(),
            i <= n,
            r@ == rot_std(text@.take(i as int), sa as int, sd as int, sn),
        decreases n - i,
    {
        let c = text.get_char(i);
        r.push(rot_std_char_exec(c, sa, sd, sn));
        proof {
            assert(text@.take(i + 1) =~= text@.take(i as int).push(text@[i as int]));
            assert(rot_std(text@.take(i + 1), sa as int, sd as int, sn) =~= rot_std(
                text@.take(i as int),
                sa as int,
                sd as int,
                sn,
            ).push(rot_std_char(text@[i as int], sa as int, sd as int, sn)));
        }
        i = i + 1;
    }
    proof {
        assert(text@.take(n as int) =~= text@);
    }
    r
}

/// The standard rotation cipher: letters rotate by the shift, digits too
/// when digit shifting is on, and decryption reverses the direction.
pub fn rotate_standard(text: &str, shift: u8, decrypt: bool, shift_numbers: bool) -> (r: String)
    ensures
        r@ == rot_std(
            text@,
            shift_alpha(shift, decrypt),
            shift_digit(shift, decrypt),
            shift_numbers,
        ),
{
    let sa: u8 = if decrypt {
        (26 - (shift % 26)) % 26
    } else {
        shift % 26
    };
    let sd: u8 = if decrypt {
        (10 - (shift % 10)) % 10
    } else {
        shift % 10
    };
    rot_map_std(text, sa, sd, shift_numbers)
}

/// The fixed rotation over letters and digits: letters by 13, digits by 5.
/// Applying it twice gives the original text back.
pub fn rotate_rot18(text: &str) -> (r: String)
    ensures
        r@ == rot_std(text@, 13, 5, true),
{
    rot_map_std(text, 13, 5, true)
}

/// The fixed rotation over the printable ASCII range, by 47.  Applying it
/// twice gives the original text back.
pub fn rotate_rot47(text: &str) -> (r: String)
    ensures
        r@ == rot47_seq(text@),
{
    let n = text.unicode_len();
    let mut r = String::new();
    let mut i: usize = 0;
    while i < n
        invariant
            n == text@.len(),
            i <= n,
            r@ == rot47_seq(text@.take(i as int)),
        decreases n - i,
    {
        let c = text.get_char(i);
        r.push(rot47_char_exec(c));
        proof {
            assert(text@.take(i + 1) =~= text@.take(i as int).push(text@[i as int]));
            assert(rot47_seq(text@.take(i + 1)) =~= rot47_seq(text@.take(i as int)).push(
                rot47_char(text@[i as int]),
            ));
        }
        i = i + 1;
    }
    proof {
        assert(text@.take(n as int) =~= text@);
    }
    r
}

proof fn lemma_cancel(x: int, k: int, m: int)
    requires
        0 <= x < m,
        0 <= k < m,
    ensures
        ((x + k) % m + (m - k) % m) % m == x,
{
    vstd::arithmetic::div_mod::lemma_small_mod(x as nat, m as nat);
    if k == 0 {
        vstd::arithmetic::div_mod::lemma_mod_self_0(m);
    } else {
        vstd::arithmetic::div_mod::lemma_small_mod((m - k) as nat, m as nat);
        if x + k < m {
            vstd::arithmetic::div_mod::lemma_small_mod((x + k) as nat, m as nat);
            assert((x + k) + (m - k) == x + m);
            vstd::arithmetic::div_mod::lemma_mod_add_multiples_vanish(x, m);
        } else {
            assert((x + k) % m == (x + k - m) % m) by {
                vstd::arithmetic::div_mod::lemma_mod_sub_multiples_vanish(x + k, m);
            }
            vstd::arithmetic::div_mod::lemma_small_mod((x + k - m) as nat, m as nat);
        }
    }
}

/// One character of a standard rotation is undone by the reversed
/// rotation.
proof fn lemma_rot_std_char_roundtrip(c: char, sa: int, sd: int, sn: bool)
    requires
        0 <= sa < 26,
        0 <= sd < 10,
    ensures
        rot_std_char(rot_std_char(c, sa, sd, sn), (26 - sa) % 26, (10 - sd) % 10, sn) == c,
{
    let v = c as int;
    if 97 <= v && v <= 122 {
        lemma_cancel(v - 97, sa, 26);
    } else if 65 <= v && v <= 90 {
        lemma_cancel(v - 65, sa, 26);
    } else if sn && 48 <= v && v <= 57 {
        lemma_cancel(v - 48, sd, 10);
    }
}

/// A standard rotation is undone by the reversed rotation: encrypting
/// with a shift and decrypting with the same shift gives the text back.
pub proof fn lemma_rotate_standard_roundtrip(s: Seq<char>, sa: int, sd: int, sn: bool)
    requires
        0 <= sa < 26,
        0 <= sd < 10,
    ensures
        rot_std(rot_std(s, sa, sd, sn), (26 - sa) % 26, (10 - sd) % 10, sn) == s,
{
    let mid = rot_std(s, sa, sd, sn);
    let out = rot_std(mid, (26 - sa) % 26, (10 - sd) % 10, sn);
    assert forall|i: int| 0 <= i < s.len() implies out[i] == s[i] by {
        let c = s[i];
        assert(mid[i] == rot_std_char(c, sa, sd, sn));
        lemma_rot_std_char_roundtrip(c, sa, sd, sn);
    }
    assert(out =~= s);
}

/// The letters-and-digits rotation is its own inverse.
pub proof fn lemma_rot18_involution(s: Seq<char>)
    ensures
        rot_std(rot_std(s, 13, 5, true), 13, 5, true) == s,
{
    let mid = rot_std(s, 13, 5, true);
    let out = rot_std(mid, 13, 5, true);
    assert forall|i: int| 0 <= i < s.len() implies out[i] == s[i] by {
        let c = s[i];
        assert(mid[i] == rot_std_char(c, 13, 5, true));
        assert(rot_std_char(rot_std_char(c, 13, 5, true), 13, 5, true) == c);
    }
    assert(out =~= s);
}

/// The printable-ASCII rotation is its own inverse.
pub proof fn lemma_rot47_involution(s: Seq<char>)
    ensures
        rot47_seq(rot47_seq(s)) == s,
{
    let mid = rot47_seq(s);
    let out = rot47_seq(mid);
    assert forall|i: int| 0 <= i < s.len() implies out[i] == s[i] by {
        let c = s[i];
        assert(mid[i] == rot47_char(c));
        assert(rot47_char(rot47_char(c)) == c);
    }
    assert(out =~= s);
}

/// The text a transform call yields, by variant.
pub open spec fn transform_model(
    s: Seq<char>,
    shift: u8,
    mode: Seq<char>,
    sn: bool,
    variant: Seq<char>,
) -> Seq<char> {
    if variant == "rot18"@ {
        rot_std(s, 13, 5, true)
    } else if variant == "rot47"@ {
        rot47_seq(s)
    } else {
        rot_std(s, shift_alpha(shift, mode == "decrypt"@), shift_digit(shift, mode == "decrypt"@), sn)
    }
}

/// Apply one of the rotation variants to the input.  Never fails; an
/// empty input yields an empty output.
pub fn caesar_transform(
    input: String,
    shift: u8,
    mode: String,
    shift_numbers: bool,
    variant: String,
) -> (r: Result<String, String>)
    ensures
        r is Ok,
        r matches Ok(out) ==> out@ == transform_model(input@, shift, mode@, shift_numbers, variant@),
{
    if input.as_str().is_empty() {
        let out = String::new();
        proof {
            assert(rot_std(input@, 13, 5, true) =~= Seq::<char>::empty());
            assert(rot47_seq(input@) =~= Seq::<char>::empty());
            assert(rot_std(
                input@,
                shift_alpha(shift, mode@ == "decrypt"@),
                shift_digit(shift, mode@ == "decrypt"@),
                shift_numbers,
            ) =~= Seq::<char>::empty());
        }
        return Ok(out);
    }

    let rot18_name = String::from_str("rot18");
    let rot47_name = String::from_str("rot47");
    let decrypt_name = String::from_str("decrypt");
    let res = if variant == rot18_name {
        rotate_rot18(input.as_str())
    } else if variant == rot47_name {
        rotate_rot47(input.as_str())
    } else {
        let is_decrypt = mode == decrypt_name;
        rotate_standard(input.as_str(), shift, is_decrypt, shift_numbers)
    };
    Ok(res)
}

/// The frequency weight of a lowercase letter: the most common English
/// letters weigh the most, letters outside the ranking weigh nothing.
pub open spec fn letter_weight(c: char) -> int {
    if c == 'e' {
        26
    } else if c == 't' {
        25
    } else if c == 'a' {
        24
    } else if c == 'o' {
        23
    } else if c == 'i' {
        22
    } else if c == 'n' {
        21
    } else if c == 's' {
        20
    } else if c == 'h' {
        19
    } else if c == 'r' {
        18
    } else if c == 'd' {
        17
    } else if c == 'l' {
        16
    } else if c == 'c' {
        15
    } else if c == 'u' {
        14
    } else if c == 'm' {
        13
    } else if c == 'w' {
        12
    } else if c == 'f' {
        11
    } else if c == 'g' {
        10
    } else if c == 'y' {
        9
    } else if c == 'p' {
        8
    } else if c == 'b' {
        7
    } else if c == 'v' {
        6
    } else if c == 'k' {
        5
    } else if c == 'j' {
        4
    } else if c == 'x' {
        3
    } else if c == 'q' {
        2
    } else if c == 'z' {
        1
    } else {
        0
    }
}

/// The summed frequency weights of a text.
pub open spec fn weight_sum(s: Seq<char>) -> int
    decreases s.len(),
{
    if s.len() == 0 {
        0
    } else {
        weight_sum(s.drop_last()) + letter_weight(s.last())
    }
}

fn letter_weight_exec(c: char) -> (w: u128)
    ensures
        w as int == letter_weight(c),
        w <= 26,
{
    match c {
        'e' => 26,
        't' => 25,
        'a' => 24,
        'o' => 23,
        'i' => 22,
        'n' => 21,
        's' => 20,
        'h' => 19,
        'r' => 18,
        'd' => 17,
        'l' => 16,
        'c' => 15,
        'u' => 14,
        'm' => 13,
        'w' => 12,
        'f' => 11,
        'g' => 10,
        'y' => 9,
        'p' => 8,
        'b' => 7,
        'v' => 6,
        'k' => 5,
        'j' => 4,
        'x' => 3,
        'q' => 2,
        'z' => 1,
        _ => 0,
    }
}

/// Score a text by the summed frequency weights of its lowercase form.
fn score_text(text: &str) -> (n: u128)
    ensures
        n as int == weight_sum(lower_of(text@)),
        n as int <= 26 * (u64::MAX as int),
{
    let lower = lowercase(text);
    let len = lower.as_str().unicode_len();
    let mut acc: u128 = 0;
    let mut i: usize = 0;
    while i < len
        invariant
            len == lower_of(text@).len(),
            lower@ == lower_of(text@),
            i <= len,
            acc as int == weight_sum(lower@.take(i as int)),
            acc <= 26 * (i as u128),
        decreases len - i,
    {
        let c = lower.as_str().get_char(i);
        let w = letter_weight_exec(c);
        proof {
            assert(lower@.take(i + 1).drop_last() =~= lower@.take(i as int));
            assert(lower@.take(i + 1).last() == lower@[i as int]);
        }
        acc = acc + w;
        i = i + 1;
    }
    proof {
        assert(lower@.take(len as int) =~= lower@);
        assert(i as u128 <= u64::MAX as u128);
    }
    acc
}

/// The model of an optional keyword argument.
pub open spec fn kw_model(k: Option<String>) -> Option<Seq<char>> {
    match k {
        Some(k) => Some(k@),
        None => None,
    }
}

/// The score of a decoded candidate: its frequency score, plus a large
/// bonus when the lowercase decoding contains the lowercase keyword.
pub open spec fn cand_score(decoded: Seq<char>, kw: Option<Seq<char>>) -> int {
    weight_sum(lower_of(decoded)) + (match kw {
        Some(k) => if k.len() > 0 && seq_contains(lower_of(decoded), lower_of(k)) {
            1000int
        } else {
            0int
        },
        None => 0int,
    })
}

/// The candidate record for one tried rotation.
pub open spec fn crack_entry(label: Seq<char>, decoded: Seq<char>, kw: Option<Seq<char>>) -> CrackModel {
    CrackModel { label, text: decoded, score: cand_score(decoded, kw) }
}

/// The candidates every solver run tries, in the order they are tried.
pub open spec fn common_candidates(s: Seq<char>, kw: Option<Seq<char>>) -> Seq<CrackModel> {
    seq![
        crack_entry("ROT3"@, rot_std(s, 23, 7, false), kw),
        crack_entry("ROT5 (Digits)"@, rot_std(s, 21, 5, true), kw),
        crack_entry("ROT13"@, rot_std(s, 13, 7, false), kw),
        crack_entry("ROT18"@, rot_std(s, 13, 5, true), kw),
        crack_entry("ROT47"@, rot47_seq(s), kw),
    ]
}

/// The extra candidates of a full-scope run: every remaining shift from
/// `from` up, skipping the shifts the common list already covers.
pub open spec fn full_extras(s: Seq<char>, kw: Option<Seq<char>>, from: int) -> Seq<CrackModel>
    decreases 26 - from,
{
    if from >= 26 {
        seq![]
    } else if from == 3 || from == 5 || from == 13 {
        full_extras(s, kw, from + 1)
    } else {
        seq![
            crack_entry(
                "Shift -"@ + dec_str(from),
                rot_std(s, shift_alpha(from as u8, true), shift_digit(from as u8, true), true),
                kw,
            ),
        ] + full_extras(s, kw, from + 1)
    }
}

/// Every candidate a solver run tries, in order.
pub open spec fn crack_candidates(s: Seq<char>, kw: Option<Seq<char>>, full: bool) -> Seq<
    CrackModel,
> {
    common_candidates(s, kw) + (if full {
        full_extras(s, kw, 1)
    } else {
        seq![]
    })
}

/// Build the candidate record for one decoded rotation.
fn crack_entry_exec(label: String, decoded: String, keyword: &Option<String>) -> (c: CrackResult)
    ensures
        c@ == crack_entry(label@, decoded@, kw_model(*keyword)),
{
    let mut score = score_text(decoded.as_str());
    match keyword {
        Some(k) => {
            if !k.as_str().is_empty() {
                let dl = lowercase(decoded.as_str());
                let kl = lowercase(k.as_str());
                if contains_str(dl.as_str(), kl.as_str()) {
                    score = score + 1000;
                }
            }
        },
        None => {},
    }
    CrackResult { label, text: decoded, score }
}

/// Growing the candidate list by one extends its models.
proof fn lemma_cands_grow(pre: Seq<CrackResult>, post: Seq<CrackResult>, c: CrackResult)
    requires
        post == pre.push(c),
    ensures
        crack_models(post) == crack_models(pre) + seq![c@],
{
    assert(crack_models(pre.push(c)) =~= crack_models(pre) + seq![c@]);
}

/// The position of the first candidate with the highest score, `best`
/// being the best position among those before `k`.
pub open spec fn first_max_from(s: Seq<CrackModel>, k: int, best: int) -> int
    decreases s.len() - k,
{
    if k < 0 || k >= s.len() || best < 0 || best >= s.len() {
        best
    } else if s[k].score > s[best].score {
        first_max_from(s, k + 1, k)
    } else {
        first_max_from(s, k + 1, best)
    }
}

/// The candidates ranked by score, highest first: at each step the first
/// candidate with the highest remaining score comes next, so candidates
/// of equal score keep their relative order.
pub open spec fn rank_desc(s: Seq<CrackModel>) -> Seq<CrackModel>
    decreases s.len(),
{
    if s.len() == 0 {
        seq![]
    } else {
        let b = first_max_from(s, 1, 0);
        if 0 <= b < s.len() {
            seq![s[b]] + rank_desc(s.remove(b))
        } else {
            seq![]
        }
    }
}

/// Sort candidates by score, highest first, extracting the first maximum
/// of the remainder at each step; the result is exactly the ranking
/// [`rank_desc`] states, and holds exactly the given candidates.
fn sort_by_score_desc(v: Vec<CrackResult>) -> (out: Vec<CrackResult>)
    ensures
        out@.len() == v@.len(),
        crack_models(out@) == rank_desc(crack_models(v@)),
        crack_models(out@).to_multiset() == crack_models(v@).to_multiset(),
        forall|i: int, j: int|
            0 <= i <= j < out@.len() ==> #[trigger] out@[i]@.score >= #[trigger] out@[j]@.score,
{
    let mut rest = v;
    let mut out: Vec<CrackResult> = Vec::new();
    proof {
        assert(crack_models(out@) =~= Seq::<CrackModel>::empty());
        assert(crack_models(out@) + rank_desc(crack_models(rest@)) =~= rank_desc(
            crack_models(rest@),
        ));
        assert(crack_models(out@).to_multiset().add(crack_models(rest@).to_multiset())
            =~= crack_models(rest@).to_multiset());
    }
    while rest.len() > 0
        invariant
            out@.len() + rest@.len() == v@.len(),
            rank_desc(crack_models(v@)) == crack_models(out@) + rank_desc(crack_models(rest@)),
            crack_models(out@).to_multiset().add(crack_models(rest@).to_multiset())
                == crack_models(v@).to_multiset(),
            forall|i: int, j: int|
                0 <= i <= j < out@.len() ==> #[trigger] out@[i]@.score >= #[trigger] out@[j]@.score,
            forall|i: int, j: int|
                0 <= i < out@.len() && 0 <= j < rest@.len() ==> #[trigger] out@[i]@.score
                    >= #[trigger] rest@[j]@.score,
        decreases rest@.len(),
    {
        let mut best: usize = 0;
        let mut bi: usize = 1;
        while bi < rest.len()
            invariant
                rest@.len() > 0,
                bi <= rest@.len(),
                best < rest@.len(),
                forall|k: int| 0 <= k < bi ==> #[trigger] rest@[k]@.score <= rest@[best as int]@.score,
                first_max_from(crack_models(rest@), bi as int, best as int) == first_max_from(
                    crack_models(rest@),
                    1,
                    0,
                ),
            decreases rest@.len() - bi,
        {
            proof {
                assert(crack_models(rest@)[bi as int] == rest@[bi as int]@);
                assert(crack_models(rest@)[best as int] == rest@[best as int]@);
            }
            if rest[bi].score > rest[best].score {
                best = bi;
            }
            bi = bi + 1;
        }
        proof {
            assert(best as int == first_max_from(crack_models(rest@), 1, 0));
        }
        let ghost old_rest = rest@;
        let ghost old_out = out@;
        let item = rest.remove(best);
        out.push(item);
        proof {
            let x = out@.last()@;
            assert(crack_models(old_rest.remove(best as int)) =~= crack_models(old_rest).remove(
                best as int,
            ));
            assert(crack_models(out@) =~= crack_models(old_out).push(x));
            assert(crack_models(old_rest)[best as int] == x);
            assert(crack_models(rest@).to_multiset() =~= crack_models(old_rest).to_multiset()
                .remove(x));
            assert(crack_models(out@).to_multiset() =~= crack_models(old_out).to_multiset().insert(
                x,
            ));
            assert(crack_models(out@).to_multiset().add(crack_models(rest@).to_multiset())
                =~= crack_models(old_out).to_multiset().add(
                crack_models(old_rest).to_multiset(),
            ));
            assert(rank_desc(crack_models(old_rest)) == seq![x] + rank_desc(
                crack_models(old_rest).remove(best as int),
            ));
            assert((crack_models(old_out) + seq![x]) + rank_desc(crack_models(rest@))
                =~= crack_models(old_out) + (seq![x] + rank_desc(crack_models(rest@))));
            assert forall|j: int| 0 <= j < rest@.len() implies x.score
                >= #[trigger] rest@[j]@.score by {
                if j < best as int {
                    assert(rest@[j] == old_rest[j]);
                } else {
                    assert(rest@[j] == old_rest[j + 1]);
                }
            }
        }
    }
    proof {
        assert(rank_desc(crack_models(rest@)) =~= Seq::<CrackModel>::empty());
        assert(crack_models(out@) + Seq::<CrackModel>::empty() =~= crack_models(out@));
    }
    out
}

/// Try every rotation of the chosen scope against the input and return
/// the candidates ranked by score, highest first.  Only an empty input is
/// rejected.
pub fn caesar_crack(input: String, keyword: Option<String>, scope: String) -> (r: Result<
    Vec<CrackResult>,
    String,
>)
    ensures
        r is Err <==> input@.len() == 0,
        r matches Err(m) ==> m@ == "输入内容不能为空"@,
        r matches Ok(v) ==> {
            let cands = crack_candidates(input@, kw_model(keyword), scope@ == "full"@);
            &&& v@.len() == cands.len()
            &&& crack_models(v@) == rank_desc(cands)
            &&& crack_models(v@).to_multiset() == cands.to_multiset()
            &&& forall|i: int, j: int|
                0 <= i <= j < v@.len() ==> #[trigger] v@[i]@.score >= #[trigger] v@[j]@.score
        },
{
    if input.as_str().is_empty() {
        return Err(String::from_str("输入内容不能为空"));
    }
    let ghost s = input@;
    let ghost kw = kw_model(keyword);

    let mut results: Vec<CrackResult> = Vec::new();
    proof {
        assert(crack_models(results@) =~= Seq::<CrackModel>::empty());
    }

    let c0 = crack_entry_exec(
        String::from_str("ROT3"),
        rotate_standard(input.as_str(), 3, true, false),
        &keyword,
    );
    let ghost pre0 = results@;
    results.push(c0);
    proof {
        lemma_cands_grow(pre0, results@, results@.last());
    }
    let c1 = crack_entry_exec(
        String::from_str("ROT5 (Digits)"),
        rotate_standard(input.as_str(), 5, true, true),
        &keyword,
    );
    let ghost pre1 = results@;
    results.push(c1);
    proof {
        lemma_cands_grow(pre1, results@, results@.last());
    }
    let c2 = crack_entry_exec(
        String::from_str("ROT13"),
        rotate_standard(input.as_str(), 13, true, false),
        &keyword,
    );
    let ghost pre2 = results@;
    results.push(c2);
    proof {
        lemma_cands_grow(pre2, results@, results@.last());
    }
    let c3 = crack_entry_exec(String::from_str("ROT18"), rotate_rot18(input.as_str()), &keyword);
    let ghost pre3 = results@;
    results.push(c3);
    proof {
        lemma_cands_grow(pre3, results@, results@.last());
    }
    let c4 = crack_entry_exec(String::from_str("ROT47"), rotate_rot47(input.as_str()), &keyword);
    let ghost pre4 = results@;
    results.push(c4);
    proof {
        lemma_cands_grow(pre4, results@, results@.last());
        assert(crack_models(results@) =~= common_candidates(s, kw));
    }

    let full_name = String::from_str("full");
    let is_full = scope == full_name;
    if is_full {
        let mut sh: u8 = 1;
        while sh < 26
            invariant
                1 <= sh <= 26,
                s == input@,
                kw == kw_model(keyword),
                crack_models(results@) + full_extras(s, kw, sh as int) == crack_candidates(
                    s,
                    kw,
                    true,
                ),
            decreases 26 - sh,
        {
            if sh == 3 || sh == 5 || sh == 13 {
                proof {
                    assert(full_extras(s, kw, sh as int) == full_extras(s, kw, sh as int + 1));
                }
                sh = sh + 1;
                continue ;
            }
            let mut label = String::from_str("Shift -");
            push_dec(&mut label, sh as u32);
            let decoded = rotate_standard(input.as_str(), sh, true, true);
            let c = crack_entry_exec(label, decoded, &keyword);
            let ghost pre = results@;
            results.push(c);
            proof {
                lemma_cands_grow(pre, results@, results@.last());
                assert(full_extras(s, kw, sh as int) == seq![
                    crack_entry(
                        "Shift -"@ + dec_str(sh as int),
                        rot_std(
                            s,
                            shift_alpha(sh as u8, true),
                            shift_digit(sh as u8, true),
                            true,
                        ),
                        kw,
                    ),
                ] + full_extras(s, kw, sh as int + 1));
                assert((crack_models(pre) + seq![results@.last()@]) + full_extras(
                    s,
                    kw,
                    sh as int + 1,
                ) =~= crack_models(pre) + (seq![results@.last()@] + full_extras(
                    s,
                    kw,
                    sh as int + 1,
                )));
            }
            sh = sh + 1;
        }
        proof {
            assert(full_extras(s, kw, 26) =~= Seq::<CrackModel>::empty());
            assert(crack_models(results@) + Seq::<CrackModel>::empty() =~= crack_models(
                results@,
            ));
        }
    } else {
        proof {
            assert(crack_candidates(s, kw, false) =~= common_candidates(s, kw));
        }
    }

    let sorted = sort_by_score_desc(results);
    Ok(sorted)
}

} // verus!
