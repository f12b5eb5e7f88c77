//! Batch text replacement: a rule list is parsed from raw text (one
//! `pattern -> replacement` rule per line), then the input is rewritten in
//! one greedy left-to-right pass, recording highlight ranges both in the
//! original text and in the rewritten one.
//!
//! A line yields a rule only when it holds exactly one arrow and its
//! trimmed pattern is non-empty (a rule with an empty pattern could never
//! make progress).  Positions count characters, not bytes.

use vstd::prelude::*;

use crate::textutil::{chars_of, string_of_chars};

verus! {

/// A highlighted character range, with the rule that produced it.
#[derive(Debug, Clone, Copy, PartialEq, Eq)]
pub struct HighlightRange {
    pub start: usize,
    pub end: usize,
    pub rule_index: usize,
}

/// Mathematical model of a [`HighlightRange`].
#[verifier::ext_equal]
pub ghost struct HlModel {
    pub start: int,
    pub end: int,
    pub rule_index: int,
}

impl View for HighlightRange {
    type V = HlModel;

    open spec fn view(&self) -> HlModel {
        HlModel {
            start: self.start as int,
            end: self.end as int,
            rule_index: self.rule_index as int,
        }
    }
}

/// The outcome of a batch replacement: highlights over the original text,
/// the rewritten text, and highlights over the rewritten text.
#[derive(Debug, Clone, PartialEq)]
pub struct ReplaceResult {
    pub original_highlights: Vec<HighlightRange>,
    pub replaced_content: String,
    pub replaced_highlights: Vec<HighlightRange>,
}

/// Mathematical model of a [`ReplaceResult`].
#[verifier::ext_equal]
pub ghost struct ReplaceModel {
    pub orig: Seq<HlModel>,
    pub content: Seq<char>,
    pub repl: Seq<HlModel>,
}

impl View for ReplaceResult {
    type V = ReplaceModel;

    open spec fn view(&self) -> ReplaceModel {
        ReplaceModel {
            orig: self.original_highlights@.map_values(|h: HighlightRange| h@),
            content: self.replaced_content@,
            repl: self.replaced_highlights@.map_values(|h: HighlightRange| h@),
        }
    }
}

/// What `char::is_whitespace` returns: a fixed function of the character.
pub uninterp spec fn is_space(c: char) -> bool;

/// Relies on `char::is_whitespace`: whether the character has the Unicode
/// whitespace property, a function of the character alone.
#[verifier::external_body]
fn is_space_exec(c: char) -> (r: bool)
    ensures
        r == is_space(c),
{
    c.is_whitespace()
}

/// The text without its leading whitespace.
pub open spec fn trim_start(s: Seq<char>) -> Seq<char>
    decreases s.len(),
{
    if s.len() > 0 && is_space(s[0]) {
        trim_start(s.drop_first())
    } else {
        s
    }
}

/// The text without its trailing whitespace.
pub open spec fn trim_end(s: Seq<char>) -> Seq<char>
    decreases s.len(),
{
    if s.len() > 0 && is_space(s.last()) {
        trim_end(s.drop_last())
    } else {
        s
    }
}

/// The text without leading and trailing whitespace.
pub open spec fn trim_spec(s: Seq<char>) -> Seq<char> {
    trim_end(trim_start(s))
}

/// Copy of the characters of `line` with whitespace trimmed at both ends.
fn trim_chars(line: &Vec<char>) -> (out: Vec<char>)
    ensures
        out@ == trim_spec(line@),
{
    let n = line.len();
    let mut a: usize = 0;
    proof {
        assert(line@.skip(0) =~= line@);
    }
    while a < n && is_space_exec(line[a])
        invariant
            n == line@.len(),
            a <= n,
            trim_start(line@) == trim_start(line@.skip(a as int)),
        decreases n - a,
    {
        proof {
            assert(line@.skip(a as int)[0] == line@[a as int]);
            assert(line@.skip(a as int).drop_first() =~= line@.skip(a as int + 1));
        }
        a = a + 1;
    }
    proof {
        assert(line@.skip(a as int).len() > 0 ==> line@.skip(a as int)[0] == line@[a as int]);
        assert(trim_start(line@) == line@.skip(a as int));
    }

    let mut b: usize = n;
    while b > a && is_space_exec(line[b - 1])
        invariant
            n == line@.len(),
            a <= b <= n,
            trim_start(line@) == line@.skip(a as int),
            trim_end(line@.skip(a as int)) == trim_end(line@.subrange(a as int, b as int)),
        decreases b,
    {
        proof {
            let seg = line@.subrange(a as int, b as int);
            assert(seg.last() == line@[b - 1]);
            assert(seg.drop_last() =~= line@.subrange(a as int, b as int - 1));
        }
        b = b - 1;
    }
    proof {
        let seg = line@.subrange(a as int, b as int);
        assert(seg.len() > 0 ==> seg.last() == line@[b - 1]);
        assert(trim_end(line@.subrange(a as int, b as int)) == line@.subrange(a as int, b as int));
        assert(line@.skip(a as int) =~= line@.subrange(a as int, n as int));
    }

    let mut out: Vec<char> = Vec::new();
    let mut i: usize = a;
    while i < b
        invariant
            a <= i <= b <= n,
            n == line@.len(),
            out@ == line@.subrange(a as int, i as int),
        decreases b - i,
    {
        out.push(line[i]);
        proof {
            assert(line@.subrange(a as int, i + 1) =~= line@.subrange(a as int, i as int).push(
                line@[i as int],
            ));
        }
        i = i + 1;
    }
    proof {
        assert(out@ == trim_spec(line@));
    }
    out
}

/// Characters before the first line feed (the whole length when none).
pub open spec fn line_end(s: Seq<char>) -> nat
    decreases s.len(),
{
    if s.len() == 0 {
        0
    } else if s[0] == '\n' {
        0
    } else {
        1 + line_end(s.drop_first())
    }
}

proof fn lemma_line_end_bound(s: Seq<char>)
    ensures
        line_end(s) <= s.len(),
    decreases s.len(),
{
    if s.len() > 0 && s[0] != '\n' {
        lemma_line_end_bound(s.drop_first());
    }
}

/// A line with a trailing carriage return stripped.
pub open spec fn strip_cr(l: Seq<char>) -> Seq<char> {
    if l.len() > 0 && l.last() == '\r' {
        l.drop_last()
    } else {
        l
    }
}

/// Characters before the first `->` arrow (the whole length when none).
pub open spec fn arrow_pos(s: Seq<char>) -> nat
    decreases s.len(),
{
    if s.len() < 2 {
        s.len()
    } else if s[0] == '-' && s[1] == '>' {
        0
    } else {
        1 + arrow_pos(s.drop_first())
    }
}

proof fn lemma_arrow_pos_bound(s: Seq<char>)
    ensures
        arrow_pos(s) <= s.len(),
    decreases s.len(),
{
    if s.len() >= 2 && !(s[0] == '-' && s[1] == '>') {
        lemma_arrow_pos_bound(s.drop_first());
    }
}

/// True when the text holds an arrow.
pub open spec fn has_arrow(s: Seq<char>) -> bool {
    arrow_pos(s) + 2 <= s.len()
}

/// The rule a line yields: the trimmed texts left and right of its arrow,
/// `None` when the line has no arrow, more than one, or an empty pattern.
pub open spec fn rule_of_line(line: Seq<char>) -> Option<(Seq<char>, Seq<char>)> {
    if !has_arrow(line) {
        None
    } else {
        let j = arrow_pos(line) as int;
        let rest = line.skip(j + 2);
        if has_arrow(rest) {
            None
        } else {
            let f = trim_spec(line.take(j));
            let t = trim_spec(rest);
            if f.len() == 0 {
                None
            } else {
                Some((f, t))
            }
        }
    }
}

/// The rules the raw text yields, line by line.
pub open spec fn rules_spec(s: Seq<char>) -> Seq<(Seq<char>, Seq<char>)>
    decreases s.len(),
{
    if s.len() == 0 {
        seq![]
    } else {
        let i = line_end(s) as int;
        let line = strip_cr(s.take(i));
        let rest = if i < s.len() {
            rules_spec(s.skip(i + 1))
        } else {
            seq![]
        };
        match rule_of_line(line) {
            Some(r) => seq![r] + rest,
            None => rest,
        }
    }
}

/// One parsed replacement rule.
pub struct Rule {
    pub from: Vec<char>,
    pub to: Vec<char>,
}

/// The models of a parsed rule list.
pub open spec fn rule_models(rs: Seq<Rule>) -> Seq<(Seq<char>, Seq<char>)> {
    rs.map_values(|r: Rule| (r.from@, r.to@))
}

/// First position at or after `start` where an arrow begins (the whole
/// length when none remains).
fn arrow_from(line: &Vec<char>, start: usize) -> (j: usize)
    requires
        start <= line@.len(),
    ensures
        j as int == start + arrow_pos(line@.skip(start as int)),
        start <= j,
        j as int <= line@.len(),
{
    proof {
        lemma_arrow_pos_bound(line@.skip(start as int));
    }
    let n = line.len();
    let mut j = start;
    while n - j >= 2 && !(line[j] == '-' && line[j + 1] == '>')
        invariant
            n == line@.len(),
            start <= j <= n,
            start + arrow_pos(line@.skip(start as int)) == j + arrow_pos(line@.skip(j as int)),
            arrow_pos(line@.skip(j as int)) <= line@.skip(j as int).len(),
        decreases n - j,
    {
        proof {
            let rem = line@.skip(j as int);
            assert(rem[0] == line@[j as int]);
            assert(rem[1] == line@[j + 1]);
            assert(rem.drop_first() =~= line@.skip(j + 1));
            lemma_arrow_pos_bound(line@.skip(j + 1));
        }
        j = j + 1;
    }
    if n - j >= 2 {
        proof {
            let rem = line@.skip(j as int);
            assert(rem[0] == line@[j as int]);
            assert(rem[1] == line@[j + 1]);
            assert(arrow_pos(rem) == 0);
        }
        j
    } else {
        proof {
            let rem = line@.skip(j as int);
            assert(rem.len() < 2);
            assert(arrow_pos(rem) == rem.len());
        }
        n
    }
}

/// Parse the rule a single line yields, if any.
fn rule_of_line_exec(line: &Vec<char>) -> (r: Option<Rule>)
    ensures
        match r {
            Some(rule) => {
                &&& rule_of_line(line@) == Some((rule.from@, rule.to@))
                &&& rule.from@.len() >= 1
            },
            None => rule_of_line(line@) is None,
        },
{
    let n = line.len();
    let j = arrow_from(line, 0);
    proof {
        assert(line@.skip(0) =~= line@);
    }
    if n - j < 2 {
        return None;
    }
    let j2 = arrow_from(line, j + 2);
    proof {
        assert(has_arrow(line@.skip(j + 2)) == (n - j2 >= 2));
    }
    if n - j2 >= 2 {
        return None;
    }

    let mut left: Vec<char> = Vec::new();
    let mut i: usize = 0;
    while i < j
        invariant
            i <= j,
            j as int <= line@.len(),
            left@ == line@.take(j as int).take(i as int),
        decreases j - i,
    {
        left.push(line[i]);
        proof {
            assert(line@.take(j as int).take(i + 1) =~= line@.take(j as int).take(i as int).push(
                line@[i as int],
            ));
        }
        i = i + 1;
    }
    proof {
        assert(line@.take(j as int).take(j as int) =~= line@.take(j as int));
    }
    let mut right: Vec<char> = Vec::new();
    let mut p: usize = j + 2;
    while p < n
        invariant
            j + 2 <= p <= n,
            n == line@.len(),
            right@ == line@.skip(j + 2).take(p - (j + 2)),
        decreases n - p,
    {
        right.push(line[p]);
        proof {
            assert(line@.skip(j + 2).take(p + 1 - (j + 2)) =~= line@.skip(j + 2).take(
                p - (j + 2),
            ).push(line@[p as int]));
        }
        p = p + 1;
    }
    proof {
        assert(line@.skip(j + 2).take(n - (j + 2)) =~= line@.skip(j + 2));
    }

    let from = trim_chars(&left);
    let to = trim_chars(&right);
    if from.len() == 0 {
        return None;
    }
    Some(Rule { from, to })
}

/// Parse the whole rule text, line by line.
fn parse_rules_exec(raw: &Vec<char>) -> (rules: Vec<Rule>)
    ensures
        rule_models(rules@) == rules_spec(raw@),
        forall|k: int| 0 <= k < rules@.len() ==> #[trigger] rules@[k].from@.len() >= 1,
{
    let n = raw.len();
    let mut rules: Vec<Rule> = Vec::new();
    let mut p: usize = 0;
    proof {
        assert(raw@.skip(0) =~= raw@);
        assert(rule_models(rules@) =~= Seq::<(Seq<char>, Seq<char>)>::empty());
        assert(Seq::<(Seq<char>, Seq<char>)>::empty() + rules_spec(raw@) =~= rules_spec(raw@));
    }
    while p < n
        invariant
            n == raw@.len(),
            p <= n,
            rule_models(rules@) + rules_spec(raw@.skip(p as int)) == rules_spec(raw@),
            forall|k: int| 0 <= k < rules@.len() ==> #[trigger] rules@[k].from@.len() >= 1,
        decreases n - p,
    {
        let ghost p0 = p as int;
        let ghost rem = raw@.skip(p0);

        // scan to the end of the line
        let mut e: usize = p;
        while e < n && raw[e] != '\n'
            invariant
                n == raw@.len(),
                p <= e <= n,
                rem == raw@.skip(p as int),
                line_end(rem) == (e - p) + line_end(raw@.skip(e as int)),
            decreases n - e,
        {
            proof {
                let at = raw@.skip(e as int);
                assert(at[0] == raw@[e as int]);
                assert(at.drop_first() =~= raw@.skip(e + 1));
            }
            e = e + 1;
        }
        proof {
            let at = raw@.skip(e as int);
            if e < n {
                assert(at[0] == raw@[e as int]);
                assert(line_end(at) == 0);
            }
            assert(line_end(rem) == e - p);
        }

        // the line, with a trailing carriage return stripped
        let mut stop = e;
        if stop > p && raw[stop - 1] == '\r' {
            stop = stop - 1;
        }
        let mut line: Vec<char> = Vec::new();
        let mut q: usize = p;
        while q < stop
            invariant
                p <= q <= stop,
                stop as int <= raw@.len(),
                line@ == raw@.subrange(p as int, q as int),
            decreases stop - q,
        {
            line.push(raw[q]);
            proof {
                assert(raw@.subrange(p as int, q + 1) =~= raw@.subrange(p as int, q as int).push(
                    raw@[q as int],
                ));
            }
            q = q + 1;
        }
        proof {
            let spec_line = strip_cr(rem.take(e - p));
            assert(rem.take(e - p) =~= raw@.subrange(p0, e as int));
            if e > p && raw@[e - 1] == '\r' {
                assert(raw@.subrange(p0, e as int).last() == raw@[e - 1]);
                assert(raw@.subrange(p0, e as int).drop_last() =~= raw@.subrange(p0, e - 1));
                assert(line@ == spec_line);
            } else {
                assert(raw@.subrange(p0, e as int).len() > 0 ==> raw@.subrange(p0, e as int).last()
                    == raw@[e - 1]);
                assert(line@ == spec_line);
            }
        }

        let parsed = rule_of_line_exec(&line);
        let ghost pre = rules@;
        match parsed {
            Some(rule) => {
                rules.push(rule);
                proof {
                    assert(rule_models(rules@) =~= rule_models(pre) + seq![
                        (rules@.last().from@, rules@.last().to@),
                    ]);
                }
            },
            None => {},
        }

        // move past the line terminator
        if e < n {
            p = e + 1;
        } else {
            p = n;
        }
        proof {
            let i = line_end(rem) as int;
            assert(rules_spec(rem) == (match rule_of_line(strip_cr(rem.take(i))) {
                Some(r) => seq![r] + (if i < rem.len() {
                    rules_spec(rem.skip(i + 1))
                } else {
                    seq![]
                }),
                None => (if i < rem.len() {
                    rules_spec(rem.skip(i + 1))
                } else {
                    seq![]
                }),
            }));
            if e < n {
                assert(rem.skip(i + 1) =~= raw@.skip(e + 1));
            } else {
                assert(raw@.skip(p as int) =~= Seq::<char>::empty());
                assert(rules_spec(raw@.skip(p as int)) =~= Seq::<
                    (Seq<char>, Seq<char>),
                >::empty());
            }
            match rule_of_line(strip_cr(rem.take(i))) {
                Some(r) => {
                    assert((rule_models(pre) + seq![r]) + rules_spec(raw@.skip(p as int))
                        =~= rule_models(pre) + (seq![r] + rules_spec(raw@.skip(p as int))));
                },
                None => {},
            }
        }
    }
    proof {
        assert(raw@.skip(n as int) =~= Seq::<char>::empty());
        assert(rules_spec(raw@.skip(n as int)) =~= Seq::<(Seq<char>, Seq<char>)>::empty());
        assert(rule_models(rules@) + Seq::<(Seq<char>, Seq<char>)>::empty() =~= rule_models(
            rules@,
        ));
    }
    rules
}

/// True when the pattern occurs in the input at exactly position `i`.
pub open spec fn match_at(input: Seq<char>, i: int, f: Seq<char>) -> bool {
    i + f.len() <= input.len() && input.subrange(i, i + f.len()) == f
}

/// The first rule whose pattern matches at `i`, scanning from rule `k`
/// (the rule count when none matches).
pub open spec fn first_match(
    rules: Seq<(Seq<char>, Seq<char>)>,
    input: Seq<char>,
    i: int,
    k: int,
) -> int
    decreases rules.len() - k,
{
    if k < 0 || k >= rules.len() {
        rules.len() as int
    } else if match_at(input, i, rules[k].0) {
        k
    } else {
        first_match(rules, input, i, k + 1)
    }
}

/// The replacement outcome from input position `i` on, the rewritten text
/// having `clen` characters so far.  At each position the first matching
/// rule fires and its whole pattern is consumed; without a match one
/// character is copied.
pub open spec fn replace_from(
    input: Seq<char>,
    rules: Seq<(Seq<char>, Seq<char>)>,
    i: int,
    clen: int,
) -> ReplaceModel
    decreases input.len() - i,
{
    if i < 0 || i >= input.len() {
        ReplaceModel { orig: seq![], content: seq![], repl: seq![] }
    } else {
        let k = first_match(rules, input, i, 0);
        if 0 <= k && k < rules.len() && rules[k].0.len() >= 1 && i + rules[k].0.len()
            <= input.len() {
            let f = rules[k].0;
            let t = rules[k].1;
            let rest = replace_from(input, rules, i + f.len(), clen + t.len());
            ReplaceModel {
                orig: seq![HlModel { start: i, end: i + f.len(), rule_index: k }] + rest.orig,
                content: t + rest.content,
                repl: seq![HlModel { start: clen, end: clen + t.len(), rule_index: k }]
                    + rest.repl,
            }
        } else {
            let rest = replace_from(input, rules, i + 1, clen + 1);
            ReplaceModel {
                orig: rest.orig,
                content: seq![input[i]] + rest.content,
                repl: rest.repl,
            }
        }
    }
}

/// The whole outcome a batch replacement yields for the given text and
/// raw rule list.
pub open spec fn batch_model(text: Seq<char>, raw: Seq<char>) -> ReplaceModel {
    replace_from(text, rules_spec(raw), 0, 0)
}

/// Prepend already-produced output to the outcome of replacing the rest.
pub open spec fn rm_combine(
    orig: Seq<HlModel>,
    content: Seq<char>,
    repl: Seq<HlModel>,
    rest: ReplaceModel,
) -> ReplaceModel {
    ReplaceModel {
        orig: orig + rest.orig,
        content: content + rest.content,
        repl: repl + rest.repl,
    }
}

/// True when the pattern occurs in the input at exactly position `i`.
fn match_at_exec(input: &Vec<char>, i: usize, f: &Vec<char>) -> (r: bool)
    requires
        i <= input@.len(),
    ensures
        r == match_at(input@, i as int, f@),
{
    let n = input.len();
    let fl = f.len();
    if fl > n - i {
        proof {
            assert(!match_at(input@, i as int, f@));
        }
        return false;
    }
    let mut q: usize = 0;
    while q < fl
        invariant
            n == input@.len(),
            i + fl <= n,
            fl == f@.len(),
            q <= fl,
            forall|t: int| 0 <= t < q ==> input@[i + t] == f@[t],
        decreases fl - q,
    {
        if input[i + q] != f[q] {
            proof {
                assert(input@.subrange(i as int, i + fl)[q as int] == input@[i + q]);
            }
            return false;
        }
        q = q + 1;
    }
    proof {
        assert(input@.subrange(i as int, i + fl) =~= f@);
    }
    true
}

/// Replace every rule match in the text, scanning left to right and
/// applying the first matching rule at each position.  Lines of the raw
/// rule text that hold no well-formed rule are ignored; the call itself
/// never fails.
pub fn batch_replace(text: String, rules_raw: String) -> (r: Result<ReplaceResult, String>)
    ensures
        r is Ok,
        r matches Ok(rr) ==> rr@ == batch_model(text@, rules_raw@),
{
    let raw = chars_of(rules_raw.as_str());
    let rules = parse_rules_exec(&raw);
    let input = chars_of(text.as_str());
    let ghost rls = rule_models(rules@);

    let mut orig_hl: Vec<HighlightRange> = Vec::new();
    let mut content: Vec<char> = Vec::new();
    let mut repl_hl: Vec<HighlightRange> = Vec::new();

    let n = input.len();
    let mut i: usize = 0;
    proof {
        assert(orig_hl@.map_values(|h: HighlightRange| h@) =~= Seq::<HlModel>::empty());
        assert(repl_hl@.map_values(|h: HighlightRange| h@) =~= Seq::<HlModel>::empty());
        let m = replace_from(input@, rls, 0, 0);
        assert(rm_combine(
            Seq::<HlModel>::empty(),
            Seq::<char>::empty(),
            Seq::<HlModel>::empty(),
            m,
        ) =~= m);
    }
    while i < n
        invariant
            n == input@.len(),
            i <= n,
            rls == rule_models(rules@),
            forall|k: int| 0 <= k < rules@.len() ==> #[trigger] rules@[k].from@.len() >= 1,
            rm_combine(
                orig_hl@.map_values(|h: HighlightRange| h@),
                content@,
                repl_hl@.map_values(|h: HighlightRange| h@),
                replace_from(input@, rls, i as int, content@.len() as int),
            ) == replace_from(input@, rls, 0, 0),
        decreases n - i,
    {
        let ghost i0 = i as int;
        let ghost cl0 = content@.len() as int;

        // find the first rule matching here
        let rn = rules.len();
        let mut k: usize = 0;
        let mut hit = rn;
        while k < rn
            invariant_except_break
                rn == rules@.len(),
                k <= rn,
                hit == rn,
                i <= input@.len(),
                rls == rule_models(rules@),
                first_match(rls, input@, i as int, 0) == first_match(rls, input@, i as int, k as int),
            ensures
                rn == rules@.len(),
                hit <= rn,
                hit as int == first_match(rls, input@, i as int, 0),
                hit < rn ==> match_at(input@, i as int, rls[hit as int].0),
            decreases rn - k,
        {
            if match_at_exec(&input, i, &rules[k].from) {
                hit = k;
                proof {
                    assert(rls[k as int].0 == rules@[k as int].from@);
                    assert(first_match(rls, input@, i as int, k as int) == k);
                }
                break ;
            }
            proof {
                assert(rls[k as int].0 == rules@[k as int].from@);
            }
            k = k + 1;
        }

        if hit < rn {
            let fl = rules[hit].from.len();
            let tl = rules[hit].to.len();
            let ghost f = rls[hit as int].0;
            let ghost t = rls[hit as int].1;
            let ghost pre_content = content@;
            proof {
                assert(rls[hit as int] == (rules@[hit as int].from@, rules@[hit as int].to@));
                assert(match_at(input@, i0, f));
            }
            orig_hl.push(HighlightRange { start: i, end: i + fl, rule_index: hit });
            let r_start = content.len();
            let mut q: usize = 0;
            while q < tl
                invariant
                    q <= tl,
                    tl == rules@[hit as int].to@.len(),
                    hit < rules@.len(),
                    t == rules@[hit as int].to@,
                    content@ == pre_content + t.take(q as int),
                decreases tl - q,
            {
                content.push(rules[hit].to[q]);
                proof {
                    assert(t.take(q + 1) =~= t.take(q as int).push(t[q as int]));
                    assert(pre_content + t.take(q + 1) =~= (pre_content + t.take(q as int)).push(
                        t[q as int],
                    ));
                }
                q = q + 1;
            }
            proof {
                assert(t.take(tl as int) =~= t);
            }
            let r_end = content.len();
            repl_hl.push(HighlightRange { start: r_start, end: r_end, rule_index: hit });
            i = i + fl;

            proof {
                let ohm = orig_hl@.map_values(|h: HighlightRange| h@);
                let rhm = repl_hl@.map_values(|h: HighlightRange| h@);
                let pre_ohm = ohm.drop_last();
                let pre_rhm = rhm.drop_last();
                assert(ohm =~= pre_ohm + seq![HlModel { start: i0, end: i0 + fl, rule_index: hit as int }]);
                assert(rhm =~= pre_rhm + seq![
                    HlModel { start: cl0, end: cl0 + tl, rule_index: hit as int },
                ]);
                assert(content@ =~= content@.subrange(0, cl0) + t);
                let rest = replace_from(input@, rls, i0 + f.len(), cl0 + t.len());
                assert(replace_from(input@, rls, i0, cl0) == (ReplaceModel {
                    orig: seq![HlModel { start: i0, end: i0 + f.len(), rule_index: hit as int }]
                        + rest.orig,
                    content: t + rest.content,
                    repl: seq![
                        HlModel { start: cl0, end: cl0 + t.len(), rule_index: hit as int },
                    ] + rest.repl,
                }));
                assert((pre_ohm + seq![
                    HlModel { start: i0, end: i0 + f.len(), rule_index: hit as int },
                ]) + rest.orig =~= pre_ohm + (seq![
                    HlModel { start: i0, end: i0 + f.len(), rule_index: hit as int },
                ] + rest.orig));
                assert((content@.subrange(0, cl0) + t) + rest.content =~= content@.subrange(
                    0,
                    cl0,
                ) + (t + rest.content));
                assert((pre_rhm + seq![
                    HlModel { start: cl0, end: cl0 + t.len(), rule_index: hit as int },
                ]) + rest.repl =~= pre_rhm + (seq![
                    HlModel { start: cl0, end: cl0 + t.len(), rule_index: hit as int },
                ] + rest.repl));
            }
        } else {
            content.push(input[i]);
            i = i + 1;
            proof {
                let rest = replace_from(input@, rls, i0 + 1, cl0 + 1);
                assert(replace_from(input@, rls, i0, cl0) == (ReplaceModel {
                    orig: rest.orig,
                    content: seq![input@[i0]] + rest.content,
                    repl: rest.repl,
                }));
                assert(content@ =~= content@.subrange(0, cl0) + seq![input@[i0]]);
                assert((content@.subrange(0, cl0) + seq![input@[i0]]) + rest.content
                    =~= content@.subrange(0, cl0) + (seq![input@[i0]] + rest.content));
            }
        }
    }
    proof {
        assert(replace_from(input@, rls, n as int, content@.len() as int) == (ReplaceModel {
            orig: Seq::<HlModel>::empty(),
            content: Seq::<char>::empty(),
            repl: Seq::<HlModel>::empty(),
        }));
        let m = replace_from(input@, rls, 0, 0);
        assert(orig_hl@.map_values(|h: HighlightRange| h@) + Seq::<HlModel>::empty()
            =~= orig_hl@.map_values(|h: HighlightRange| h@));
        assert(content@ + Seq::<char>::empty() =~= content@);
        assert(repl_hl@.map_values(|h: HighlightRange| h@) + Seq::<HlModel>::empty()
            =~= repl_hl@.map_values(|h: HighlightRange| h@));
    }

    let replaced_content = string_of_chars(&content);
    let rr = ReplaceResult {
        original_highlights: orig_hl,
        replaced_content,
        replaced_highlights: repl_hl,
    };
    proof {
        assert(rr@ =~= batch_model(text@, rules_raw@));
    }
    Ok(rr)
}

} // verus!
