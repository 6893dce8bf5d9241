use vstd::prelude::*;

use crate::token::{
    classify, digits_value, in_class, is_digit, is_prerelease_run, lemma_digits_value_nonneg,
    lemma_digits_value_prefix, lemma_run_len_bounds, lemma_span_bounds, lemma_span_exact,
    numbers_fit, numeric_runs_fit, run_len, span, token_text, tokens, version_core, version_tokens,
    CharClass, Token,
};

verus! {

/// A token of a version string, with the text it was cut from.
pub enum SortingType {
    Numerical(i64, Vec<char>),
    Lexical(Vec<char>),
    SemverPrerelease(Vec<char>),
}

impl View for SortingType {
    type V = Token;

    open spec fn view(&self) -> Token {
        match self {
            SortingType::Numerical(v, text) => Token::Num(*v as int, text@),
            SortingType::Lexical(text) => Token::Lex(text@),
            SortingType::SemverPrerelease(text) => Token::Pre(text@),
        }
    }
}

impl SortingType {
    /// The text of the token, as it stood in the version string.
    pub fn text(&self) -> (r: &Vec<char>)
        ensures
            r@ == token_text(self@),
    {
        match self {
            SortingType::Numerical(_, text) => text,
            SortingType::Lexical(text) => text,
            SortingType::SemverPrerelease(text) => text,
        }
    }
}

pub open spec fn view_tokens(ts: Seq<SortingType>) -> Seq<Token> {
    ts.map_values(|t: SortingType| t@)
}

/// The characters of `s`, in order.
fn chars_of(s: &str) -> (r: Vec<char>)
    ensures
        r@ == s@,
{
    let mut out: Vec<char> = Vec::new();
    for c in it: s.chars()
        invariant
            it.seq() == s@,
            out@ == it.seq().take(it.index() as int),
    {
        out.push(c);
    }
    out
}

fn is_ascii_digit(c: char) -> (r: bool)
    ensures
        r == is_digit(c),
{
    '0' <= c && c <= '9'
}

fn char_in_class(c: char, k: CharClass) -> (r: bool)
    ensures
        r == in_class(c, k),
{
    match k {
        CharClass::Digit => is_ascii_digit(c),
        CharClass::NonDigit => !is_ascii_digit(c),
        CharClass::Plain => !is_ascii_digit(c) && c != '-',
        CharClass::Core => c != '+',
    }
}

/// The end of the longest stretch of class `k` that starts at `start`.
fn scan(v: &Vec<char>, start: usize, k: CharClass) -> (end: usize)
    requires
        start <= v.len(),
    ensures
        end == start + span(v@.skip(start as int), k),
        end <= v.len(),
{
    let mut j: usize = start;
    while j < v.len() && char_in_class(v[j], k)
        invariant
            start <= j <= v.len(),
            forall|t: int| start <= t < j ==> in_class(#[trigger] v@[t], k),
        decreases v.len() - j,
    {
        j += 1;
    }
    proof {
        let s = v@.skip(start as int);
        assert forall|t: int| 0 <= t < j - start implies in_class(#[trigger] s[t], k) by {
            assert(s[t] == v@[start + t]);
        }
        lemma_span_exact(s, k, (j - start) as nat);
    }
    j
}

/// A copy of `v[start..end]`.
fn copy_range(v: &Vec<char>, start: usize, end: usize) -> (r: Vec<char>)
    requires
        start <= end <= v.len(),
    ensures
        r@ == v@.subrange(start as int, end as int),
{
    let mut out: Vec<char> = Vec::new();
    let mut i: usize = start;
    while i < end
        invariant
            start <= i <= end <= v.len(),
            out@ == v@.subrange(start as int, i as int),
        decreases end - i,
    {
        out.push(v[i]);
        i += 1;
    }
    out
}

/// The characters of `s` before its first `+`.
fn core_chars(s: &str) -> (r: Vec<char>)
    ensures
        r@ == version_core(s@),
{
    let v = chars_of(s);
    let end = scan(&v, 0, CharClass::Core);
    proof {
        assert(v@.skip(0) =~= v@);
    }
    copy_range(&v, 0, end)
}

/// Where the run that starts at `pos` ends.
fn run_end(v: &Vec<char>, pos: usize) -> (end: usize)
    requires
        pos < v.len(),
    ensures
        end == pos + run_len(v@.skip(pos as int)),
        end <= v.len(),
{
    let ghost s = v@.skip(pos as int);
    if is_ascii_digit(v[pos]) {
        scan(v, pos, CharClass::Digit)
    } else if v[pos] == '-' && pos + 1 < v.len() && char_in_class(v[pos + 1], CharClass::Plain) {
        scan(v, pos, CharClass::NonDigit)
    } else {
        let end = scan(v, pos + 1, CharClass::Plain);
        proof {
            assert(s.skip(1) =~= v@.skip(pos + 1));
        }
        end
    }
}

/// The value of a run of decimal digits, or `None` where it exceeds `i64::MAX`.
fn parse_digits(run: &Vec<char>) -> (r: Option<i64>)
    requires
        forall|j: int| 0 <= j < run.len() ==> is_digit(#[trigger] run@[j]),
    ensures
        r is Some <==> digits_value(run@) <= i64::MAX,
        r matches Some(x) ==> x == digits_value(run@),
{
    let mut acc: i64 = 0;
    let mut i: usize = 0;
    while i < run.len()
        invariant
            i <= run.len(),
            forall|j: int| 0 <= j < run.len() ==> is_digit(#[trigger] run@[j]),
            acc == digits_value(run@.take(i as int)),
        decreases run.len() - i,
    {
        let c = run[i];
        let d: i64 = (c as u32 - '0' as u32) as i64;
        proof {
            let p = run@.take(i as int + 1);
            assert(p.drop_last() =~= run@.take(i as int));
            assert(p.last() == c);
            lemma_digits_value_nonneg(run@.take(i as int));
            lemma_digits_value_prefix(run@, i as int + 1);
        }
        match acc.checked_mul(10) {
            Some(m) => match m.checked_add(d) {
                Some(next) => {
                    acc = next;
                },
                None => {
                    return None;
                },
            },
            None => {
                return None;
            },
        }
        i += 1;
    }
    proof {
        assert(run@.take(i as int) =~= run@);
    }
    Some(acc)
}

/// Whether a non-numeric run marks a prerelease.
fn is_semver_prerelease(run: &Vec<char>) -> (r: bool)
    ensures
        r == is_prerelease_run(run@),
{
    run.len() > 1 && run[0] == '-'
}

/// The token for a run, or `None` where the run is numeric and too large.
fn make_token(run: Vec<char>) -> (r: Option<SortingType>)
    requires
        run.len() > 0,
        is_digit(run@[0]) ==> forall|j: int| 0 <= j < run.len() ==> is_digit(#[trigger] run@[j]),
    ensures
        r matches Some(t) ==> t@ == classify(run@),
        r is None <==> (classify(run@) matches Token::Num(v, _) && v > i64::MAX),
{
    if is_ascii_digit(run[0]) {
        match parse_digits(&run) {
            Some(v) => Some(SortingType::Numerical(v, run)),
            None => None,
        }
    } else if is_semver_prerelease(&run) {
        Some(SortingType::SemverPrerelease(run))
    } else {
        Some(SortingType::Lexical(run))
    }
}

/// The tokens of a version string, after its build metadata is cut off; `None`
/// where a numeric run denotes a number above `i64::MAX`.
pub fn decompose(s: &str) -> (r: Option<Vec<SortingType>>)
    ensures
        r is Some <==> numeric_runs_fit(s@),
        r matches Some(ts) ==> view_tokens(ts@) == version_tokens(s@),
{
    let v = core_chars(s);
    let mut out: Vec<SortingType> = Vec::new();
    let mut pos: usize = 0;
    proof {
        assert(v@.skip(0) =~= v@);
        assert(view_tokens(out@) =~= Seq::<Token>::empty());
        assert(tokens(v@) =~= view_tokens(out@) + tokens(v@.skip(0)));
    }
    while pos < v.len()
        invariant
            pos <= v.len(),
            v@ == version_core(s@),
            tokens(v@) == view_tokens(out@) + tokens(v@.skip(pos as int)),
            numbers_fit(view_tokens(out@)),
        decreases v.len() - pos,
    {
        let end = run_end(&v, pos);
        let ghost rest = v@.skip(pos as int);
        let ghost n = (end - pos) as int;
        proof {
            lemma_run_len_bounds(rest);
            lemma_span_bounds(rest, CharClass::Digit);
        }
        let run = copy_range(&v, pos, end);
        proof {
            assert(rest.take(n) =~= run@);
            assert(rest.skip(n) =~= v@.skip(end as int));
            assert(tokens(rest) == seq![classify(run@)] + tokens(v@.skip(end as int)));
            assert(is_digit(run@[0]) ==> forall|j: int| 0 <= j < run.len() ==> is_digit(#[trigger] run@[j])) by {
                if is_digit(run@[0]) {
                    assert forall|j: int| 0 <= j < run.len() implies is_digit(#[trigger] run@[j]) by {
                        assert(run@[j] == rest[j]);
                        assert(in_class(rest[j], CharClass::Digit));
                    }
                }
            }
        }
        let ghost before = view_tokens(out@);
        match make_token(run) {
            Some(t) => {
                out.push(t);
                proof {
                    assert(view_tokens(out@) =~= before.push(t@));
                    assert(tokens(v@) =~= view_tokens(out@) + tokens(v@.skip(end as int)));
                    assert forall|i: int| 0 <= i < view_tokens(out@).len() implies
                        (#[trigger] view_tokens(out@)[i] matches Token::Num(x, _) ==> x <= i64::MAX) by {
                        if i < before.len() {
                            assert(view_tokens(out@)[i] == before[i]);
                        }
                    }
                }
            },
            None => {
                proof {
                    let all = tokens(v@);
                    assert(all[before.len() as int] == classify(run@));
                }
                return None;
            },
        }
        pos = end;
    }
    proof {
        assert(tokens(v@) =~= view_tokens(out@));
    }
    Some(out)
}

} // verus!
