use vstd::prelude::*;

verus! {

/// A token of a version string, as comparisons see it.
pub enum Token {
    /// A maximal run of ASCII digits, with its value and its text.
    Num(int, Seq<char>),
    /// A non-numeric run that is no prerelease marker.
    Lex(Seq<char>),
    /// A non-numeric run of length at least two that starts with `-`.
    Pre(Seq<char>),
}

/// The classes of characters that delimit runs.
#[derive(Clone, Copy)]
pub enum CharClass {
    /// ASCII digits.
    Digit,
    /// Everything but ASCII digits.
    NonDigit,
    /// Neither an ASCII digit nor `-`.
    Plain,
    /// Anything but `+`, which opens the build metadata.
    Core,
}

pub open spec fn is_digit(c: char) -> bool {
    '0' <= c && c <= '9'
}

pub open spec fn in_class(c: char, k: CharClass) -> bool {
    match k {
        CharClass::Digit => is_digit(c),
        CharClass::NonDigit => !is_digit(c),
        CharClass::Plain => !is_digit(c) && c != '-',
        CharClass::Core => c != '+',
    }
}

/// Length of the longest prefix of `s` whose characters are all in class `k`.
pub open spec fn span(s: Seq<char>, k: CharClass) -> nat
    decreases s.len(),
{
    if s.len() > 0 && in_class(s[0], k) {
        1 + span(s.skip(1), k)
    } else {
        0
    }
}

/// The part of a version string that orders it: everything before the first `+`.
pub open spec fn version_core(s: Seq<char>) -> Seq<char> {
    s.take(span(s, CharClass::Core) as int)
}

pub open spec fn digit_value(c: char) -> int {
    (c as u32) as int - ('0' as u32) as int
}

/// The number that a run of decimal digits denotes.
pub open spec fn digits_value(s: Seq<char>) -> int
    decreases s.len(),
{
    if s.len() == 0 {
        0
    } else {
        digits_value(s.drop_last()) * 10 + digit_value(s.last())
    }
}

/// A run that marks a prerelease: a `-` followed by at least one more character.
pub open spec fn is_prerelease_run(run: Seq<char>) -> bool {
    run.len() > 1 && run[0] == '-'
}

/// Length of the run at the start of the non-empty `s`: a maximal digit run; a
/// prerelease marker, which takes every non-digit up to the next digit; or one
/// character followed by every character up to the next digit or `-`.
pub open spec fn run_len(s: Seq<char>) -> nat {
    if s.len() == 0 {
        0
    } else if is_digit(s[0]) {
        span(s, CharClass::Digit)
    } else if s[0] == '-' && s.len() > 1 && in_class(s[1], CharClass::Plain) {
        span(s, CharClass::NonDigit)
    } else {
        1 + span(s.skip(1), CharClass::Plain)
    }
}

pub open spec fn classify(run: Seq<char>) -> Token {
    if run.len() > 0 && is_digit(run[0]) {
        Token::Num(digits_value(run), run)
    } else if is_prerelease_run(run) {
        Token::Pre(run)
    } else {
        Token::Lex(run)
    }
}

/// The tokens of `s`, left to right.
pub open spec fn tokens(s: Seq<char>) -> Seq<Token>
    decreases s.len(),
    via tokens_decreases
{
    if s.len() == 0 {
        Seq::empty()
    } else {
        let n = run_len(s) as int;
        seq![classify(s.take(n))] + tokens(s.skip(n))
    }
}

#[via_fn]
proof fn tokens_decreases(s: Seq<char>) {
    if s.len() > 0 {
        lemma_run_len_bounds(s);
    }
}

/// The tokens of a version string: those of its core.
pub open spec fn version_tokens(s: Seq<char>) -> Seq<Token> {
    tokens(version_core(s))
}

/// Every numeric token's value fits in an `i64`.
pub open spec fn numbers_fit(ts: Seq<Token>) -> bool {
    forall|i: int| 0 <= i < ts.len() ==> (#[trigger] ts[i] matches Token::Num(v, _) ==> v <= i64::MAX)
}

/// Every digit run of `s` that orders it denotes a number that fits in an `i64`.
pub open spec fn numeric_runs_fit(s: Seq<char>) -> bool {
    numbers_fit(version_tokens(s))
}

pub open spec fn token_text(t: Token) -> Seq<char> {
    match t {
        Token::Num(_, text) => text,
        Token::Lex(text) => text,
        Token::Pre(text) => text,
    }
}

pub proof fn lemma_digits_value_nonneg(s: Seq<char>)
    requires
        forall|j: int| 0 <= j < s.len() ==> is_digit(#[trigger] s[j]),
    ensures
        digits_value(s) >= 0,
    decreases s.len(),
{
    if s.len() > 0 {
        lemma_digits_value_nonneg(s.drop_last());
    }
}

/// A prefix of a digit run denotes no more than the whole run.
pub proof fn lemma_digits_value_prefix(s: Seq<char>, j: int)
    requires
        0 <= j <= s.len(),
        forall|t: int| 0 <= t < s.len() ==> is_digit(#[trigger] s[t]),
    ensures
        digits_value(s.take(j)) <= digits_value(s),
    decreases s.len(),
{
    if j < s.len() {
        let p = s.drop_last();
        assert(s.take(j) =~= p.take(j));
        lemma_digits_value_prefix(p, j);
        lemma_digits_value_nonneg(p);
    } else {
        assert(s.take(j) =~= s);
    }
}

pub proof fn lemma_span_bounds(s: Seq<char>, k: CharClass)
    ensures
        span(s, k) <= s.len(),
        forall|j: int| 0 <= j < span(s, k) ==> in_class(#[trigger] s[j], k),
        span(s, k) < s.len() ==> !in_class(s[span(s, k) as int], k),
    decreases s.len(),
{
    if s.len() > 0 && in_class(s[0], k) {
        lemma_span_bounds(s.skip(1), k);
        assert forall|j: int| 0 <= j < span(s, k) implies in_class(#[trigger] s[j], k) by {
            if j > 0 {
                assert(s[j] == s.skip(1)[j - 1]);
            }
        }
        if span(s, k) < s.len() {
            assert(s[span(s, k) as int] == s.skip(1)[span(s.skip(1), k) as int]);
        }
    }
}

/// A prefix of `n` characters of class `k`, not followed by one of that class,
/// is the span of `k`.
pub proof fn lemma_span_exact(s: Seq<char>, k: CharClass, n: nat)
    requires
        n <= s.len(),
        forall|j: int| 0 <= j < n ==> in_class(#[trigger] s[j], k),
        n == s.len() || !in_class(s[n as int], k),
    ensures
        span(s, k) == n,
    decreases n,
{
    if n > 0 {
        assert(in_class(s[0], k));
        assert forall|j: int| 0 <= j < n - 1 implies in_class(#[trigger] s.skip(1)[j], k) by {
            assert(s.skip(1)[j] == s[j + 1]);
        }
        lemma_span_exact(s.skip(1), k, (n - 1) as nat);
    }
}

pub proof fn lemma_run_len_bounds(s: Seq<char>)
    requires
        s.len() > 0,
    ensures
        1 <= run_len(s) <= s.len(),
{
    lemma_span_bounds(s, CharClass::Digit);
    lemma_span_bounds(s, CharClass::NonDigit);
    lemma_span_bounds(s.skip(1), CharClass::Plain);
    if is_digit(s[0]) {
        assert(span(s, CharClass::Digit) >= 1);
    } else if s[0] == '-' && s.len() > 1 && in_class(s[1], CharClass::Plain) {
        assert(span(s, CharClass::NonDigit) >= 1);
    }
}

} // verus!
