use vstd::prelude::*;

use std::cmp::Ordering;

use crate::token::{numeric_runs_fit, token_text, version_tokens, Token};
use crate::tokenize::{decompose, view_tokens, SortingType};

verus! {

pub open spec fn reverse(o: Ordering) -> Ordering {
    match o {
        Ordering::Less => Ordering::Greater,
        Ordering::Equal => Ordering::Equal,
        Ordering::Greater => Ordering::Less,
    }
}

pub open spec fn int_cmp(a: int, b: int) -> Ordering {
    if a < b {
        Ordering::Less
    } else if a > b {
        Ordering::Greater
    } else {
        Ordering::Equal
    }
}

/// Lexicographic order of two texts by code point.
pub open spec fn text_cmp(a: Seq<char>, b: Seq<char>) -> Ordering
    decreases a.len(),
{
    if a.len() == 0 && b.len() == 0 {
        Ordering::Equal
    } else if a.len() == 0 {
        Ordering::Less
    } else if b.len() == 0 {
        Ordering::Greater
    } else if a[0] < b[0] {
        Ordering::Less
    } else if a[0] > b[0] {
        Ordering::Greater
    } else {
        text_cmp(a.skip(1), b.skip(1))
    }
}

/// Two numeric tokens compare by value; any other pair by text.
pub open spec fn token_cmp(a: Token, b: Token) -> Ordering {
    match (a, b) {
        (Token::Num(x, _), Token::Num(y, _)) => int_cmp(x, y),
        _ => text_cmp(token_text(a), token_text(b)),
    }
}

/// How a side that still holds token `t` compares to a side that has run out:
/// below it when `t` marks a prerelease, above it otherwise.
pub open spec fn dangling(t: Token) -> Ordering {
    if t is Pre {
        Ordering::Less
    } else {
        Ordering::Greater
    }
}

/// Two token sequences compare at their first position where the tokens differ
/// or where one of them has run out.
pub open spec fn tokens_cmp(a: Seq<Token>, b: Seq<Token>) -> Ordering
    decreases a.len(),
{
    if a.len() == 0 && b.len() == 0 {
        Ordering::Equal
    } else if b.len() == 0 {
        dangling(a[0])
    } else if a.len() == 0 {
        reverse(dangling(b[0]))
    } else if token_cmp(a[0], b[0]) != Ordering::Equal {
        token_cmp(a[0], b[0])
    } else {
        tokens_cmp(a.skip(1), b.skip(1))
    }
}

/// How version `a` orders against version `b`.
pub open spec fn compare_versions(a: Seq<char>, b: Seq<char>) -> Ordering {
    tokens_cmp(version_tokens(a), version_tokens(b))
}

fn compare_chars(a: char, b: char) -> (r: Ordering)
    ensures
        r == (if a < b {
            Ordering::Less
        } else if a > b {
            Ordering::Greater
        } else {
            Ordering::Equal
        }),
{
    if a < b {
        Ordering::Less
    } else if a > b {
        Ordering::Greater
    } else {
        Ordering::Equal
    }
}

/// Compares two texts by code point.
fn compare_text(a: &Vec<char>, b: &Vec<char>) -> (r: Ordering)
    ensures
        r == text_cmp(a@, b@),
{
    let mut i: usize = 0;
    proof {
        assert(a@.skip(0) =~= a@);
        assert(b@.skip(0) =~= b@);
    }
    while i < a.len() && i < b.len()
        invariant
            i <= a.len(),
            i <= b.len(),
            text_cmp(a@, b@) == text_cmp(a@.skip(i as int), b@.skip(i as int)),
        decreases a.len() - i,
    {
        let c = compare_chars(a[i], b[i]);
        proof {
            assert(a@.skip(i as int).skip(1) =~= a@.skip(i + 1));
            assert(b@.skip(i as int).skip(1) =~= b@.skip(i + 1));
        }
        match c {
            Ordering::Equal => {},
            _ => {
                return c;
            },
        }
        i += 1;
    }
    if i < a.len() {
        Ordering::Greater
    } else if i < b.len() {
        Ordering::Less
    } else {
        Ordering::Equal
    }
}

fn compare_i64(a: i64, b: i64) -> (r: Ordering)
    ensures
        r == int_cmp(a as int, b as int),
{
    if a < b {
        Ordering::Less
    } else if a > b {
        Ordering::Greater
    } else {
        Ordering::Equal
    }
}

fn compare_token(a: &SortingType, b: &SortingType) -> (r: Ordering)
    ensures
        r == token_cmp(a@, b@),
{
    match (a, b) {
        (SortingType::Numerical(x, _), SortingType::Numerical(y, _)) => compare_i64(*x, *y),
        _ => compare_text(a.text(), b.text()),
    }
}

/// How a side that still holds `t` compares to a side that has run out.
fn compare_dangling(t: &SortingType) -> (r: Ordering)
    ensures
        r == dangling(t@),
{
    match t {
        SortingType::SemverPrerelease(_) => Ordering::Less,
        _ => Ordering::Greater,
    }
}

/// Walks two token sequences side by side.
fn compare_tokens(left: &Vec<SortingType>, right: &Vec<SortingType>) -> (r: Ordering)
    ensures
        r == tokens_cmp(view_tokens(left@), view_tokens(right@)),
{
    let ghost a = view_tokens(left@);
    let ghost b = view_tokens(right@);
    let mut i: usize = 0;
    proof {
        assert(a.skip(0) =~= a);
        assert(b.skip(0) =~= b);
    }
    while i < left.len() && i < right.len()
        invariant
            i <= left.len(),
            i <= right.len(),
            a == view_tokens(left@),
            b == view_tokens(right@),
            tokens_cmp(a, b) == tokens_cmp(a.skip(i as int), b.skip(i as int)),
        decreases left.len() - i,
    {
        let c = compare_token(&left[i], &right[i]);
        proof {
            assert(a.skip(i as int)[0] == left@[i as int]@);
            assert(b.skip(i as int)[0] == right@[i as int]@);
            assert(a.skip(i as int).skip(1) =~= a.skip(i + 1));
            assert(b.skip(i as int).skip(1) =~= b.skip(i + 1));
        }
        match c {
            Ordering::Equal => {},
            _ => {
                return c;
            },
        }
        i += 1;
    }
    if i < left.len() {
        proof {
            assert(a.skip(i as int)[0] == left@[i as int]@);
        }
        compare_dangling(&left[i])
    } else if i < right.len() {
        proof {
            assert(b.skip(i as int)[0] == right@[i as int]@);
        }
        let d = compare_dangling(&right[i]);
        match d {
            Ordering::Less => Ordering::Greater,
            Ordering::Equal => Ordering::Equal,
            Ordering::Greater => Ordering::Less,
        }
    } else {
        Ordering::Equal
    }
}

/// How version `left` orders against version `right`, or `None` where a digit
/// run of either denotes a number above `i64::MAX`.
pub fn try_compare(left: &str, right: &str) -> (r: Option<Ordering>)
    ensures
        r is Some <==> numeric_runs_fit(left@) && numeric_runs_fit(right@),
        r matches Some(o) ==> o == compare_versions(left@, right@),
{
    match (decompose(left), decompose(right)) {
        (Some(l), Some(r)) => Some(compare_tokens(&l, &r)),
        _ => None,
    }
}

/// How version `left` orders against version `right`.
pub fn compare(left: &str, right: &str) -> (r: Ordering)
    requires
        numeric_runs_fit(left@),
        numeric_runs_fit(right@),
    ensures
        r == compare_versions(left@, right@),
{
    match try_compare(left, right) {
        Some(o) => o,
        // not reached: both versions' digit runs fit
        None => Ordering::Equal,
    }
}

} // verus!
