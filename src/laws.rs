use vstd::prelude::*;

use std::cmp::Ordering;

use crate::order::{compare_versions, dangling, int_cmp, reverse, text_cmp, token_cmp, tokens_cmp};
use crate::token::{
    in_class, lemma_span_bounds, lemma_span_exact, numeric_runs_fit, span, token_text,
    version_core, version_tokens, CharClass, Token,
};

verus! {

proof fn lemma_text_cmp_reflexive(a: Seq<char>)
    ensures
        text_cmp(a, a) == Ordering::Equal,
    decreases a.len(),
{
    if a.len() > 0 {
        lemma_text_cmp_reflexive(a.skip(1));
    }
}

proof fn lemma_text_cmp_antisymmetric(a: Seq<char>, b: Seq<char>)
    ensures
        text_cmp(b, a) == reverse(text_cmp(a, b)),
    decreases a.len(),
{
    if a.len() > 0 && b.len() > 0 {
        lemma_text_cmp_antisymmetric(a.skip(1), b.skip(1));
    }
}

proof fn lemma_token_cmp_antisymmetric(a: Token, b: Token)
    ensures
        token_cmp(b, a) == reverse(token_cmp(a, b)),
{
    lemma_text_cmp_antisymmetric(token_text(a), token_text(b));
}

proof fn lemma_tokens_cmp_reflexive(a: Seq<Token>)
    ensures
        tokens_cmp(a, a) == Ordering::Equal,
    decreases a.len(),
{
    if a.len() > 0 {
        lemma_text_cmp_reflexive(token_text(a[0]));
        lemma_tokens_cmp_reflexive(a.skip(1));
    }
}

proof fn lemma_tokens_cmp_antisymmetric(a: Seq<Token>, b: Seq<Token>)
    ensures
        tokens_cmp(b, a) == reverse(tokens_cmp(a, b)),
    decreases a.len(),
{
    if a.len() > 0 && b.len() > 0 {
        lemma_token_cmp_antisymmetric(a[0], b[0]);
        lemma_tokens_cmp_antisymmetric(a.skip(1), b.skip(1));
    }
}

/// Every version is equal to itself.
pub proof fn lemma_compare_reflexive(x: Seq<char>)
    ensures
        compare_versions(x, x) == Ordering::Equal,
{
    lemma_tokens_cmp_reflexive(version_tokens(x));
}

/// Comparing the other way round gives the opposite result: `Less` and
/// `Greater` trade places and `Equal` stays.
pub proof fn lemma_compare_antisymmetric(a: Seq<char>, b: Seq<char>)
    ensures
        compare_versions(b, a) == reverse(compare_versions(a, b)),
{
    lemma_tokens_cmp_antisymmetric(version_tokens(a), version_tokens(b));
}

/// Build metadata is ignored: appending `+` and any text to a version changes
/// neither its tokens nor how it compares to any other version.
pub proof fn lemma_build_metadata_ignored(a: Seq<char>, meta: Seq<char>, b: Seq<char>)
    ensures
        version_tokens(a + seq!['+'] + meta) == version_tokens(a),
        numeric_runs_fit(a + seq!['+'] + meta) == numeric_runs_fit(a),
        compare_versions(a + seq!['+'] + meta, b) == compare_versions(a, b),
        compare_versions(b, a + seq!['+'] + meta) == compare_versions(b, a),
{
    let s = a + seq!['+'] + meta;
    let n = span(a, CharClass::Core);
    lemma_span_bounds(a, CharClass::Core);
    assert forall|j: int| 0 <= j < n implies in_class(#[trigger] s[j], CharClass::Core) by {
        assert(s[j] == a[j]);
        assert(in_class(a[j], CharClass::Core));
    }
    assert(!in_class(s[n as int], CharClass::Core));
    lemma_span_exact(s, CharClass::Core, n);
    assert(version_core(s) =~= version_core(a));
}

/// A token sequence followed by one more token orders after the sequence
/// alone, unless that token marks a prerelease, which orders it before.
pub proof fn lemma_one_more_token(ts: Seq<Token>, t: Token)
    ensures
        tokens_cmp(ts.push(t), ts) == dangling(t),
        tokens_cmp(ts, ts.push(t)) == reverse(dangling(t)),
    decreases ts.len(),
{
    if ts.len() == 0 {
        assert(ts.push(t)[0] == t);
    } else {
        lemma_text_cmp_reflexive(token_text(ts[0]));
        assert(ts.push(t)[0] == ts[0]);
        assert(ts.push(t).skip(1) =~= ts.skip(1).push(t));
        lemma_one_more_token(ts.skip(1), t);
    }
}

} // verus!
