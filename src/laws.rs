use vstd::prelude::*;
use vstd::multiset::{group_multiset_axioms, lemma_multiset_empty_len};
use vstd::seq_lib::{group_to_multiset_ensures, lemma_multiset_commutative};

use crate::invocation::{
    analysis_tokens, explicit_analysis_tokens, fix_flag, flag_len, flag_tokens, has_separator,
    is_fix, is_no_deps, is_orchestrator_token, keep_fix, keep_no_deps, keep_orchestrator,
    no_deps_flag, orchestrator_tokens, passthrough_tokens, selects_fix, separator, subcommand_of,
    synthesizes_no_deps,
};

verus! {

/// The tokens that are read and not forwarded: each `--fix` before the
/// separator, and the separator itself.
pub open spec fn consumed_tokens(s: Seq<Seq<char>>) -> Seq<Seq<char>> {
    keep_fix(flag_tokens(s)) + if has_separator(s) {
        seq![separator()]
    } else {
        Seq::empty()
    }
}

/// Each token is forwarded to the orchestrator, kept as `--no-deps`, or is a `--fix`.
proof fn lemma_flag_partition(f: Seq<Seq<char>>)
    ensures
        f.to_multiset() =~= keep_orchestrator(f).to_multiset().add(
            keep_no_deps(f).to_multiset(),
        ).add(keep_fix(f).to_multiset()),
    decreases f.len(),
{
    broadcast use group_to_multiset_ensures, group_multiset_axioms;

    reveal_strlit("--fix");
    reveal_strlit("--no-deps");
    if f.len() == 0 {
        reveal(Seq::filter);
        lemma_multiset_empty_len(f.to_multiset());
        assert(keep_orchestrator(f) == f);
        assert(keep_no_deps(f) == f);
        assert(keep_fix(f) == f);
    } else {
        let g = f.drop_last();
        let x = f.last();
        lemma_flag_partition(g);
        assert(f =~= g.push(x));
        g.lemma_filter_push(x, |t: Seq<char>| is_orchestrator_token(t));
        g.lemma_filter_push(x, |t: Seq<char>| is_no_deps(t));
        g.lemma_filter_push(x, |t: Seq<char>| is_fix(t));
        assert(f.to_multiset() =~= g.to_multiset().insert(x));
        assert(fix_flag().len() != no_deps_flag().len());
        if is_fix(x) {
            assert(keep_fix(f) == keep_fix(g).push(x));
            assert(keep_no_deps(f) == keep_no_deps(g));
            assert(keep_orchestrator(f) == keep_orchestrator(g));
        } else if is_no_deps(x) {
            assert(keep_fix(f) == keep_fix(g));
            assert(keep_no_deps(f) == keep_no_deps(g).push(x));
            assert(keep_orchestrator(f) == keep_orchestrator(g));
        } else {
            assert(keep_fix(f) == keep_fix(g));
            assert(keep_no_deps(f) == keep_no_deps(g));
            assert(keep_orchestrator(f) == keep_orchestrator(g).push(x));
        }
    }
}

/// Every token of the input lands in exactly one place: the orchestrator's
/// arguments, the analysis arguments, or the tokens that are read and not
/// forwarded. Beyond those, the analysis arguments hold only the one
/// `--no-deps` that `--fix` implies.
pub proof fn lemma_every_token_accounted_for(s: Seq<Seq<char>>)
    ensures
        s.to_multiset() == orchestrator_tokens(s).to_multiset().add(
            explicit_analysis_tokens(s).to_multiset(),
        ).add(consumed_tokens(s).to_multiset()),
        analysis_tokens(s) == explicit_analysis_tokens(s) + if synthesizes_no_deps(s) {
            seq![no_deps_flag()]
        } else {
            Seq::empty()
        },
{
    s.index_of_first_ensures(separator());
    let f = flag_tokens(s);
    let p = passthrough_tokens(s);
    lemma_flag_partition(f);
    lemma_multiset_commutative(keep_no_deps(f), p);
    if has_separator(s) {
        let sep = seq![separator()];
        assert(s =~= f + (sep + p));
        lemma_multiset_commutative(f, sep + p);
        lemma_multiset_commutative(sep, p);
        lemma_multiset_commutative(keep_fix(f), sep);
    } else {
        assert(s =~= f);
        assert(p =~= Seq::<Seq<char>>::empty());
        assert(consumed_tokens(s) =~= keep_fix(f));
        assert(keep_no_deps(f) + p =~= keep_no_deps(f));
    }
    assert(s.to_multiset() =~= orchestrator_tokens(s).to_multiset().add(
        explicit_analysis_tokens(s).to_multiset(),
    ).add(consumed_tokens(s).to_multiset()));
    assert(analysis_tokens(s) =~= explicit_analysis_tokens(s) + if synthesizes_no_deps(s) {
        seq![no_deps_flag()]
    } else {
        Seq::empty()
    });
}

/// A `--fix` anywhere before the separator selects the mutating subcommand.
pub proof fn lemma_fix_selects_fix(s: Seq<Seq<char>>, i: int)
    requires
        0 <= i < s.len(),
        s[i] == fix_flag(),
        forall|j: int| 0 <= j < i ==> #[trigger] s[j] != separator(),
    ensures
        subcommand_of(s) == "fix"@,
{
    reveal_strlit("--fix");
    reveal_strlit("--");
    s.index_of_first_ensures(separator());
    match s.index_of_first(separator()) {
        Some(k) => {
            if k <= i {
                assert(s[k] == separator());
                assert(fix_flag().len() != separator().len());
            }
        },
        None => {},
    }
    assert(i < flag_len(s));
    assert(flag_tokens(s)[i] == fix_flag());
}

/// An analysis argument list that comes from the input holds a `--no-deps`
/// only where the input does.
proof fn lemma_explicit_no_deps_from_input(s: Seq<Seq<char>>)
    ensures
        explicit_analysis_tokens(s).contains(no_deps_flag()) ==> keep_no_deps(
            flag_tokens(s),
        ).contains(no_deps_flag()) || passthrough_tokens(s).contains(no_deps_flag()),
        keep_no_deps(flag_tokens(s)).contains(no_deps_flag()) ==> flag_tokens(s).contains(
            no_deps_flag(),
        ),
{
    let a = keep_no_deps(flag_tokens(s));
    let p = passthrough_tokens(s);
    if a.contains(no_deps_flag()) {
        flag_tokens(s).lemma_filter_contains_rev(|t: Seq<char>| is_no_deps(t), no_deps_flag());
    }
    if (a + p).contains(no_deps_flag()) {
        let w = choose|w: int| 0 <= w < (a + p).len() && #[trigger] (a + p)[w] == no_deps_flag();
        if w < a.len() {
            assert(a[w] == no_deps_flag());
        } else {
            assert(p[w - a.len()] == no_deps_flag());
        }
    }
}

/// With `--fix` and no `--no-deps` anywhere, the analysis arguments hold
/// exactly one `--no-deps`.
pub proof fn lemma_fix_implies_no_deps(s: Seq<Seq<char>>)
    requires
        selects_fix(s),
        !s.contains(no_deps_flag()),
    ensures
        analysis_tokens(s).to_multiset().count(no_deps_flag()) == 1,
{
    broadcast use group_to_multiset_ensures;

    s.index_of_first_ensures(separator());
    lemma_explicit_no_deps_from_input(s);
    let f = flag_tokens(s);
    let p = passthrough_tokens(s);
    if f.contains(no_deps_flag()) {
        let w = choose|w: int| 0 <= w < f.len() && #[trigger] f[w] == no_deps_flag();
        assert(s[w] == no_deps_flag());
    }
    if p.contains(no_deps_flag()) {
        let w = choose|w: int| 0 <= w < p.len() && #[trigger] p[w] == no_deps_flag();
        assert(s[flag_len(s) + 1 + w] == no_deps_flag());
    }
    assert(!explicit_analysis_tokens(s).contains(no_deps_flag()));
    assert(explicit_analysis_tokens(s).to_multiset().count(no_deps_flag()) == 0);
}

/// With `--fix`, a single `--no-deps` given after the separator (and none
/// before it) is not doubled by the one that `--fix` implies.
pub proof fn lemma_no_deps_after_separator_kept_single(s: Seq<Seq<char>>)
    requires
        selects_fix(s),
        !flag_tokens(s).contains(no_deps_flag()),
        passthrough_tokens(s).to_multiset().count(no_deps_flag()) == 1,
    ensures
        analysis_tokens(s).to_multiset().count(no_deps_flag()) == 1,
{
    broadcast use group_to_multiset_ensures;

    lemma_explicit_no_deps_from_input(s);
    let a = keep_no_deps(flag_tokens(s));
    let p = passthrough_tokens(s);
    lemma_multiset_commutative(a, p);
    assert(a.to_multiset().count(no_deps_flag()) == 0);
    assert(explicit_analysis_tokens(s).to_multiset().count(no_deps_flag()) == 1);
    assert(explicit_analysis_tokens(s).contains(no_deps_flag()));
}

/// Tokens after the first separator are never read as flags: the subcommand
/// and the orchestrator's arguments depend on the tokens before it alone, and
/// the tokens after it follow the explicit `--no-deps` flags in their order.
pub proof fn lemma_after_separator_uninterpreted(
    pre: Seq<Seq<char>>,
    post: Seq<Seq<char>>,
    s: Seq<Seq<char>>,
)
    requires
        !pre.contains(separator()),
        s == pre + seq![separator()] + post,
    ensures
        selects_fix(s) == pre.contains(fix_flag()),
        orchestrator_tokens(s) == keep_orchestrator(pre),
        explicit_analysis_tokens(s) == keep_no_deps(pre) + post,
{
    s.index_of_first_ensures(separator());
    assert(s[pre.len() as int] == separator());
    if flag_len(s) < pre.len() {
        assert(pre[flag_len(s)] == separator());
    }
    assert(flag_len(s) == pre.len());
    assert(flag_tokens(s) =~= pre);
    assert(passthrough_tokens(s) =~= post);
}

} // verus!
