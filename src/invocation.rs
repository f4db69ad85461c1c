use vstd::prelude::*;

verus! {

/// The flag that selects the mutating subcommand.
pub open spec fn fix_flag() -> Seq<char> {
    "--fix"@
}

/// The flag that restricts the analysis to the given package, skipping dependencies.
pub open spec fn no_deps_flag() -> Seq<char> {
    "--no-deps"@
}

/// The token after which nothing is interpreted.
pub open spec fn separator() -> Seq<char> {
    "--"@
}

/// The character sequences held by a list of strings.
pub open spec fn token_views(v: Seq<String>) -> Seq<Seq<char>> {
    v.map_values(|t: String| t@)
}

/// Number of leading tokens that are scanned for flags: all of them up to
/// the first separator, or all of them when there is none.
pub open spec fn flag_len(s: Seq<Seq<char>>) -> int {
    match s.index_of_first(separator()) {
        Some(k) => k,
        None => s.len() as int,
    }
}

/// The tokens that are scanned for flags.
pub open spec fn flag_tokens(s: Seq<Seq<char>>) -> Seq<Seq<char>> {
    s.take(flag_len(s))
}

/// Whether the input holds a separator.
pub open spec fn has_separator(s: Seq<Seq<char>>) -> bool {
    flag_len(s) < s.len()
}

/// The tokens after the first separator, passed through uninterpreted.
pub open spec fn passthrough_tokens(s: Seq<Seq<char>>) -> Seq<Seq<char>> {
    if has_separator(s) {
        s.skip(flag_len(s) + 1)
    } else {
        Seq::empty()
    }
}

/// A token that the scan forwards to the orchestrator.
pub open spec fn is_orchestrator_token(t: Seq<char>) -> bool {
    t != fix_flag() && t != no_deps_flag()
}

/// The `--no-deps` flag.
pub open spec fn is_no_deps(t: Seq<char>) -> bool {
    t == no_deps_flag()
}

/// The `--fix` flag.
pub open spec fn is_fix(t: Seq<char>) -> bool {
    t == fix_flag()
}

/// The tokens of `s` that are neither `--fix` nor `--no-deps`, in order.
pub open spec fn keep_orchestrator(s: Seq<Seq<char>>) -> Seq<Seq<char>> {
    s.filter(|t: Seq<char>| is_orchestrator_token(t))
}

/// The `--no-deps` tokens of `s`.
pub open spec fn keep_no_deps(s: Seq<Seq<char>>) -> Seq<Seq<char>> {
    s.filter(|t: Seq<char>| is_no_deps(t))
}

/// The `--fix` tokens of `s`.
pub open spec fn keep_fix(s: Seq<Seq<char>>) -> Seq<Seq<char>> {
    s.filter(|t: Seq<char>| is_fix(t))
}

/// Whether the mutating subcommand is selected.
pub open spec fn selects_fix(s: Seq<Seq<char>>) -> bool {
    flag_tokens(s).contains(fix_flag())
}

/// The subcommand handed to the orchestrator.
pub open spec fn subcommand_of(s: Seq<Seq<char>>) -> Seq<char> {
    if selects_fix(s) {
        "fix"@
    } else {
        "check"@
    }
}

/// The arguments handed to the orchestrator.
pub open spec fn orchestrator_tokens(s: Seq<Seq<char>>) -> Seq<Seq<char>> {
    keep_orchestrator(flag_tokens(s))
}

/// The analysis arguments that come from the input itself: each `--no-deps`
/// before the separator, then everything after it.
pub open spec fn explicit_analysis_tokens(s: Seq<Seq<char>>) -> Seq<Seq<char>> {
    keep_no_deps(flag_tokens(s)) + passthrough_tokens(s)
}

/// Whether a `--no-deps` is added because `--fix` implies it.
pub open spec fn synthesizes_no_deps(s: Seq<Seq<char>>) -> bool {
    selects_fix(s) && !explicit_analysis_tokens(s).contains(no_deps_flag())
}

/// The arguments handed to the analysis tool.
pub open spec fn analysis_tokens(s: Seq<Seq<char>>) -> Seq<Seq<char>> {
    if synthesizes_no_deps(s) {
        explicit_analysis_tokens(s).push(no_deps_flag())
    } else {
        explicit_analysis_tokens(s)
    }
}

/// A partitioned invocation of the build orchestrator.
pub struct RplCmd {
    /// `"check"` by default, `"fix"` when fixes are to be applied.
    pub cargo_subcommand: &'static str,
    /// Arguments for the orchestrator.
    pub args: Vec<String>,
    /// Arguments for the analysis tool.
    pub rpl_args: Vec<String>,
}

impl RplCmd {
    /// Whether this invocation is the one built from the tokens `s`.
    pub open spec fn built_from(&self, s: Seq<Seq<char>>) -> bool {
        &&& self.cargo_subcommand@ == subcommand_of(s)
        &&& token_views(self.args@) == orchestrator_tokens(s)
        &&& token_views(self.rpl_args@) == analysis_tokens(s)
    }

    /// Partitions the tokens that follow the tool's own name.
    pub fn new(old_args: Vec<String>) -> (r: RplCmd)
        ensures
            r.built_from(token_views(old_args@)),
    {
        let ghost s = token_views(old_args@);
        let fix_s = String::from_str("--fix");
        let no_deps_s = String::from_str("--no-deps");
        let sep_s = String::from_str("--");
        let n = old_args.len();
        let k = match position_of(&old_args, &sep_s) {
            Some(p) => p,
            None => n,
        };
        proof {
            reveal_strlit("--fix");
            reveal_strlit("--no-deps");
            reveal_strlit("--");
            s.index_of_first_ensures(separator());
        }
        assert(k as int == flag_len(s));
        let mut fix = false;
        let mut args: Vec<String> = Vec::new();
        let mut rpl_args: Vec<String> = Vec::new();
        let mut i: usize = 0;
        while i < k
            invariant
                0 <= i <= k <= n,
                n == old_args.len(),
                s == token_views(old_args@),
                k as int == flag_len(s),
                fix_s@ == fix_flag(),
                no_deps_s@ == no_deps_flag(),
                fix == s.take(i as int).contains(fix_flag()),
                token_views(args@) == keep_orchestrator(s.take(i as int)),
                token_views(rpl_args@) == keep_no_deps(s.take(i as int)),
            decreases k - i,
        {
            let arg = &old_args[i];
            proof {
                reveal_strlit("--fix");
                reveal_strlit("--no-deps");
                assert(arg@ == s[i as int]);
                assert(s.take(i + 1) =~= s.take(i as int).push(s[i as int]));
                s.take(i as int).lemma_filter_push(s[i as int], |t: Seq<char>| is_orchestrator_token(t));
                s.take(i as int).lemma_filter_push(s[i as int], |t: Seq<char>| is_no_deps(t));
            }
            if *arg == fix_s {
                fix = true;
                assert(s.take(i + 1)[i as int] == fix_flag());
            } else if *arg == no_deps_s {
                rpl_args.push(arg.clone());
                assert(token_views(rpl_args@) =~= keep_no_deps(s.take(i + 1)));
            } else {
                args.push(arg.clone());
                assert(token_views(args@) =~= keep_orchestrator(s.take(i + 1)));
            }
            proof {
                if arg@ != fix_flag() {
                    if s.take(i + 1).contains(fix_flag()) {
                        let w = choose|w: int| 0 <= w < i + 1 && #[trigger] s.take(i + 1)[w] == fix_flag();
                        assert(s.take(i as int)[w] == fix_flag());
                    }
                    if s.take(i as int).contains(fix_flag()) {
                        let w = choose|w: int| 0 <= w < i && #[trigger] s.take(i as int)[w] == fix_flag();
                        assert(s.take(i + 1)[w] == fix_flag());
                    }
                }
            }
            i = i + 1;
        }
        assert(s.take(k as int) =~= flag_tokens(s));
        let mut j: usize = if k < n { k + 1 } else { n };
        let ghost e0 = token_views(rpl_args@);
        let ghost start: int = j as int;
        assert(s.skip(start) =~= passthrough_tokens(s));
        while j < n
            invariant
                0 <= start <= j <= n,
                s.len() == n,
                n == old_args.len(),
                s == token_views(old_args@),
                token_views(rpl_args@) == e0 + s.subrange(start, j as int),
            decreases n - j,
        {
            let ghost before = token_views(rpl_args@);
            rpl_args.push(old_args[j].clone());
            assert(s[j as int] == old_args@[j as int]@);
            assert(token_views(rpl_args@) =~= before.push(s[j as int]));
            assert(s.subrange(start, j + 1) =~= s.subrange(start, j as int).push(s[j as int]));
            assert(token_views(rpl_args@) =~= e0 + s.subrange(start, j + 1));
            j = j + 1;
        }
        assert(token_views(rpl_args@) =~= explicit_analysis_tokens(s));
        if fix && !contains_token(&rpl_args, &no_deps_s) {
            rpl_args.push(no_deps_s);
            assert(token_views(rpl_args@) =~= analysis_tokens(s));
        }
        RplCmd { cargo_subcommand: if fix { "fix" } else { "check" }, args, rpl_args }
    }
}

/// Index of the first occurrence of `t` in `v`.
pub fn position_of(v: &Vec<String>, t: &String) -> (r: Option<usize>)
    ensures
        r matches Some(p) ==> p < v@.len() && Some(p as int) == token_views(v@).index_of_first(t@),
        r is None ==> token_views(v@).index_of_first(t@) is None,
{
    let ghost s = token_views(v@);
    proof {
        s.index_of_first_ensures(t@);
    }
    let mut i: usize = 0;
    while i < v.len()
        invariant
            i <= v.len(),
            s == token_views(v@),
            forall|j: int| 0 <= j < i ==> s[j] != t@,
        decreases v.len() - i,
    {
        if v[i] == *t {
            proof {
                assert(s[i as int] == t@);
                s.index_of_first_ensures(t@);
            }
            return Some(i);
        }
        i = i + 1;
    }
    assert(!s.contains(t@));
    None
}

/// Whether `t` occurs in `v`.
pub fn contains_token(v: &Vec<String>, t: &String) -> (r: bool)
    ensures
        r == token_views(v@).contains(t@),
{
    let mut i: usize = 0;
    while i < v.len()
        invariant
            i <= v.len(),
            forall|j: int| 0 <= j < i ==> token_views(v@)[j] != t@,
        decreases v.len() - i,
    {
        if v[i] == *t {
            assert(token_views(v@)[i as int] == t@);
            return true;
        }
        i = i + 1;
    }
    false
}

} // verus!
