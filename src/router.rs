use vstd::prelude::*;

use crate::invocation::{contains_token, position_of, token_views, RplCmd};

verus! {

/// `r` is `s` with the ASCII letters `A` to `Z` turned into `a` to `z`.
pub open spec fn is_ascii_lowercase_of(s: Seq<char>, r: Seq<char>) -> bool {
    &&& r.len() == s.len()
    &&& forall|i: int|
        0 <= i < s.len() ==> if 65 <= (#[trigger] s[i]) as u32 <= 90 {
            r[i] as u32 == s[i] as u32 + 32
        } else {
            r[i] == s[i]
        }
}

/// Relies on `str::make_ascii_lowercase`: `A` to `Z` become `a` to `z`, every
/// other character stays as it is.
#[verifier::external_body]
fn make_lowercase(s: &mut String)
    ensures
        is_ascii_lowercase_of(old(s)@, final(s)@),
{
    s.make_ascii_lowercase()
}

/// Whether help is asked for, anywhere in the command line.
pub open spec fn has_help(s: Seq<Seq<char>>) -> bool {
    s.contains("--help"@) || s.contains("-h"@)
}

/// Whether the version is asked for, anywhere in the command line.
pub open spec fn has_version(s: Seq<Seq<char>>) -> bool {
    s.contains("--version"@) || s.contains("-V"@)
}

/// The tokens left for the builder once the program name and the
/// subcommand name are stripped.
pub open spec fn builder_tokens(s: Seq<Seq<char>>) -> Seq<Seq<char>> {
    if s.len() >= 2 {
        s.skip(2)
    } else {
        Seq::empty()
    }
}

/// What a run does.
pub enum Route {
    /// Print the help text and stop.
    ShowHelp,
    /// Print the version and stop.
    ShowVersion,
    /// Explain the lint of this (lowercased) name and stop.
    Explain(String),
    /// Run the orchestrator with this invocation.
    Run(RplCmd),
}

/// Decides what a run does, from the whole command line (program name included).
pub fn route(raw: &Vec<String>) -> (r: Route)
    ensures
        has_help(token_views(raw@)) ==> r is ShowHelp,
        !has_help(token_views(raw@)) && has_version(token_views(raw@)) ==> r is ShowVersion,
        !has_help(token_views(raw@)) && !has_version(token_views(raw@)) ==> match token_views(
            raw@,
        ).index_of_first("--explain"@) {
            Some(p) => if p + 1 < raw@.len() {
                r matches Route::Explain(l) && is_ascii_lowercase_of(
                    token_views(raw@)[p + 1],
                    l@,
                )
            } else {
                r is ShowHelp
            },
            None => r matches Route::Run(c) && c.built_from(builder_tokens(token_views(raw@))),
        },
{
    let ghost s = token_views(raw@);
    let help_long = String::from_str("--help");
    let help_short = String::from_str("-h");
    if contains_token(raw, &help_long) || contains_token(raw, &help_short) {
        return Route::ShowHelp;
    }
    let version_long = String::from_str("--version");
    let version_short = String::from_str("-V");
    if contains_token(raw, &version_long) || contains_token(raw, &version_short) {
        return Route::ShowVersion;
    }
    let explain = String::from_str("--explain");
    match position_of(raw, &explain) {
        Some(p) => {
            assert(p < raw.len());
            if p + 1 < raw.len() {
                let mut lint = raw[p + 1].clone();
                make_lowercase(&mut lint);
                Route::Explain(lint)
            } else {
                Route::ShowHelp
            }
        },
        None => {
            let mut rest: Vec<String> = Vec::new();
            let mut i: usize = 2;
            while i < raw.len()
                invariant
                    2 <= i,
                    s == token_views(raw@),
                    raw@.len() >= 2 ==> i <= raw@.len(),
                    raw@.len() >= 2 ==> token_views(rest@) == s.subrange(2, i as int),
                    raw@.len() < 2 ==> rest@.len() == 0,
                decreases raw.len() - i,
            {
                let ghost before = token_views(rest@);
                rest.push(raw[i].clone());
                assert(token_views(rest@) =~= before.push(s[i as int]));
                assert(s.subrange(2, i + 1) =~= s.subrange(2, i as int).push(s[i as int]));
                i = i + 1;
            }
            assert(token_views(rest@) =~= builder_tokens(s));
            Route::Run(RplCmd::new(rest))
        },
    }
}

} // verus!
