use vstd::prelude::*;

use crate::invocation::{token_views, RplCmd};

verus! {

/// Environment variable that routes the orchestrator's compiler calls through the driver.
pub const WRAPPER_ENV: &'static str = "RUSTC_WORKSPACE_WRAPPER";

/// Environment variable that carries the serialized analysis arguments.
pub const ARGS_ENV: &'static str = "RPL_ARGS";

/// Environment variable that overrides the orchestrator's executable.
pub const ORCHESTRATOR_ENV: &'static str = "CARGO";

/// File name of the driver, next to this executable.
pub const DRIVER_NAME: &'static str = "rpl-driver";

/// Marker written after each analysis argument when they are serialized.
pub open spec fn args_marker() -> Seq<char> {
    "__RPL_HACKERY__"@
}

/// The analysis arguments as one string: each argument followed by the marker.
pub open spec fn serialized(s: Seq<Seq<char>>) -> Seq<char>
    decreases s.len(),
{
    if s.len() == 0 {
        Seq::empty()
    } else {
        serialized(s.drop_last()) + s.last() + args_marker()
    }
}

/// The orchestrator's executable: the override when one is given, else `cargo`.
pub fn orchestrator_program(override_name: Option<String>) -> (r: String)
    ensures
        r@ == match override_name {
            Some(o) => o@,
            None => "cargo"@,
        },
{
    match override_name {
        Some(o) => o,
        None => String::from_str("cargo"),
    }
}

impl RplCmd {
    /// The value of the serialized analysis arguments variable.
    pub fn rpl_args_env(&self) -> (r: String)
        ensures
            r@ == serialized(token_views(self.rpl_args@)),
    {
        let ghost s = token_views(self.rpl_args@);
        let mut out = String::new();
        let mut i: usize = 0;
        while i < self.rpl_args.len()
            invariant
                i <= self.rpl_args.len(),
                s == token_views(self.rpl_args@),
                out@ == serialized(s.take(i as int)),
            decreases self.rpl_args.len() - i,
        {
            out.append(self.rpl_args[i].as_str());
            out.append("__RPL_HACKERY__");
            proof {
                let t = s.take(i + 1);
                assert(t.drop_last() =~= s.take(i as int));
                assert(t.last() == self.rpl_args@[i as int]@);
            }
            i = i + 1;
        }
        assert(s.take(s.len() as int) =~= s);
        out
    }

    /// The orchestrator's own arguments: the subcommand, then the forwarded arguments.
    pub fn orchestrator_args(&self) -> (r: Vec<String>)
        ensures
            token_views(r@) == seq![self.cargo_subcommand@] + token_views(self.args@),
    {
        let mut out: Vec<String> = Vec::new();
        out.push(String::from_str(self.cargo_subcommand));
        let mut i: usize = 0;
        while i < self.args.len()
            invariant
                i <= self.args.len(),
                token_views(out@) == seq![self.cargo_subcommand@] + token_views(self.args@).take(
                    i as int,
                ),
            decreases self.args.len() - i,
        {
            let ghost before = token_views(out@);
            out.push(self.args[i].clone());
            assert(token_views(out@) =~= before.push(self.args@[i as int]@));
            assert(token_views(self.args@).take(i + 1) =~= token_views(self.args@).take(
                i as int,
            ).push(self.args@[i as int]@));
            i = i + 1;
        }
        assert(token_views(self.args@).take(self.args.len() as int) =~= token_views(self.args@));
        out
    }
}

} // verus!
