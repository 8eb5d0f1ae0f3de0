use vstd::prelude::*;
use vstd::string::StringExecFns;

use crate::config::SEED_OPTION;
use crate::decimal::{decimal_text, format_u64, lemma_decimal_round_trip, u64_of_text};

verus! {

/// The text before the seed on the reproduction line.
pub open spec fn seed_assignment_prefix() -> Seq<char> {
    SEED_OPTION@ + seq!['=']
}

/// The reproduction line for a failure with `seed`: the seed option's name,
/// `=`, and the seed in decimal.
pub open spec fn report_text(seed: u64) -> Seq<char> {
    seed_assignment_prefix() + decimal_text(seed as nat)
}

/// The line to print when an iteration fails with `seed`, in a form that can
/// be given back as the seed option to run that iteration again.
pub fn report_line(seed: u64) -> (r: String)
    ensures
        r@ == report_text(seed),
{
    let mut line = SEED_OPTION.to_owned();
    proof {
        reveal_strlit("=");
    }
    line.append("=");
    let digits = format_u64(seed);
    line.append(digits.as_str());
    line
}

/// The value after the `=` of a reproduction line reads back as the seed
/// that failed.
pub proof fn lemma_report_line_reproduces(seed: u64)
    ensures
        report_text(seed).subrange(0, seed_assignment_prefix().len() as int)
            == seed_assignment_prefix(),
        u64_of_text(
            report_text(seed).subrange(
                seed_assignment_prefix().len() as int,
                report_text(seed).len() as int,
            ),
        ) == Some(seed),
{
    let p = seed_assignment_prefix();
    let t = report_text(seed);
    assert(t.subrange(0, p.len() as int) =~= p);
    assert(t.subrange(p.len() as int, t.len() as int) =~= decimal_text(seed as nat));
    lemma_decimal_round_trip(seed);
}

} // verus!
