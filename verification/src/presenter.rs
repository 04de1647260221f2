use vstd::prelude::*;

verus! {

/// The mark for a base on the line score: "R" when occupied, "-" when empty.
pub fn display_runner(runner: bool) -> (text: &'static str)
    ensures
        text@ == (if runner { "R"@ } else { "-"@ }),
{
    proof {
        reveal_strlit("R");
        reveal_strlit("-");
    }
    if runner {
        "R"
    } else {
        "-"
    }
}

} // verus!
