//! A graduated, edit-distance-based reward over output records.
//!
//! This formulation scores a candidate by how many output positions
//! disagree with the required output, weighted by the candidate's cost. It
//! is superseded by the correctness-gated flat-penalty reward wired into
//! the search loop (see the search module), and is kept as the documented
//! alternative.

use vstd::prelude::*;

verus! {

/// How many of the first `n` positions of `v1` and `v2` disagree.
pub open spec fn spec_mismatches(v1: Seq<Seq<char>>, v2: Seq<Seq<char>>, n: int) -> int
    decreases n,
{
    if n <= 0 {
        0
    } else {
        spec_mismatches(v1, v2, n - 1) + if v1[n - 1] == v2[n - 1] {
            0int
        } else {
            1int
        }
    }
}

/// The position-wise difference between two output sequences: the number
/// of disagreeing positions over their common prefix, plus the length
/// surplus of the longer one.
pub open spec fn spec_diff(v1: Seq<Seq<char>>, v2: Seq<Seq<char>>) -> int {
    let m = if v1.len() <= v2.len() {
        v1.len() as int
    } else {
        v2.len() as int
    };
    spec_mismatches(v1, v2, m) + (v1.len() - m) + (v2.len() - m)
}

/// The graduated reward: `1 - 100 * (diff + 1) * cost`, where `diff` is
/// the position-wise difference between the required and the produced
/// output and `cost` the candidate's dynamic cost.
pub open spec fn spec_graduated_reward(
    required_out: Seq<Seq<char>>,
    cost: int,
    produced: Seq<Seq<char>>,
) -> int {
    100 * (-spec_diff(required_out, produced) - 1) * cost + 1
}

proof fn lemma_mismatches_bounds(v1: Seq<Seq<char>>, v2: Seq<Seq<char>>, n: int)
    requires
        n >= 0,
    ensures
        0 <= spec_mismatches(v1, v2, n) <= n,
    decreases n,
{
    if n > 0 {
        lemma_mismatches_bounds(v1, v2, n - 1);
    }
}

/// The position-wise difference of two output sequences.
fn diff(v1: &[String], v2: &[String]) -> (r: isize)
    requires
        v1@.len() <= isize::MAX,
        v2@.len() <= isize::MAX,
    ensures
        r == spec_diff(v1.deep_view(), v2.deep_view()),
        0 <= r,
        r <= v1@.len() || r <= v2@.len(),
{
    let mut count: usize = 0;
    let len1 = v1.len();
    let len2 = v2.len();
    let min_len = if len1 <= len2 {
        len1
    } else {
        len2
    };

    for i in 0..min_len
        invariant
            min_len <= len1 == v1@.len(),
            min_len <= len2 == v2@.len(),
            count == spec_mismatches(v1.deep_view(), v2.deep_view(), i as int),
            count <= i,
    {
        if !(v1[i] == v2[i]) {
            count += 1;
        }
        proof {
            assert(v1.deep_view()[i as int] == v1@[i as int]@);
            assert(v2.deep_view()[i as int] == v2@[i as int]@);
        }
    }

    proof {
        lemma_mismatches_bounds(v1.deep_view(), v2.deep_view(), min_len as int);
    }
    (count + (len1 - min_len) + (len2 - min_len)) as isize
}

/// The graduated, superseded reward: compares a program's output records
/// against the required output and weighs the disagreement by the
/// program's dynamic cost. Larger is better; a perfect match of nonzero
/// cost scores `1 - 100 * cost`.
pub fn reward(required_out: &[String], program_out: (usize, Vec<String>)) -> (r: isize)
    requires
        required_out@.len() <= isize::MAX,
        program_out.1@.len() <= isize::MAX,
        program_out.0 <= isize::MAX,
        100 * (spec_diff(required_out.deep_view(), program_out.1.deep_view()) + 1) <= isize::MAX,
        100 * (spec_diff(required_out.deep_view(), program_out.1.deep_view()) + 1) * (
        program_out.0 as int) <= isize::MAX,
    ensures
        r == spec_graduated_reward(
            required_out.deep_view(),
            program_out.0 as int,
            program_out.1.deep_view(),
        ),
{
    let produced = program_out.1.as_slice();
    proof {
        assert(produced.deep_view() =~= program_out.1.deep_view());
    }
    let d = diff(required_out, produced);
    proof {
        let di = d as int;
        let c = program_out.0 as int;
        assert(100 * (-di - 1) == -(100 * (di + 1)));
        assert((100 * (-di - 1)) * c == -(100 * (di + 1) * c)) by (nonlinear_arith);
        assert(100 * (di + 1) * c >= 0) by (nonlinear_arith)
            requires
                di >= 0,
                c >= 0,
        ;
    }
    100 * (-d - 1) * (program_out.0 as isize) + 1
}

} // verus!
