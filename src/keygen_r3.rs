//! Keygen round three: check that each share's round-two reveal opens its
//! round-one commitment to `y_j = g * u_j`.
use vstd::prelude::*;
use crate::keygen_r1::{
    commit_with_randomness, commit_preimage, corrupted, lemma_corrupted_differs, sha256,
    y_i_commitment, base_mul, Behaviour, Output, Y_I_COMMIT_TAG,
};

verus! {

/// Whether share `j`'s reveal fails to open its commitment to `y_j`.
pub open spec fn bad_commit(commit: Seq<u8>, y_j: Seq<u8>, reveal: Seq<u8>, j: nat) -> bool {
    sha256(commit_preimage(Y_I_COMMIT_TAG, j as u64, y_j, reveal)) != commit
}

/// The shares below `end` whose reveals do not open their commitments, in
/// increasing order.
pub open spec fn bad_commits_below(
    commits: Seq<Seq<u8>>,
    y_is: Seq<Seq<u8>>,
    reveals: Seq<Seq<u8>>,
    end: nat,
) -> Seq<usize>
    decreases end,
{
    if end == 0 {
        Seq::empty()
    } else {
        let j = (end - 1) as nat;
        let prev = bad_commits_below(commits, y_is, reveals, j);
        if bad_commit(commits[j as int], y_is[j as int], reveals[j as int], j) {
            prev.push(j as usize)
        } else {
            prev
        }
    }
}

/// A share's commitment fails to open exactly when it behaves as
/// `R1BadCommit`: other behaviours never make an honest share look faulty.
pub proof fn lemma_commit_fault_iff_bad_commit(
    j: u64,
    u_i: Seq<u8>,
    reveal: Seq<u8>,
    behaviour: Behaviour,
)
    ensures
        ({
            let honest = y_i_commitment(j, u_i, reveal);
            let sent = if behaviour == Behaviour::R1BadCommit {
                corrupted(honest)
            } else {
                honest
            };
            bad_commit(sent, base_mul(u_i), reveal, j as nat) <==> behaviour
                == Behaviour::R1BadCommit
        }),
{
    lemma_corrupted_differs(y_i_commitment(j, u_i, reveal));
}

/// The faulter list names exactly the shares whose commitments do not open,
/// each once, in increasing order.
pub proof fn lemma_bad_commits_exact(
    commits: Seq<Seq<u8>>,
    y_is: Seq<Seq<u8>>,
    reveals: Seq<Seq<u8>>,
    end: nat,
)
    requires
        end <= usize::MAX + 1,
    ensures
        forall|j: nat| j < end ==> (bad_commits_below(commits, y_is, reveals, end).contains(
            j as usize,
        ) <==> bad_commit(commits[j as int], y_is[j as int], reveals[j as int], j)),
        forall|a: int, b: int| 0 <= a < b < bad_commits_below(commits, y_is, reveals, end).len()
            ==> bad_commits_below(commits, y_is, reveals, end)[a] < bad_commits_below(
            commits, y_is, reveals, end)[b],
        forall|k: int| 0 <= k < bad_commits_below(commits, y_is, reveals, end).len() ==> (
            bad_commits_below(commits, y_is, reveals, end)[k] as nat) < end,
    decreases end,
{
    if end > 0 {
        let j = (end - 1) as nat;
        lemma_bad_commits_exact(commits, y_is, reveals, j);
        let prev = bad_commits_below(commits, y_is, reveals, j);
        let cur = bad_commits_below(commits, y_is, reveals, end);
        assert forall|i: nat| i < end implies (cur.contains(i as usize) <==> bad_commit(
            commits[i as int],
            y_is[i as int],
            reveals[i as int],
            i,
        )) by {
            if bad_commit(commits[j as int], y_is[j as int], reveals[j as int], j) {
                assert(cur == prev.push(j as usize));
                if i < j {
                    if cur.contains(i as usize) {
                        let k = choose|k: int| 0 <= k < cur.len() && cur[k] == i as usize;
                        if k == prev.len() {
                            assert(cur[k] == j as usize);
                        } else {
                            assert(prev[k] == i as usize);
                        }
                    }
                    if prev.contains(i as usize) {
                        let k = choose|k: int| 0 <= k < prev.len() && prev[k] == i as usize;
                        assert(cur[k] == i as usize);
                    }
                } else {
                    assert(cur[prev.len() as int] == j as usize);
                }
            } else {
                if i == j && cur.contains(i as usize) {
                    let k = choose|k: int| 0 <= k < prev.len() && prev[k] == i as usize;
                }
            }
        }
    }
}

fn same_output(a: &Output, b: &Output) -> (r: bool)
    ensures
        r == (a.view() == b.view()),
{
    let mut i: usize = 0;
    while i < 32
        invariant
            i <= 32,
            forall|k: int| 0 <= k < i ==> a.0@[k] == b.0@[k],
        decreases 32 - i,
    {
        if a.0[i] != b.0[i] {
            return false;
        }
        i = i + 1;
    }
    assert(a.view() =~= b.view());
    true
}

/// The shares whose reveal `y_i_reveals[j]` does not open their commitment
/// `y_i_commits[j]` to `y_is[j]`; these are the faulters of the round.
pub fn verify_y_i_commits(
    y_i_commits: &Vec<Output>,
    y_is: &Vec<Vec<u8>>,
    y_i_reveals: &Vec<[u8; 32]>,
) -> (r: Vec<usize>)
    requires
        y_is@.len() == y_i_commits@.len(),
        y_i_reveals@.len() == y_i_commits@.len(),
    ensures
        r@ == bad_commits_below(
            y_i_commits@.map_values(|c: Output| c.view()),
            y_is@.map_values(|y: Vec<u8>| y@),
            y_i_reveals@.map_values(|x: [u8; 32]| x@),
            y_i_commits@.len(),
        ),
{
    let ghost commits = y_i_commits@.map_values(|c: Output| c.view());
    let ghost ys = y_is@.map_values(|y: Vec<u8>| y@);
    let ghost reveals = y_i_reveals@.map_values(|x: [u8; 32]| x@);
    let n = y_i_commits.len();
    let mut r: Vec<usize> = Vec::new();
    let mut j: usize = 0;
    while j < n
        invariant
            n == y_i_commits@.len(),
            y_is@.len() == n,
            y_i_reveals@.len() == n,
            commits == y_i_commits@.map_values(|c: Output| c.view()),
            ys == y_is@.map_values(|y: Vec<u8>| y@),
            reveals == y_i_reveals@.map_values(|x: [u8; 32]| x@),
            j <= n,
            r@ == bad_commits_below(commits, ys, reveals, j as nat),
        decreases n - j,
    {
        let expected = commit_with_randomness(
            Y_I_COMMIT_TAG,
            j,
            y_is[j].as_slice(),
            &y_i_reveals[j],
        );
        if !same_output(&expected, &y_i_commits[j]) {
            r.push(j);
        }
        j = j + 1;
    }
    r
}

} // verus!
