//! Pass-network routing parameters and the predecessor-chain path
//! reconstruction used after the grid Dijkstra.

use vstd::prelude::*;

verus! {

/// Pass-network crossing counts and coarse routing grid size.
#[derive(Clone, Copy, Debug)]
pub struct PassNetworkParams {
    pub n_we: usize,
    pub n_ns: usize,
    pub coarse_n: usize,
}

impl Default for PassNetworkParams {
    /// Four west-east and four north-south crossings on a 193 x 193 coarse grid.
    fn default() -> (p: Self)
        ensures
            p.n_we == 4,
            p.n_ns == 4,
            p.coarse_n == 193,
    {
        Self { n_we: 4, n_ns: 4, coarse_n: 193 }
    }
}

/// Following `prev` from `node` reaches `-1` after exactly `steps` links, every
/// visited node being a valid index.
pub open spec fn chain_ends(prev: Seq<i64>, node: int, steps: nat) -> bool
    decreases steps,
{
    if steps == 0 {
        node == -1
    } else {
        0 <= node < prev.len() && chain_ends(prev, prev[node] as int, (steps - 1) as nat)
    }
}

/// The node reached from `node` after `k` predecessor links.
pub open spec fn chain_node(prev: Seq<i64>, node: int, k: nat) -> int
    decreases k,
{
    if k == 0 {
        node
    } else {
        chain_node(prev, prev[node] as int, (k - 1) as nat)
    }
}

/// The number of nodes on the predecessor chain of `target`.
pub open spec fn chain_len(prev: Seq<i64>, target: int) -> nat {
    choose|s: nat| chain_ends(prev, target, s)
}

/// `(row, col)` of a flat index in a grid with `cols` columns.
pub open spec fn cell_of(node: int, cols: nat) -> (usize, usize) {
    ((node / cols as int) as usize, (node % cols as int) as usize)
}

/// The path from the chain's source to `target`: cell `i` is the node
/// `chain_len - 1 - i` links back from `target`.
pub open spec fn chain_path(prev: Seq<i64>, target: int, cols: nat) -> Seq<(usize, usize)> {
    let n = chain_len(prev, target);
    Seq::new(n, |i: int| cell_of(chain_node(prev, target, (n - 1 - i) as nat), cols))
}

proof fn lemma_chain_step(prev: Seq<i64>, node: int, k: nat)
    ensures
        chain_node(prev, node, k + 1) == chain_node(prev, chain_node(prev, node, k), 1),
    decreases k,
{
    if k > 0 {
        lemma_chain_step(prev, prev[node] as int, (k - 1) as nat);
    }
}

proof fn lemma_chain_suffix(prev: Seq<i64>, node: int, k: nat, steps: nat)
    requires
        chain_ends(prev, node, steps),
        k <= steps,
    ensures
        chain_ends(prev, chain_node(prev, node, k), (steps - k) as nat),
    decreases k,
{
    if k > 0 {
        lemma_chain_suffix(prev, prev[node] as int, (k - 1) as nat, (steps - 1) as nat);
    }
}

/// The chain length is unique.
pub proof fn lemma_chain_len_unique(prev: Seq<i64>, node: int, s1: nat, s2: nat)
    requires
        chain_ends(prev, node, s1),
        chain_ends(prev, node, s2),
    ensures
        s1 == s2,
    decreases s1,
{
    if s1 > 0 && s2 > 0 {
        lemma_chain_len_unique(prev, prev[node] as int, (s1 - 1) as nat, (s2 - 1) as nat);
    }
}

/// Walk the predecessor chain of `target` (Dijkstra's `prev`, `-1` at a source)
/// and return the visited cells from the source to `target`.
pub fn reconstruct_path(prev: &[i64], target: usize, cols: usize) -> (path: Vec<(usize, usize)>)
    requires
        cols > 0,
        exists|s: nat| chain_ends(prev@, target as int, s),
    ensures
        path@ == chain_path(prev@, target as int, cols as nat),
{
    let ghost total = chain_len(prev@, target as int);
    let len = prev.len();
    proof {
        assert(chain_ends(prev@, target as int, total));
        assert(total > 0);
    }
    // Walk from the target back to the source.
    let mut walk: Vec<(usize, usize)> = Vec::new();
    let mut node: usize = target;
    let ghost mut k: nat = 0;
    loop
        invariant_except_break
            k < total,
            walk@.len() == k,
            node as int == chain_node(prev@, target as int, k),
            chain_ends(prev@, node as int, (total - k) as nat),
        invariant
            len == prev@.len(),
            cols > 0,
            total == chain_len(prev@, target as int),
            chain_ends(prev@, target as int, total),
            forall|j: int| 0 <= j < walk@.len() ==> #[trigger] walk@[j] == cell_of(chain_node(prev@, target as int, j as nat), cols as nat),
        ensures
            walk@.len() == total,
        decreases total - k,
    {
        walk.push((node / cols, node % cols));
        let p = prev[node];
        proof {
            lemma_chain_step(prev@, target as int, k);
            assert(chain_node(prev@, node as int, 1) == chain_node(prev@, prev@[node as int] as int, 0));
        }
        if p == -1 {
            proof {
                assert(chain_ends(prev@, prev@[node as int] as int, 0));
                assert(chain_ends(prev@, node as int, 1));
                lemma_chain_len_unique(prev@, node as int, (total - k) as nat, 1);
            }
            break;
        }
        proof {
            assert(total - k >= 2) by {
                if total - k == 1 {
                    assert(chain_ends(prev@, prev@[node as int] as int, 0));
                }
            }
            assert(chain_ends(prev@, p as int, (total - k - 1) as nat));
        }
        node = p as usize;
        proof {
            k = k + 1;
        }
    }
    // Reverse into source-to-target order.
    let mut path: Vec<(usize, usize)> = Vec::new();
    let mut i: usize = walk.len();
    while i > 0
        invariant
            i <= walk@.len(),
            walk@.len() == total,
            path@.len() == total - i,
            forall|j: int| 0 <= j < total - i ==> #[trigger] path@[j] == walk@[total - 1 - j],
        decreases i,
    {
        i = i - 1;
        path.push(walk[i]);
    }
    proof {
        assert(path@ =~= chain_path(prev@, target as int, cols as nat));
    }
    path
}

/// The reconstructed path ends at `target`, starts at a source (its
/// predecessor is `-1`), and each cell is the predecessor of the next one.
pub proof fn lemma_chain_path_links(prev: Seq<i64>, target: int, cols: nat, i: int)
    requires
        cols > 0,
        exists|s: nat| chain_ends(prev, target, s),
        0 <= i < chain_len(prev, target) - 1,
    ensures
        chain_path(prev, target, cols).len() == chain_len(prev, target),
        chain_path(prev, target, cols).last() == cell_of(target, cols),
        prev[chain_node(prev, target, (chain_len(prev, target) - 1) as nat)] == -1,
        chain_node(prev, target, (chain_len(prev, target) - 1 - i) as nat) == prev[chain_node(
            prev,
            target,
            (chain_len(prev, target) - 2 - i) as nat,
        )] as int,
{
    let n = chain_len(prev, target);
    assert(chain_ends(prev, target, n));
    lemma_chain_suffix(prev, target, (n - 1) as nat, n);
    let last = chain_node(prev, target, (n - 1) as nat);
    assert(chain_ends(prev, last, 1));
    assert(chain_ends(prev, prev[last] as int, 0));
    let k = (n - 2 - i) as nat;
    lemma_chain_step(prev, target, k);
    let x = chain_node(prev, target, k);
    assert(chain_node(prev, x, 1) == chain_node(prev, prev[x] as int, 0));
    assert(chain_path(prev, target, cols).last() == chain_path(prev, target, cols)[n - 1]);
}

} // verus!
