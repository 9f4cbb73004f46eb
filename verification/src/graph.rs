//! Levels of a directed graph.
//!
//! A graph on the nodes `0..n` is given as a square matrix: row `i` holds
//! `true` at `j` where there is an edge from `i` to `j`. The level of a node
//! is the length of the longest path that starts at it. Every node has a
//! level exactly when the graph has no cycle.

use vstd::prelude::*;

verus! {

/// Whether every row of the matrix is as long as the matrix.
pub open spec fn is_square(adj: Seq<Vec<bool>>) -> bool {
    forall|i: int| 0 <= i < adj.len() ==> (#[trigger] adj[i]).len() == adj.len()
}

/// Whether the graph has an edge from `i` to `j`.
pub open spec fn edge(adj: Seq<Vec<bool>>, i: int, j: int) -> bool {
    0 <= i < adj.len() && 0 <= j < adj[i].len() && j < adj.len() && adj[i]@[j]
}

/// Whether `level` gives every node its level: an edge leads to a lower
/// level, and a node above level 0 has an edge to the level just below.
pub open spec fn is_leveling(adj: Seq<Vec<bool>>, level: Seq<usize>) -> bool {
    &&& level.len() == adj.len()
    &&& forall|i: int, j: int| #[trigger] edge(adj, i, j) ==> level[j] < level[i]
    &&& forall|i: int|
        0 <= i < level.len() && #[trigger] level[i] > 0 ==> exists|j: int|
            #[trigger] edge(adj, i, j) && level[j] + 1 == level[i]
}

/// Whether the nodes of `cycle` form a cycle: each has an edge to the next,
/// and the last to the first.
pub open spec fn is_cycle(adj: Seq<Vec<bool>>, cycle: Seq<usize>) -> bool {
    &&& cycle.len() >= 1
    &&& forall|t: int|
        0 <= t < cycle.len() - 1 ==> edge(adj, #[trigger] cycle[t] as int, cycle[t + 1] as int)
    &&& edge(adj, cycle[cycle.len() - 1] as int, cycle[0] as int)
}

/// How many of the first `upto` flags are set.
pub open spec fn count_set(flags: Seq<bool>, upto: int) -> int
    decreases upto,
{
    if upto <= 0 {
        0
    } else {
        count_set(flags, upto - 1) + if flags[upto - 1] {
            1int
        } else {
            0int
        }
    }
}

proof fn lemma_count_bound(flags: Seq<bool>, upto: int)
    requires
        0 <= upto,
    ensures
        0 <= count_set(flags, upto) <= upto,
    decreases upto,
{
    if upto > 0 {
        lemma_count_bound(flags, upto - 1);
    }
}

proof fn lemma_count_update(flags: Seq<bool>, at: int, upto: int)
    requires
        0 <= at < flags.len(),
        0 <= upto <= flags.len(),
        !flags[at],
    ensures
        count_set(flags.update(at, true), upto) == count_set(flags, upto) + if at < upto {
            1int
        } else {
            0int
        },
    decreases upto,
{
    if upto > 0 {
        lemma_count_update(flags, at, upto - 1);
    }
}

/// A flag that is not set keeps the count below the length.
proof fn lemma_count_room(flags: Seq<bool>, at: int)
    requires
        0 <= at < flags.len(),
        !flags[at],
    ensures
        count_set(flags, flags.len() as int) < flags.len(),
{
    lemma_count_update(flags, at, flags.len() as int);
    lemma_count_bound(flags.update(at, true), flags.len() as int);
}

/// Whether node `i` has an edge only to nodes that were given a level in an
/// earlier round.
fn is_ready(
    adj: &Vec<Vec<bool>>,
    done: &Vec<bool>,
    level: &Vec<usize>,
    round: usize,
    i: usize,
) -> (r:
    bool)
    requires
        is_square(adj@),
        i < adj.len(),
        done.len() == adj.len(),
        level.len() == adj.len(),
    ensures
        r == forall|j: int| #[trigger] edge(adj@, i as int, j) ==> done@[j] && level@[j] < round,
{
    let n = adj.len();
    let mut j: usize = 0;
    while j < n
        invariant
            j <= n,
            n == adj.len(),
            i < n,
            is_square(adj@),
            done.len() == n,
            level.len() == n,
            forall|k: int| 0 <= k < j && #[trigger] edge(adj@, i as int, k) ==> done@[k] && level@[k]
                < round,
        decreases n - j,
    {
        if adj[i][j] && !(done[j] && level[j] < round) {
            assert(edge(adj@, i as int, j as int));
            return false;
        }
        j += 1;
    }
    true
}

/// A node without a level that node `i` has an edge to.
fn pending_target(adj: &Vec<Vec<bool>>, done: &Vec<bool>, i: usize) -> (r: usize)
    requires
        is_square(adj@),
        i < adj.len(),
        done.len() == adj.len(),
        exists|j: int| #[trigger] edge(adj@, i as int, j) && !done@[j],
    ensures
        edge(adj@, i as int, r as int),
        !done@[r as int],
{
    let n = adj.len();
    let mut j: usize = 0;
    while j < n
        invariant
            j <= n,
            n == adj.len(),
            i < n,
            is_square(adj@),
            done.len() == n,
            forall|k: int| 0 <= k < j ==> !(#[trigger] edge(adj@, i as int, k) && !done@[k]),
            exists|k: int| #[trigger] edge(adj@, i as int, k) && !done@[k],
        decreases n - j,
    {
        if adj[i][j] && !done[j] {
            return j;
        }
        j += 1;
    }
    proof {
        let k = choose|k: int| #[trigger] edge(adj@, i as int, k) && !done@[k];
        assert(0 <= k < n);
        assert(false);
    }
    0
}

/// Whether every node without a level has an edge to another such node.
pub open spec fn all_stuck(adj: Seq<Vec<bool>>, done: Seq<bool>) -> bool {
    forall|i: int|
        0 <= i < adj.len() && !#[trigger] done[i] ==> exists|j: int|
            #[trigger] edge(adj, i, j) && !done[j]
}

/// A cycle among nodes without a level, each of which has an edge to
/// another such node. The walk starts at `start` and follows such edges
/// until it comes back to a node that it has seen.
fn walk_to_cycle(adj: &Vec<Vec<bool>>, done: &Vec<bool>, start: usize) -> (cycle: Vec<usize>)
    requires
        is_square(adj@),
        done.len() == adj.len(),
        start < adj.len(),
        !done@[start as int],
        all_stuck(adj@, done@),
    ensures
        is_cycle(adj@, cycle@),
{
    let n = adj.len();
    let mut on_path: Vec<bool> = Vec::new();
    let mut place: Vec<usize> = Vec::new();
    let mut k: usize = 0;
    while k < n
        invariant
            k <= n,
            on_path.len() == k,
            place.len() == k,
            forall|i: int| 0 <= i < k ==> !on_path@[i],
            count_set(on_path@, k as int) == 0,
        decreases n - k,
    {
        let ghost before = on_path@;
        on_path.push(false);
        place.push(0);
        proof {
            lemma_count_zero(on_path@, k as int + 1);
        }
        k += 1;
    }
    let mut path: Vec<usize> = Vec::new();
    path.push(start);
    proof {
        lemma_count_update(on_path@, start as int, n as int);
    }
    on_path.set(start, true);
    place.set(start, 0);
    loop
        invariant
            n == adj.len(),
            is_square(adj@),
            done.len() == n,
            on_path.len() == n,
            place.len() == n,
            1 <= path.len() <= n,
            count_set(on_path@, n as int) == path.len(),
            forall|t: int|
                0 <= t < path.len() ==> (#[trigger] path@[t]) < n && !done@[path@[t] as int],
            forall|i: int|
                0 <= i < n && #[trigger] on_path@[i] ==> place@[i] < path.len() && path@[place@[i] as int]
                    == i,
            forall|t: int|
                0 <= t < path.len() - 1 ==> edge(adj@, #[trigger] path@[t] as int, path@[t + 1] as int),
            all_stuck(adj@, done@),
        decreases n - path.len(),
    {
        let last = path[path.len() - 1];
        let next = pending_target(adj, done, last);
        if on_path[next] {
            let from = place[next];
            let mut cycle: Vec<usize> = Vec::new();
            let mut t: usize = from;
            while t < path.len()
                invariant
                    from <= t <= path.len(),
                    cycle.len() == t - from,
                    forall|u: int| 0 <= u < cycle.len() ==> cycle@[u] == path@[from + u],
                decreases path.len() - t,
            {
                cycle.push(path[t]);
                t += 1;
            }
            assert(is_cycle(adj@, cycle@)) by {
                assert(cycle@[0] == next);
                assert(cycle@[cycle.len() - 1] == last);
                assert forall|u: int| 0 <= u < cycle.len() - 1 implies edge(
                    adj@,
                    #[trigger] cycle@[u] as int,
                    cycle@[u + 1] as int,
                ) by {
                    assert(edge(adj@, path@[from + u] as int, path@[from + u + 1] as int));
                }
            }
            return cycle;
        }
        proof {
            lemma_count_room(on_path@, next as int);
            lemma_count_update(on_path@, next as int, n as int);
        }
        let ghost len = path.len();
        place.set(next, path.len());
        on_path.set(next, true);
        path.push(next);
        assert forall|i: int| 0 <= i < n && #[trigger] on_path@[i] implies place@[i] < path.len()
            && path@[place@[i] as int] == i by {
            if i != next {
                assert(path@[place@[i] as int] == i);
            }
        }
        assert forall|t: int| 0 <= t < path.len() - 1 implies edge(
            adj@,
            #[trigger] path@[t] as int,
            path@[t + 1] as int,
        ) by {
            if t < len - 1 {
                assert(edge(adj@, path@[t] as int, path@[t + 1] as int));
            }
        }
    }
}

proof fn lemma_count_zero(flags: Seq<bool>, upto: int)
    requires
        0 <= upto <= flags.len(),
        forall|i: int| 0 <= i < upto ==> !flags[i],
    ensures
        count_set(flags, upto) == 0,
    decreases upto,
{
    if upto > 0 {
        lemma_count_zero(flags, upto - 1);
    }
}

/// Gives a level to every node that is ready in this round and has none
/// yet, and says how many nodes have a level afterwards.
fn run_round(
    adj: &Vec<Vec<bool>>,
    done: &mut Vec<bool>,
    level: &mut Vec<usize>,
    round: usize,
    num_done: usize,
) -> (r: usize)
    requires
        is_square(adj@),
        old(done).len() == adj.len(),
        old(level).len() == adj.len(),
        num_done == count_set(old(done)@, adj.len() as int),
        partial_leveling(adj@, old(done)@, old(level)@, round as int),
    ensures
        final(done).len() == adj.len(),
        final(level).len() == adj.len(),
        r == count_set(final(done)@, adj.len() as int),
        num_done <= r <= adj.len(),
        partial_leveling(adj@, final(done)@, final(level)@, round + 1),
        r == num_done ==> all_stuck(adj@, final(done)@),
{
    let n = adj.len();
    let mut count = num_done;
    let mut i: usize = 0;
    proof {
        reveal(partial_leveling);
        lemma_count_bound(done@, n as int);
    }
    while i < n
        invariant
            i <= n,
            n == adj.len(),
            is_square(adj@),
            done.len() == n,
            level.len() == n,
            old(done).len() == n,
            old(level).len() == n,
            num_done <= count <= n,
            count == count_set(done@, n as int),
            count == num_done ==> done@ == old(done)@,
            forall|x: int| 0 <= x < n && old(done)@[x] ==> done@[x] && level@[x] == old(level)@[x],
            forall|x: int|
                0 <= x < n && #[trigger] done@[x] && !old(done)@[x] ==> level@[x] == round && x < i,
            partial_leveling(adj@, old(done)@, old(level)@, round as int),
            forall|x: int, y: int|
                0 <= x < n && done@[x] && #[trigger] edge(adj@, x, y) ==> done@[y] && level@[y]
                    < level@[x],
            forall|x: int|
                0 <= x < n && done@[x] && #[trigger] level@[x] > 0 ==> exists|y: int|
                    #[trigger] edge(adj@, x, y) && done@[y] && level@[y] + 1 == level@[x],
            forall|x: int|
                0 <= x < i && !#[trigger] done@[x] ==> exists|y: int|
                    #[trigger] edge(adj@, x, y) && !old(done)@[y],
        decreases n - i,
    {
        proof {
            reveal(partial_leveling);
        }
        if !done[i] {
            if is_ready(adj, done, level, round, i) {
                proof {
                    lemma_count_room(done@, i as int);
                    lemma_count_update(done@, i as int, n as int);
                    assert forall|y: int| #[trigger] edge(adj@, i as int, y) implies old(done)@[y]
                        && old(level)@[y] < round by {
                        assert(done@[y] && level@[y] < round);
                    }
                    if round > 0 {
                        let y = choose|y: int|
                            #[trigger] edge(adj@, i as int, y) && (!old(done)@[y] || old(level)@[y]
                                + 1 == round);
                        assert(old(done)@[y]);
                    }
                }
                let ghost done_before = done@;
                let ghost level_before = level@;
                done.set(i, true);
                level.set(i, round);
                count += 1;
                proof {
                    assert forall|x: int|
                        0 <= x < n && done@[x] && #[trigger] level@[x] > 0 implies exists|y: int|
                        #[trigger] edge(adj@, x, y) && done@[y] && level@[y] + 1 == level@[x] by {
                        if x == i {
                            let y = choose|y: int|
                                #[trigger] edge(adj@, i as int, y) && (!old(done)@[y] || old(
                                    level,
                                )@[y] + 1 == round);
                            assert(edge(adj@, x, y) && done@[y] && level@[y] + 1 == level@[x]);
                        } else {
                            let y = choose|y: int|
                                #[trigger] edge(adj@, x, y) && done_before[y] && level_before[y] + 1
                                    == level_before[x];
                            assert(edge(adj@, x, y) && done@[y] && level@[y] + 1 == level@[x]);
                        }
                    }
                }
            } else {
                proof {
                    let y = choose|y: int|
                        #[trigger] edge(adj@, i as int, y) && !(done@[y] && level@[y] < round);
                    assert(!old(done)@[y]);
                }
            }
        }
        i += 1;
    }
    proof {
        reveal(partial_leveling);
        assert forall|x: int| 0 <= x < n && !#[trigger] done@[x] implies exists|y: int|
            #[trigger] edge(adj@, x, y) && (!done@[y] || level@[y] + 1 == round + 1) by {
            let y = choose|y: int| #[trigger] edge(adj@, x, y) && !old(done)@[y];
            assert(edge(adj@, x, y) && (!done@[y] || level@[y] + 1 == round + 1));
        }
        if count == num_done {
            assert forall|x: int| 0 <= x < n && !#[trigger] done@[x] implies exists|y: int|
                #[trigger] edge(adj@, x, y) && !done@[y] by {
                let y = choose|y: int| #[trigger] edge(adj@, x, y) && !old(done)@[y];
                assert(edge(adj@, x, y) && !done@[y]);
            }
        }
    }
    count
}

/// What holds of the levels given before round `round`: they are below
/// `round`; a node with a level has edges only to lower levels and, above
/// level 0, one to the level just below; and after the first round a node
/// without a level has an edge to a node without one or to one of the last
/// round.
#[verifier::opaque]
pub open spec fn partial_leveling(
    adj: Seq<Vec<bool>>,
    done: Seq<bool>,
    level: Seq<usize>,
    round: int,
) -> bool {
    &&& forall|x: int| 0 <= x < adj.len() && #[trigger] done[x] ==> level[x] < round
    &&& forall|x: int, y: int|
        0 <= x < adj.len() && done[x] && #[trigger] edge(adj, x, y) ==> done[y] && level[y]
            < level[x]
    &&& forall|x: int|
        0 <= x < adj.len() && done[x] && #[trigger] level[x] > 0 ==> exists|y: int|
            #[trigger] edge(adj, x, y) && done[y] && level[y] + 1 == level[x]
    &&& round > 0 ==> forall|x: int|
        0 <= x < adj.len() && !#[trigger] done[x] ==> exists|y: int|
            #[trigger] edge(adj, x, y) && (!done[y] || level[y] + 1 == round)
}

/// The first node without a level.
fn first_pending(done: &Vec<bool>) -> (r: usize)
    requires
        count_set(done@, done.len() as int) < done.len(),
    ensures
        r < done.len(),
        !done@[r as int],
{
    let mut i: usize = 0;
    while i < done.len()
        invariant
            i <= done.len(),
            count_set(done@, i as int) == i,
            count_set(done@, done.len() as int) < done.len(),
        decreases done.len() - i,
    {
        if !done[i] {
            return i;
        }
        i += 1;
    }
    0
}

/// The levels of the nodes of a graph, or a cycle of it.
///
/// The graph has a cycle exactly when the result is one: levels as
/// [`is_leveling`] asks exist of no graph with a cycle.
pub fn level_nodes(adj: &Vec<Vec<bool>>) -> (r: Result<Vec<usize>, Vec<usize>>)
    requires
        is_square(adj@),
    ensures
        match r {
            Ok(level) => is_leveling(adj@, level@) && forall|i: int|
                0 <= i < level.len() ==> (#[trigger] level@[i]) < adj.len(),
            Err(cycle) => is_cycle(adj@, cycle@),
        },
{
    let n = adj.len();
    let mut done: Vec<bool> = Vec::new();
    let mut level: Vec<usize> = Vec::new();
    let mut k: usize = 0;
    while k < n
        invariant
            k <= n,
            done.len() == k,
            level.len() == k,
            forall|i: int| 0 <= i < k ==> !done@[i],
        decreases n - k,
    {
        done.push(false);
        level.push(0);
        k += 1;
    }
    proof {
        reveal(partial_leveling);
        lemma_count_zero(done@, n as int);
    }
    let mut num_done: usize = 0;
    let mut round: usize = 0;
    while num_done < n
        invariant
            n == adj.len(),
            is_square(adj@),
            done.len() == n,
            level.len() == n,
            round <= num_done <= n,
            num_done == count_set(done@, n as int),
            partial_leveling(adj@, done@, level@, round as int),
        decreases n - num_done,
    {
        let after = run_round(adj, &mut done, &mut level, round, num_done);
        if after == num_done {
            let start = first_pending(&done);
            return Err(walk_to_cycle(adj, &done, start));
        }
        num_done = after;
        round += 1;
    }
    proof {
        reveal(partial_leveling);
        assert forall|i: int| 0 <= i < n implies #[trigger] done@[i] by {
            if !done@[i] {
                lemma_count_room(done@, i);
            }
        }
        assert forall|i: int, j: int| #[trigger] edge(adj@, i, j) implies level@[j] < level@[i] by {
            assert(done@[i]);
        }
        assert forall|i: int| 0 <= i < level.len() && #[trigger] level@[i] > 0 implies exists|j: int|
            #[trigger] edge(adj@, i, j) && level@[j] + 1 == level@[i] by {
            assert(done@[i]);
            let j = choose|j: int| #[trigger] edge(adj@, i, j) && done@[j] && level@[j] + 1 == level@[i];
            assert(edge(adj@, i, j) && level@[j] + 1 == level@[i]);
        }
    }
    Ok(level)
}

/// No graph with a cycle has levels.
pub proof fn lemma_levels_exclude_cycles(adj: Seq<Vec<bool>>, level: Seq<usize>, cycle: Seq<usize>)
    requires
        is_leveling(adj, level),
    ensures
        !is_cycle(adj, cycle),
{
    if is_cycle(adj, cycle) {
        lemma_cycle_descends(adj, level, cycle, cycle.len() - 1);
        assert(edge(adj, cycle[cycle.len() - 1] as int, cycle[0] as int));
    }
}

/// Along a cycle the levels fall step by step.
proof fn lemma_cycle_descends(adj: Seq<Vec<bool>>, level: Seq<usize>, cycle: Seq<usize>, t: int)
    requires
        is_leveling(adj, level),
        is_cycle(adj, cycle),
        0 <= t < cycle.len(),
    ensures
        level[cycle[t] as int] + t <= level[cycle[0] as int],
    decreases t,
{
    if t > 0 {
        lemma_cycle_descends(adj, level, cycle, t - 1);
        assert(edge(adj, cycle[t - 1] as int, cycle[t - 1 + 1] as int));
    }
}

/// Two nodes with the same edges have the same level.
pub proof fn lemma_same_edges_same_level(adj: Seq<Vec<bool>>, level: Seq<usize>, a: int, b: int)
    requires
        is_leveling(adj, level),
        0 <= a < adj.len(),
        0 <= b < adj.len(),
        forall|j: int| edge(adj, a, j) == edge(adj, b, j),
    ensures
        level[a] == level[b],
{
    if level[a] > 0 {
        let j = choose|j: int| #[trigger] edge(adj, a, j) && level[j] + 1 == level[a];
        assert(edge(adj, b, j));
    }
    if level[b] > 0 {
        let j = choose|j: int| #[trigger] edge(adj, b, j) && level[j] + 1 == level[b];
        assert(edge(adj, a, j));
    }
}

} // verus!
