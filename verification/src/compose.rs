use vstd::prelude::*;
use vstd::multiset::Multiset;
use vstd::arithmetic::power2::{
    pow2,
    lemma_pow2_pos,
    lemma_pow2_unfold,
    lemma_pow2_strictly_increases,
    lemma2_to64,
};
use vstd::arithmetic::div_mod::{
    lemma_basic_div,
    lemma_div_plus_one,
    lemma_div_denominator,
    lemma_div_is_ordered,
    lemma_div_by_multiple,
};
use vstd::bits::{lemma_u32_shl_is_mul, lemma_u32_shr_is_div, lemma_u32_pow2_no_overflow};

use crate::task::{ComposeTask, RecursionCpuTask, Task};

verus! {

// ---------------------------------------------------------------------------
// The recursion tree
//
// The leaves (height 0) are the shards. Each level pairs up the nodes of the
// level below; an unpaired last node is carried up on its own. Level `h`
// therefore holds `ceil(total_shards / 2^h)` nodes.
// ---------------------------------------------------------------------------

/// Number of nodes at `height` in the recursion tree over `total_shards`
/// leaves: `ceil(total_shards / 2^height)`.
pub open spec fn level_nodes(total_shards: nat, height: nat) -> nat {
    ((total_shards + pow2(height) - 1) as nat) / pow2(height)
}

/// `ceil(log2(n))`, with `ceil_log2(0) == ceil_log2(1) == 0`.
pub open spec fn ceil_log2(n: nat) -> nat
    decreases n,
{
    if n <= 1 {
        0
    } else {
        1 + ceil_log2(((n + 1) / 2) as nat)
    }
}

/// Number of levels of the recursion tree over `total_shards` leaves.
pub open spec fn total_levels(total_shards: nat) -> nat {
    ceil_log2(total_shards) + 1
}

/// Law: `level_nodes` is the least number of groups of `2^height` leaves
/// that covers all leaves: that many groups hold every leaf, one fewer
/// groups do not.
pub proof fn law_level_nodes_covers(total_shards: nat, height: nat)
    ensures
        level_nodes(total_shards, height) * pow2(height) >= total_shards,
        total_shards > 0 ==> (level_nodes(total_shards, height) - 1) * pow2(height) < total_shards,
        total_shards == 0 ==> level_nodes(total_shards, height) == 0,
{
    let n = total_shards as int;
    let a = pow2(height) as int;
    lemma_pow2_pos(height);
    let x = n + a - 1;
    let q = x / a;
    vstd::arithmetic::div_mod::lemma_fundamental_div_mod(x, a);
    assert(q * a <= x < q * a + a) by (nonlinear_arith)
        requires
            x == a * q + x % a,
            0 <= x % a < a,
    ;
    assert((q - 1) * a == q * a - a) by (nonlinear_arith);
    assert(level_nodes(total_shards, height) == q);
    if n == 0 {
        lemma_basic_div(a - 1, a);
    }
}

/// `ceil_log2(n)` is the least `k` with `2^k >= n`.
pub proof fn lemma_ceil_log2_bounds(n: nat)
    ensures
        pow2(ceil_log2(n)) >= n,
        ceil_log2(n) == 0 || pow2((ceil_log2(n) - 1) as nat) < n,
    decreases n,
{
    if n <= 1 {
        assert(pow2(0) == 1) by {
            lemma2_to64();
        }
    } else {
        let m = ((n + 1) / 2) as nat;
        lemma_ceil_log2_bounds(m);
        let c = ceil_log2(m);
        lemma_pow2_unfold(c + 1);
        if c == 0 {
            assert(pow2(0) == 1) by {
                lemma2_to64();
            }
        } else {
            lemma_pow2_unfold(c);
        }
    }
}

/// Any `k` with `2^k >= n` and `k == 0 || 2^(k-1) < n` is `ceil_log2(n)`.
pub proof fn lemma_ceil_log2_unique(n: nat, k: nat)
    requires
        pow2(k) >= n,
        k == 0 || pow2((k - 1) as nat) < n,
    ensures
        k == ceil_log2(n),
{
    lemma_ceil_log2_bounds(n);
    let c = ceil_log2(n);
    if k < c {
        if k < (c - 1) as nat {
            lemma_pow2_strictly_increases(k, (c - 1) as nat);
        }
    } else if k > c {
        if c < (k - 1) as nat {
            lemma_pow2_strictly_increases(c, (k - 1) as nat);
        }
    }
}

/// Going one level up halves the node count, rounding up.
pub proof fn lemma_level_nodes_step(total_shards: nat, height: nat)
    ensures
        level_nodes(total_shards, height + 1) == (level_nodes(total_shards, height) + 1) / 2,
{
    let n = total_shards as int;
    let a = pow2(height) as int;
    lemma_pow2_pos(height);
    lemma_pow2_unfold(height + 1);
    assert(pow2(height + 1) == 2 * a);
    if n == 0 {
        lemma_basic_div(a - 1, a);
        lemma_basic_div(2 * a - 1, 2 * a);
    } else {
        let x = n - 1;
        lemma_div_plus_one(x, a);
        lemma_div_plus_one(x, 2 * a);
        assert((a + x) == n + a - 1);
        assert((2 * a + x) == n + 2 * a - 1);
        lemma_div_denominator(x, a, 2);
        assert(a * 2 == 2 * a);
        assert(((x / a + 1) + 1) / 2 == (x / a) / 2 + 1);
    }
}

/// A level holds at least two nodes exactly when `2^height < total_shards`.
pub proof fn lemma_level_nodes_at_least_two(total_shards: nat, height: nat)
    ensures
        level_nodes(total_shards, height) >= 2 <==> pow2(height) < total_shards,
        total_shards >= 1 ==> level_nodes(total_shards, height) >= 1,
{
    let n = total_shards as int;
    let a = pow2(height) as int;
    lemma_pow2_pos(height);
    lemma_div_by_multiple(2, a);
    lemma_div_by_multiple(1, a);
    if a < n {
        lemma_div_is_ordered(2 * a, n + a - 1, a);
    } else {
        lemma_div_plus_one(a - 1, a);
        lemma_basic_div(a - 1, a);
        lemma_div_is_ordered(n + a - 1, a + (a - 1), a);
    }
    if n >= 1 {
        lemma_div_is_ordered(a, n + a - 1, a);
    }
}

/// A tree over fewer than `2^32` leaves has a single node at height 32 and above.
proof fn lemma_level_nodes_height_bound(total_shards: u32, height: nat)
    requires
        level_nodes(total_shards as nat, height) >= 2,
    ensures
        height < 32,
{
    lemma_level_nodes_at_least_two(total_shards as nat, height);
    lemma2_to64();
    if height > 32 {
        lemma_pow2_strictly_increases(32, height);
    }
}

/// Law: the root of the recursion tree sits at height `total_levels - 1`: that
/// level holds a single node, and every level below it holds at least two.
pub proof fn law_root_height(total_shards: nat)
    requires
        total_shards >= 1,
    ensures
        level_nodes(total_shards, (total_levels(total_shards) - 1) as nat) == 1,
        forall|h: nat|
            h + 1 < total_levels(total_shards) ==> #[trigger] level_nodes(total_shards, h) >= 2,
{
    let c = ceil_log2(total_shards);
    lemma_ceil_log2_bounds(total_shards);
    lemma_level_nodes_at_least_two(total_shards, c);
    assert forall|h: nat| h + 1 < total_levels(total_shards) implies #[trigger] level_nodes(
        total_shards,
        h,
    ) >= 2 by {
        lemma_level_nodes_at_least_two(total_shards, h);
        if h < (c - 1) as nat {
            lemma_pow2_strictly_increases(h, (c - 1) as nat);
        }
    }
}

/// Calculates the total number of levels in the recursion tree for a given
/// number of shards: `ceil(log2(total_shards)) + 1`, and 1 when there are no
/// shards.
pub fn calculate_total_levels(total_shards: u32) -> (levels: u32)
    ensures
        levels == total_levels(total_shards as nat),
        pow2((levels - 1) as nat) >= total_shards,
        levels == 1 || pow2((levels - 2) as nat) < total_shards,
{
    let mut power: u64 = 1;
    let mut k: u32 = 0;
    proof {
        lemma2_to64();
    }
    while power < total_shards as u64
        invariant
            power == pow2(k as nat),
            k <= 32,
            k == 0 || pow2((k - 1) as nat) < total_shards,
            pow2(32) == 0x1_0000_0000,
        decreases 32 - k,
    {
        proof {
            lemma_pow2_unfold((k + 1) as nat);
            if k > 32 {
                lemma_pow2_strictly_increases(32, k as nat);
            }
        }
        power = power * 2;
        k = k + 1;
    }
    proof {
        lemma_ceil_log2_unique(total_shards as nat, k as nat);
    }
    k + 1
}

/// Check if the compose task is complete, i.e. it sits at the root of the
/// recursion tree.
pub fn is_complete(task: &ComposeTask, total_shards: u32) -> (complete: bool)
    ensures
        complete == (total_levels(total_shards as nat) == task.height + 1),
{
    calculate_total_levels(total_shards) as u64 == task.height as u64 + 1
}

/// Index of the sibling of the node at `index`.
pub open spec fn paired_index(index: u32) -> u32 {
    if index % 2 == 0 {
        (index + 1) as u32
    } else {
        (index - 1) as u32
    }
}

/// The compose task paired with `task` at the same height.
pub open spec fn paired_task(task: ComposeTask) -> ComposeTask {
    ComposeTask { root_id: task.root_id, height: task.height, index: paired_index(task.index) }
}

/// The recursion task that merges `task` with its sibling, one level up.
pub open spec fn next_level_task(task: ComposeTask, total_shards: Option<u32>) -> Task {
    Task::RecursionCpu(
        RecursionCpuTask {
            root_id: task.root_id,
            height: (task.height + 1) as u32,
            index: task.index / 2,
            total_shards,
        },
    )
}

/// Get the paired compose task for the given task.
pub fn get_paired_compose_task(task: &ComposeTask) -> (paired: ComposeTask)
    ensures
        paired == paired_task(*task),
        paired.root_id == task.root_id,
        paired.height == task.height,
        paired.index != task.index,
        paired.index / 2 == task.index / 2,
{
    if task.index % 2 == 0 {
        ComposeTask { root_id: task.root_id.clone(), height: task.height, index: task.index + 1 }
    } else {
        ComposeTask { root_id: task.root_id.clone(), height: task.height, index: task.index - 1 }
    }
}

/// Get the next level recursion task for the given task.
pub fn get_next_level_recursion_task(task: &ComposeTask, total_shards: Option<u32>) -> (next: Task)
    requires
        task.height < u32::MAX,
    ensures
        next == next_level_task(*task, total_shards),
        next matches Task::RecursionCpu(parent) && {
            &&& parent.root_id == task.root_id
            &&& parent.height == task.height + 1
            &&& 2 * parent.index <= task.index <= 2 * parent.index + 1
            &&& parent.total_shards == total_shards
        },
{
    Task::RecursionCpu(
        RecursionCpuTask {
            root_id: task.root_id.clone(),
            height: task.height + 1,
            index: task.index / 2,
            total_shards,
        },
    )
}

/// Law: pairing is an involution without fixed points.
pub proof fn law_pairing_involution(task: ComposeTask)
    ensures
        paired_task(paired_task(task)) == task,
        paired_task(task).index != task.index,
{
}

/// Law: the paired task is the other child of the same parent: same root and
/// height, a different index, and both indices halve to the same parent
/// index (`2 * p` and `2 * p + 1`).
pub proof fn law_pair_is_sibling(task: ComposeTask)
    ensures
        paired_task(task).root_id == task.root_id,
        paired_task(task).height == task.height,
        paired_task(task).index != task.index,
        paired_task(task).index / 2 == task.index / 2,
        paired_task(task).index % 2 != task.index % 2,
{
}

/// Law: the next-level task sits at the parent position: one level up, at
/// index `p` with `2 * p <= index <= 2 * p + 1`, for the same root, carrying
/// the given shard count.
pub proof fn law_next_level_is_parent(task: ComposeTask, total_shards: Option<u32>)
    requires
        task.height < u32::MAX,
    ensures
        next_level_task(task, total_shards) matches Task::RecursionCpu(next) && {
            &&& next.root_id == task.root_id
            &&& next.height == task.height + 1
            &&& 2 * next.index <= task.index <= 2 * next.index + 1
            &&& next.total_shards == total_shards
        },
{
}

/// Law: a task and its paired task feed the same next-level recursion task.
pub proof fn law_pair_shares_next_level(task: ComposeTask, total_shards: Option<u32>)
    ensures
        next_level_task(paired_task(task), total_shards) == next_level_task(task, total_shards),
{
}

/// The node at `index` is the last node of its level, has no sibling, and is
/// not the only node of the level (the root has no equivalent position).
pub open spec fn is_unpaired_last(total_shards: nat, height: nat, index: int) -> bool {
    &&& index + 1 == level_nodes(total_shards, height)
    &&& level_nodes(total_shards, height) % 2 == 1
    &&& level_nodes(total_shards, height) > 1
}

/// Position (`eq_height`, `eq_index`) is where the last node of level
/// `height` gets paired: the first level above with an even number of
/// nodes, at its last index.
pub open spec fn is_equivalent_position(
    total_shards: nat,
    height: nat,
    eq_height: nat,
    eq_index: int,
) -> bool {
    &&& height < eq_height
    &&& level_nodes(total_shards, eq_height) % 2 == 0
    &&& eq_index + 1 == level_nodes(total_shards, eq_height)
    &&& forall|h: nat|
        height <= h < eq_height ==> #[trigger] level_nodes(total_shards, h) % 2 == 1
}

/// Get the equivalent compose task for the given task: when the task is the
/// unpaired last node of its level, it is carried up until the first level
/// with an even number of nodes, where it is the last node. `None` when the
/// task has a sibling at its own level, or is the only node of its level.
pub fn get_equivalent_compose_task(task: &ComposeTask, total_shards: u32) -> (equivalent:
    Option<ComposeTask>)
    requires
        task.height < 32,
        total_shards + pow2(task.height as nat) <= u32::MAX,
        task.index < u32::MAX,
    ensures
        equivalent is Some <==> is_unpaired_last(
            total_shards as nat,
            task.height as nat,
            task.index as int,
        ),
        equivalent matches Some(eq) ==> {
            &&& eq.root_id == task.root_id
            &&& is_equivalent_position(
                total_shards as nat,
                task.height as nat,
                eq.height as nat,
                eq.index as int,
            )
        },
{
    let ghost n = total_shards as nat;
    let mut current_height = task.height;
    proof {
        lemma_u32_pow2_no_overflow(current_height as nat);
        lemma_u32_shl_is_mul(1, current_height);
        lemma_pow2_pos(current_height as nat);
    }
    let shifted: u32 = 1u32 << current_height;
    let sum: u32 = total_shards + shifted - 1;
    proof {
        lemma_u32_shr_is_div(sum, current_height);
    }
    let mut current_level_nodes: u32 = sum >> current_height;
    assert(current_level_nodes == level_nodes(n, current_height as nat));
    if task.index + 1 == current_level_nodes && current_level_nodes % 2 == 1
        && current_level_nodes > 1 {
        while current_level_nodes % 2 == 1
            invariant
                current_level_nodes == level_nodes(n, current_height as nat),
                current_level_nodes >= 2,
                n == total_shards,
                task.height <= current_height,
                forall|h: nat|
                    task.height <= h < current_height ==> #[trigger] level_nodes(n, h) % 2 == 1,
            decreases current_level_nodes,
        {
            proof {
                lemma_level_nodes_step(n, current_height as nat);
                lemma_level_nodes_height_bound(total_shards, current_height as nat);
            }
            current_level_nodes = current_level_nodes / 2 + 1;
            current_height += 1;
        }
        Some(
            ComposeTask {
                root_id: task.root_id.clone(),
                height: current_height,
                index: current_level_nodes - 1,
            },
        )
    } else {
        None
    }
}

/// Levels never grow going up the tree.
pub proof fn lemma_level_nodes_non_increasing(total_shards: nat, low: nat, high: nat)
    requires
        low <= high,
    ensures
        level_nodes(total_shards, high) <= level_nodes(total_shards, low),
    decreases high - low,
{
    if low < high {
        lemma_level_nodes_non_increasing(total_shards, low, (high - 1) as nat);
        lemma_level_nodes_step(total_shards, (high - 1) as nat);
    }
}

/// Law: a level has at most one equivalent position.
pub proof fn law_equivalent_position_unique(
    total_shards: nat,
    height: nat,
    a_height: nat,
    a_index: int,
    b_height: nat,
    b_index: int,
)
    requires
        is_equivalent_position(total_shards, height, a_height, a_index),
        is_equivalent_position(total_shards, height, b_height, b_index),
    ensures
        a_height == b_height,
        a_index == b_index,
{
    if a_height < b_height {
        assert(level_nodes(total_shards, a_height) % 2 == 1);
    } else if b_height < a_height {
        assert(level_nodes(total_shards, b_height) % 2 == 1);
    }
}

/// Law: asking again along the way gives the same answer. For every level
/// strictly between an unpaired last node and its equivalent position, the
/// last node of that level is unpaired too and has the same equivalent
/// position; the equivalent position itself has a sibling, so asking about
/// it gives nothing.
pub proof fn law_equivalent_agrees_along_path(
    total_shards: nat,
    height: nat,
    eq_height: nat,
    eq_index: int,
)
    requires
        is_equivalent_position(total_shards, height, eq_height, eq_index),
    ensures
        forall|h: nat|
            height < h < eq_height ==> {
                &&& #[trigger] is_unpaired_last(
                    total_shards,
                    h,
                    level_nodes(total_shards, h) - 1,
                )
                &&& is_equivalent_position(total_shards, h, eq_height, eq_index)
            },
        !is_unpaired_last(total_shards, eq_height, eq_index),
{
    assert forall|h: nat| height < h < eq_height implies {
        &&& #[trigger] is_unpaired_last(total_shards, h, level_nodes(total_shards, h) - 1)
        &&& is_equivalent_position(total_shards, h, eq_height, eq_index)
    } by {
        lemma_level_nodes_non_increasing(total_shards, h, eq_height);
        lemma_level_nodes_at_least_two(total_shards, eq_height);
        assert(level_nodes(total_shards, h) % 2 == 1);
        if total_shards == 0 {
            lemma_pow2_pos(h);
            lemma_basic_div(pow2(h) - 1, pow2(h) as int);
        }
        assert(level_nodes(total_shards, h) > 1);
        assert(is_unpaired_last(total_shards, h, level_nodes(total_shards, h) - 1));
        assert(is_equivalent_position(total_shards, h, eq_height, eq_index));
    }
}

/// Law: an equivalent task is never the complete one: a level with an even,
/// non-zero number of nodes lies strictly below the root.
pub proof fn law_even_level_below_root(total_shards: nat, height: nat)
    requires
        level_nodes(total_shards, height) % 2 == 0,
        level_nodes(total_shards, height) > 0,
    ensures
        height + 1 < total_levels(total_shards),
{
    lemma_level_nodes_at_least_two(total_shards, height);
    lemma_ceil_log2_bounds(total_shards);
    let c = ceil_log2(total_shards);
    if height >= c {
        if height > c {
            lemma_pow2_strictly_increases(c, height);
        }
    }
}


/// Law: in processing order heights never increase, and within a height
/// indices never decrease.
pub proof fn law_processing_order(tasks: Seq<ComposeTask>)
    requires
        is_processing_order(tasks),
    ensures
        forall|i: int, j: int|
            0 <= i < j < tasks.len() ==> {
                &&& #[trigger] tasks[i].height >= #[trigger] tasks[j].height
                &&& tasks[i].height == tasks[j].height ==> tasks[i].index <= tasks[j].index
            },
{
    assert forall|i: int, j: int| 0 <= i < j < tasks.len() implies {
        &&& #[trigger] tasks[i].height >= #[trigger] tasks[j].height
        &&& tasks[i].height == tasks[j].height ==> tasks[i].index <= tasks[j].index
    } by {
        assert(comes_before(tasks[i], tasks[j]));
    }
}

/// `a` may precede `b` in processing order: higher height first, and within a
/// height, lower index first.
pub open spec fn comes_before(a: ComposeTask, b: ComposeTask) -> bool {
    a.height > b.height || (a.height == b.height && a.index <= b.index)
}

/// The tasks are in processing order.
pub open spec fn is_processing_order(tasks: Seq<ComposeTask>) -> bool {
    forall|i: int, j: int| 0 <= i < j < tasks.len() ==> comes_before(#[trigger] tasks[i], #[trigger] tasks[j])
}

fn task_comes_before(a: &ComposeTask, b: &ComposeTask) -> (before: bool)
    ensures
        before == comes_before(*a, *b),
{
    a.height > b.height || (a.height == b.height && a.index <= b.index)
}

/// Orders compose tasks based on their position in the recursion tree:
/// higher height first and, at equal heights, lower index first. The result
/// holds the same tasks; the relative order of tasks with equal height and
/// index is unspecified.
pub fn order_compose_tasks(tasks: Vec<ComposeTask>) -> (ordered: Vec<ComposeTask>)
    ensures
        ordered@.to_multiset() == tasks@.to_multiset(),
        is_processing_order(ordered@),
        forall|i: int, j: int|
            0 <= i < j < ordered@.len() ==> {
                &&& #[trigger] ordered@[i].height >= #[trigger] ordered@[j].height
                &&& ordered@[i].height == ordered@[j].height ==> ordered@[i].index
                    <= ordered@[j].index
            },
{
    broadcast use vstd::seq_lib::group_to_multiset_ensures;

    let ghost original = tasks@;
    let mut remaining = tasks;
    let mut ordered: Vec<ComposeTask> = Vec::new();
    while remaining.len() > 0
        invariant
            ordered@.to_multiset().add(remaining@.to_multiset()) == original.to_multiset(),
            is_processing_order(ordered@),
            forall|i: int, j: int|
                0 <= i < ordered@.len() && 0 <= j < remaining@.len() ==> comes_before(
                    #[trigger] ordered@[i],
                    #[trigger] remaining@[j],
                ),
        decreases remaining.len(),
    {
        let mut best: usize = 0;
        let mut j: usize = 1;
        while j < remaining.len()
            invariant
                0 <= best < j <= remaining.len(),
                forall|k: int| 0 <= k < j ==> comes_before(remaining@[best as int], #[trigger] remaining@[k]),
            decreases remaining.len() - j,
        {
            if !task_comes_before(&remaining[best], &remaining[j]) {
                best = j;
            }
            j = j + 1;
        }
        let ghost before_remove = remaining@;
        let next = remaining.remove(best);
        proof {
            vstd::seq_lib::to_multiset_remove(before_remove, best as int);
            assert(before_remove.remove(best as int) == remaining@);
            assert(before_remove.to_multiset().remove(next) == remaining@.to_multiset());
            before_remove.to_multiset_ensures();
            assert(before_remove.to_multiset().contains(next)) by {
                assert(before_remove.contains(next)) by {
                    assert(before_remove[best as int] == next);
                }
            }
            assert forall|k: int| 0 <= k < remaining@.len() implies comes_before(next, #[trigger] remaining@[k]) by {
                if k < best {
                    assert(remaining@[k] == before_remove[k]);
                } else {
                    assert(remaining@[k] == before_remove[k + 1]);
                }
            }
        }
        let ghost before_push = ordered@;
        ordered.push(next);
        proof {
            vstd::seq_lib::to_multiset_build(before_push, next);
            assert(ordered@.to_multiset() == before_push.to_multiset().insert(next));
            assert(ordered@.to_multiset().add(remaining@.to_multiset()) =~= before_push.to_multiset().add(before_remove.to_multiset()));
            assert forall|i: int, k: int| 0 <= i < k < ordered@.len() implies comes_before(#[trigger] ordered@[i], #[trigger] ordered@[k]) by {
                if k == ordered@.len() - 1 {
                    assert(before_remove[best as int] == next);
                }
            }
            assert forall|i: int, k: int| 0 <= i < ordered@.len() && 0 <= k < remaining@.len() implies comes_before(#[trigger] ordered@[i], #[trigger] remaining@[k]) by {
                if k < best {
                    assert(remaining@[k] == before_remove[k]);
                } else {
                    assert(remaining@[k] == before_remove[k + 1]);
                }
            }
        }
    }
    proof {
        law_processing_order(ordered@);
    }
    assert(remaining@.to_multiset() =~= Multiset::empty());
    assert(ordered@.to_multiset().add(Multiset::empty()) =~= ordered@.to_multiset());
    ordered
}

} // verus!
