use vstd::prelude::*;

verus! {

/// How many processes a snapshot reports.
pub const TOP_PROCESS_COUNT: usize = 10;

/// Process `i` comes before process `j`: it has the larger usage key, or the
/// keys are equal and `i` was enumerated first.
pub open spec fn ranks_before(keys: Seq<u32>, i: int, j: int) -> bool {
    keys[i] > keys[j] || (keys[i] == keys[j] && i < j)
}

/// Index `j` may come next after what `order` already lists.
pub open spec fn follows(keys: Seq<u32>, order: Seq<usize>, j: int) -> bool {
    order.len() == 0 || ranks_before(keys, order.last() as int, j)
}

/// `order` lists valid indices into `keys`, each strictly ahead of the next.
pub open spec fn is_ranked(keys: Seq<u32>, order: Seq<usize>) -> bool {
    &&& forall|k: int| 0 <= k < order.len() ==> (#[trigger] order[k]) < keys.len()
    &&& forall|a: int, b: int|
        0 <= a < b < order.len() ==> ranks_before(keys, #[trigger] order[a] as int, #[trigger] order[b] as int)
}

/// Every index that ranks ahead of a listed one is listed too.
pub open spec fn is_leading(keys: Seq<u32>, order: Seq<usize>) -> bool {
    forall|j: int, k: int|
        0 <= j < keys.len() && 0 <= k < order.len() && #[trigger] ranks_before(keys, j, order[k] as int)
            ==> order.contains(j as usize)
}

/// `order` is the first `limit` entries (or all of them, if fewer) of the
/// indices of `keys` sorted by key, largest first, ties in index order.
pub open spec fn is_top(keys: Seq<u32>, order: Seq<usize>, limit: nat) -> bool {
    &&& is_ranked(keys, order)
    &&& is_leading(keys, order)
    &&& order.len() <= limit
    &&& order.len() < limit ==> forall|j: usize| j < keys.len() ==> #[trigger] order.contains(j)
}

/// Indices of the processes with the highest usage keys, at most
/// `TOP_PROCESS_COUNT` of them, highest first; processes with equal keys keep
/// the order in which they were enumerated.
pub fn top_processes(keys: &Vec<u32>) -> (order: Vec<usize>)
    ensures
        is_top(keys@, order@, TOP_PROCESS_COUNT as nat),
        order@.len() <= TOP_PROCESS_COUNT,
        forall|a: int, b: int|
            0 <= a < b < order@.len() ==> keys@[#[trigger] order@[a] as int] >= keys@[#[trigger] order@[b] as int],
{
    let n = keys.len();
    let mut order: Vec<usize> = Vec::new();
    while order.len() < TOP_PROCESS_COUNT
        invariant_except_break
            n == keys@.len(),
            is_ranked(keys@, order@),
            is_leading(keys@, order@),
            order@.len() <= TOP_PROCESS_COUNT,
        ensures
            is_top(keys@, order@, TOP_PROCESS_COUNT as nat),
        decreases TOP_PROCESS_COUNT - order@.len(),
    {
        let found = next_ranked(keys, &order);
        match found {
            Some(x) => {
                proof {
                    let old_order = order@;
                    let new_order = old_order.push(x);
                    assert forall|j: int, k: int|
                        0 <= j < keys@.len() && 0 <= k < new_order.len() && #[trigger] ranks_before(keys@, j, new_order[k] as int)
                        implies new_order.contains(j as usize) by {
                        if k < old_order.len() {
                            assert(old_order[k] == new_order[k]);
                            assert(old_order.contains(j as usize));
                            let w = choose|w: int| 0 <= w < old_order.len() && old_order[w] == j as usize;
                            assert(new_order[w] == j as usize);
                        } else if old_order.len() > 0 && j == old_order.last() {
                            assert(new_order[old_order.len() - 1] == j as usize);
                        } else if old_order.len() > 0 && ranks_before(keys@, j, old_order.last() as int) {
                            assert(old_order.contains(j as usize));
                            let w = choose|w: int| 0 <= w < old_order.len() && old_order[w] == j as usize;
                            assert(new_order[w] == j as usize);
                        }
                    }
                }
                order.push(x);
            },
            None => {
                proof {
                    assert forall|j: usize| j < keys@.len() implies #[trigger] order@.contains(j) by {
                        assert(!follows(keys@, order@, j as int));
                        if order@.len() > 0 && j != order@.last() {
                            let l = order@.len() - 1;
                            assert(ranks_before(keys@, j as int, order@[l] as int));
                        } else if order@.len() > 0 && j == order@.last() {
                            assert(order@[order@.len() - 1] == j);
                        }
                    }
                }
                break;
            },
        }
    }
    order
}

/// The index that ranks next after the last one of `order`: the first of all
/// indices when `order` is empty, `None` when nothing ranks after it.
fn next_ranked(keys: &Vec<u32>, order: &Vec<usize>) -> (r: Option<usize>)
    requires
        forall|k: int| 0 <= k < order@.len() ==> (#[trigger] order@[k]) < keys@.len(),
    ensures
        match r {
            Some(x) => {
                &&& x < keys@.len()
                &&& order@.len() > 0 ==> ranks_before(keys@, order@.last() as int, x as int)
                &&& forall|j: int|
                    0 <= j < keys@.len() && follows(keys@, order@, j)
                        ==> !ranks_before(keys@, j, x as int)
            },
            None => forall|j: int|
                0 <= j < keys@.len() ==> !follows(keys@, order@, j),
        },
{
    let n = keys.len();
    let mut best: Option<usize> = None;
    let mut j: usize = 0;
    while j < n
        invariant
            n == keys@.len(),
            j <= n,
            forall|k: int| 0 <= k < order@.len() ==> (#[trigger] order@[k]) < keys@.len(),
            match best {
                Some(x) => {
                    &&& x < j
                    &&& order@.len() > 0 ==> ranks_before(keys@, order@.last() as int, x as int)
                    &&& forall|i: int|
                        0 <= i < j && follows(keys@, order@, i)
                            ==> !ranks_before(keys@, i, x as int)
                },
                None => forall|i: int|
                    0 <= i < j ==> !follows(keys@, order@, i),
            },
        decreases n - j,
    {
        let eligible = if order.len() == 0 {
            true
        } else {
            let last = order[order.len() - 1];
            keys[last] > keys[j] || (keys[last] == keys[j] && last < j)
        };
        if eligible {
            match best {
                None => {
                    best = Some(j);
                },
                Some(x) => {
                    if keys[j] > keys[x] {
                        proof {
                            assert forall|i: int| 0 <= i < j && follows(keys@, order@, i)
                                implies !ranks_before(keys@, i, j as int) by {
                                assert(!ranks_before(keys@, i, x as int));
                            }
                        }
                        best = Some(j);
                    }
                },
            }
        }
        j += 1;
    }
    best
}

} // verus!
