use vstd::prelude::*;

verus! {

/// Where `name` first occurs in `names` at or after position `i`, or -1.
pub open spec fn index_from(names: Seq<Seq<char>>, name: Seq<char>, i: int) -> int
    decreases names.len() - i,
{
    if i < 0 || i >= names.len() {
        -1
    } else if names[i] == name {
        i
    } else {
        index_from(names, name, i + 1)
    }
}

/// Where `name` first occurs in `names`, or -1.
pub open spec fn index_of(names: Seq<Seq<char>>, name: Seq<char>) -> int {
    index_from(names, name, 0)
}

proof fn lemma_index_from(names: Seq<Seq<char>>, name: Seq<char>, i: int)
    requires
        0 <= i,
    ensures
        -1 <= index_from(names, name, i) < names.len(),
        index_from(names, name, i) >= 0 ==> names[index_from(names, name, i)] == name && i
            <= index_from(names, name, i),
        index_from(names, name, i) == -1 ==> forall|k: int| i <= k < names.len() ==> names[k] != name,
    decreases names.len() - i,
{
    if i < names.len() && names[i] != name {
        lemma_index_from(names, name, i + 1);
    }
}

/// A found position lies within the names.
pub proof fn lemma_index_of_bound(names: Seq<Seq<char>>, name: Seq<char>)
    ensures
        index_of(names, name) < names.len(),
        index_of(names, name) >= 0 ==> names[index_of(names, name)] == name,
{
    lemma_index_from(names, name, 0);
}

/// The position of the first name equal to `name`.
pub fn find_name(names: &Vec<String>, name: &String) -> (r: Option<usize>)
    ensures
        r.is_some() == (index_of(names@.map_values(|s: String| s@), name@) >= 0),
        r.is_some() ==> r.unwrap() == index_of(names@.map_values(|s: String| s@), name@),
{
    let ghost ns = names@.map_values(|s: String| s@);
    let mut i: usize = 0;
    while i < names.len()
        invariant
            i <= names@.len(),
            ns == names@.map_values(|s: String| s@),
            index_of(ns, name@) == index_from(ns, name@, i as int),
        decreases names.len() - i,
    {
        if names[i] == *name {
            return Some(i);
        }
        i = i + 1;
    }
    None
}

/// Every system of `order` is a distinct system of `deps` that comes after all of
/// its dependencies.
pub open spec fn ordered_prefix(deps: Seq<Seq<usize>>, order: Seq<usize>) -> bool {
    &&& order.no_duplicates()
    &&& forall|p: int| 0 <= p < order.len() ==> #[trigger] order[p] < deps.len()
    &&& forall|p: int, j: int|
        0 <= p < order.len() && 0 <= j < deps[order[p] as int].len() ==> order.subrange(0, p).contains(
            #[trigger] deps[order[p] as int][j],
        )
}

/// `order` runs each system once, each after all of its dependencies
/// (`deps[s]` lists the dependencies of system `s`).
pub open spec fn valid_order(deps: Seq<Seq<usize>>, order: Seq<usize>) -> bool {
    &&& order.len() == deps.len()
    &&& ordered_prefix(deps, order)
}

/// `stuck` is a non-empty set of systems each of which depends on one of them: a
/// dependency cycle lies inside it.
pub open spec fn cyclic_core(deps: Seq<Seq<usize>>, stuck: Set<usize>) -> bool {
    &&& exists|s: usize| #[trigger] stuck.contains(s)
    &&& forall|s: usize| #[trigger] stuck.contains(s) ==> s < deps.len() && exists|j: int|
        0 <= j < deps[s as int].len() && stuck.contains(#[trigger] deps[s as int][j])
}

proof fn lemma_prefix_outside_core(deps: Seq<Seq<usize>>, stuck: Set<usize>, order: Seq<usize>, p: int)
    requires
        cyclic_core(deps, stuck),
        valid_order(deps, order),
        0 <= p <= order.len(),
    ensures
        forall|q: int| 0 <= q < p ==> !stuck.contains(#[trigger] order[q]),
    decreases p,
{
    if p > 0 {
        lemma_prefix_outside_core(deps, stuck, order, p - 1);
        let s = order[p - 1];
        if stuck.contains(s) {
            let j = choose|j: int| 0 <= j < deps[s as int].len() && stuck.contains(#[trigger] deps[s as int][j]);
            let d = deps[s as int][j];
            assert(order.subrange(0, p - 1).contains(d));
            let q = choose|q: int| 0 <= q < p - 1 && #[trigger] order.subrange(0, p - 1)[q] == d;
            assert(order[q] == d);
            assert(!stuck.contains(order[q]));
        }
    }
}

/// A set of systems each depending on one of them admits no valid order.
pub proof fn lemma_cycle_blocks_order(deps: Seq<Seq<usize>>, stuck: Set<usize>)
    requires
        cyclic_core(deps, stuck),
        deps.len() <= usize::MAX,
    ensures
        !exists|order: Seq<usize>| valid_order(deps, order),
{
    if exists|order: Seq<usize>| valid_order(deps, order) {
        let order = choose|order: Seq<usize>| valid_order(deps, order);
        lemma_prefix_outside_core(deps, stuck, order, order.len() as int);
        let s = choose|s: usize| #[trigger] stuck.contains(s);
        lemma_permutation_covers(order, deps.len() as usize, s);
        let q = choose|q: int| 0 <= q < order.len() && #[trigger] order[q] == s;
        assert(!stuck.contains(order[q]));
    }
}

/// A sequence of `n` distinct values below `n` holds every value below `n`.
proof fn lemma_permutation_covers(order: Seq<usize>, n: usize, k: usize)
    requires
        order.len() == n,
        order.no_duplicates(),
        forall|p: int| 0 <= p < order.len() ==> #[trigger] order[p] < n,
        k < n,
    ensures
        order.contains(k),
{
    let s = order.to_set();
    order.unique_seq_to_set();
    let full = <usize as vstd::set_lib::FiniteRange>::range_set(0, n);
    <usize as vstd::set_lib::FiniteRange>::range_properties(0, n);
    if !order.contains(k) {
        assert forall|x: usize| s.contains(x) implies full.remove(k).contains(x) by {
            let p = choose|p: int| 0 <= p < order.len() && #[trigger] order[p] == x;
            assert(order[p] < n);
        }
        assert(s.subset_of(full.remove(k)));
        vstd::set_lib::lemma_len_subset(s, full.remove(k));
    }
}

/// Fewer than `n` distinct values miss some value below `n`.
proof fn lemma_short_misses(order: Seq<usize>, n: usize)
    requires
        order.len() < n,
        order.no_duplicates(),
    ensures
        exists|k: usize| k < n && !order.contains(k),
{
    if forall|k: usize| k < n ==> order.contains(k) {
        let full = <usize as vstd::set_lib::FiniteRange>::range_set(0, n);
        <usize as vstd::set_lib::FiniteRange>::range_properties(0, n);
        order.unique_seq_to_set();
        assert(full.subset_of(order.to_set()));
        vstd::set_lib::lemma_len_subset(full, order.to_set());
    }
}

proof fn lemma_push_ready(deps: Seq<Seq<usize>>, before: Seq<usize>, c: usize)
    requires
        ordered_prefix(deps, before),
        !before.contains(c),
        c < deps.len(),
        forall|j: int| 0 <= j < deps[c as int].len() ==> before.contains(#[trigger] deps[c as int][j]),
    ensures
        ordered_prefix(deps, before.push(c)),
{
    let after = before.push(c);
    assert forall|p: int| 0 <= p <= before.len() implies #[trigger] after.subrange(0, p) == before.subrange(0, p) by {
        assert(after.subrange(0, p) =~= before.subrange(0, p));
    }
    assert(after.subrange(0, before.len() as int) =~= before);
    assert forall|p: int, j: int|
        0 <= p < after.len() && 0 <= j < deps[after[p] as int].len() implies after.subrange(0, p).contains(
            #[trigger] deps[after[p] as int][j],
        ) by {
        assert(after.subrange(0, p) == before.subrange(0, p));
    }
    assert forall|a: int, b: int| 0 <= a < b < after.len() implies after[a] != after[b] by {
        if b == before.len() {
            assert(before.contains(before[a]));
        }
    }
}

/// Whether every system of `list` has been placed.
fn all_placed(list: &Vec<usize>, placed: &Vec<bool>) -> (r: bool)
    requires
        forall|j: int| 0 <= j < list@.len() ==> #[trigger] list@[j] < placed@.len(),
    ensures
        r == forall|j: int| 0 <= j < list@.len() ==> placed@[#[trigger] list@[j] as int],
{
    let mut j: usize = 0;
    while j < list.len()
        invariant
            j <= list@.len(),
            forall|j: int| 0 <= j < list@.len() ==> #[trigger] list@[j] < placed@.len(),
            forall|k: int| 0 <= k < j ==> placed@[#[trigger] list@[k] as int],
        decreases list.len() - j,
    {
        if !placed[list[j]] {
            return false;
        }
        j = j + 1;
    }
    true
}

/// System `k` is not placed yet and all of its dependencies are.
pub open spec fn ready(deps: Seq<Seq<usize>>, placed: Seq<bool>, k: int) -> bool {
    &&& !placed[k]
    &&& forall|j: int| 0 <= j < deps[k].len() ==> placed[#[trigger] deps[k][j] as int]
}

/// A system that is not placed yet and whose dependencies all are.
fn find_ready(deps: &Vec<Vec<usize>>, placed: &Vec<bool>) -> (r: Option<usize>)
    requires
        deps_in_range(deps_view(deps@)),
        placed@.len() == deps@.len(),
    ensures
        r.is_some() ==> r.unwrap() < deps@.len() && ready(deps_view(deps@), placed@, r.unwrap() as int),
        r.is_none() ==> forall|k: int| 0 <= k < deps@.len() ==> !#[trigger] ready(deps_view(deps@), placed@, k),
{
    let ghost dv = deps_view(deps@);
    let n = deps.len();
    let mut c: usize = 0;
    while c < n
        invariant
            n == deps@.len(),
            dv == deps_view(deps@),
            deps_in_range(dv),
            placed@.len() == n,
            c <= n,
            forall|k: int| 0 <= k < c ==> !#[trigger] ready(dv, placed@, k),
        decreases n - c,
    {
        assert(deps@[c as int]@ == dv[c as int]);
        if !placed[c] && all_placed(&deps[c], &placed) {
            return Some(c);
        }
        c = c + 1;
    }
    None
}

proof fn lemma_stuck(dv: Seq<Seq<usize>>, order: Seq<usize>, placed: Seq<bool>, n: usize)
    requires
        n == dv.len(),
        deps_in_range(dv),
        placed.len() == n,
        order.len() < n,
        order.no_duplicates(),
        forall|k: int| 0 <= k < n ==> (#[trigger] placed[k] <==> order.contains(k as usize)),
        forall|k: int| 0 <= k < n ==> !#[trigger] ready(dv, placed, k),
    ensures
        !exists|o: Seq<usize>| valid_order(dv, o),
{
    let stuck = Set::new(|k: usize| k < n && !placed[k as int]);
    lemma_short_misses(order, n);
    let k = choose|k: usize| k < n && !order.contains(k);
    assert(!placed[k as int]);
    assert(stuck.contains(k));
    assert forall|s: usize| #[trigger] stuck.contains(s) implies s < dv.len() && exists|j: int|
        0 <= j < dv[s as int].len() && stuck.contains(#[trigger] dv[s as int][j]) by {
        assert(!placed[s as int]);
        assert(!ready(dv, placed, s as int));
        let j = choose|j: int| 0 <= j < dv[s as int].len() && !placed[#[trigger] dv[s as int][j] as int];
        let d = dv[s as int][j];
        assert(d < n);
        assert(stuck.contains(d));
    }
    lemma_cycle_blocks_order(dv, stuck);
}

/// The views of the dependency lists.
pub open spec fn deps_view(deps: Seq<Vec<usize>>) -> Seq<Seq<usize>> {
    deps.map_values(|v: Vec<usize>| v@)
}

/// Every dependency names one of the systems.
pub open spec fn deps_in_range(deps: Seq<Seq<usize>>) -> bool {
    forall|i: int, j: int|
        0 <= i < deps.len() && 0 <= j < deps[i].len() ==> #[trigger] deps[i][j] < deps.len()
}

/// Orders the systems so that each comes after its dependencies, or finds that no
/// such order exists (the dependencies hold a cycle).
pub fn schedule_order(deps: &Vec<Vec<usize>>) -> (r: Option<Vec<usize>>)
    requires
        deps_in_range(deps_view(deps@)),
    ensures
        r.is_some() ==> valid_order(deps_view(deps@), r.unwrap()@),
        r.is_none() ==> !exists|order: Seq<usize>| valid_order(deps_view(deps@), order),
{
    let ghost dv = deps_view(deps@);
    let n = deps.len();
    let mut placed: Vec<bool> = Vec::new();
    while placed.len() < n
        invariant
            placed@.len() <= n,
            forall|k: int| 0 <= k < placed@.len() ==> !placed@[k],
        decreases n - placed.len(),
    {
        placed.push(false);
    }
    let mut order: Vec<usize> = Vec::new();
    while order.len() < n
        invariant
            n == deps@.len(),
            dv == deps_view(deps@),
            deps_in_range(dv),
            placed@.len() == n,
            order@.len() <= n,
            ordered_prefix(dv, order@),
            forall|k: int| 0 <= k < n ==> (#[trigger] placed@[k] <==> order@.contains(k as usize)),
        decreases n - order.len(),
    {
        let c = match find_ready(deps, &placed) {
            Some(c) => c,
            None => {
                proof {
                    lemma_stuck(dv, order@, placed@, n);
                }
                return None;
            },
        };
        let ghost before = order@;
        proof {
            assert forall|j: int| 0 <= j < dv[c as int].len() implies before.contains(#[trigger] dv[c as int][j]) by {
                assert(placed@[dv[c as int][j] as int]);
                assert(dv[c as int][j] < n);
            }
            lemma_push_ready(dv, before, c);
        }
        placed.set(c, true);
        order.push(c);
        proof {
            assert forall|k: int| 0 <= k < n implies (#[trigger] placed@[k] <==> order@.contains(k as usize)) by {
                if k == c as int {
                    assert(order@[before.len() as int] == c);
                } else if before.contains(k as usize) {
                    let q = choose|q: int| 0 <= q < before.len() && #[trigger] before[q] == k as usize;
                    assert(order@[q] == k as usize);
                } else if order@.contains(k as usize) {
                    let q = choose|q: int| 0 <= q < order@.len() && #[trigger] order@[q] == k as usize;
                    assert(q < before.len());
                    assert(before[q] == k as usize);
                }
            }
        }
    }
    Some(order)
}

} // verus!
