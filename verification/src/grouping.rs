//! Runs of neighbours with the same key.
//!
//! Listings are shown in groups: the lines that follow one another and share
//! a key stand under one heading. The runs are found by `itertools`; what is
//! made of them is decided here.

use vstd::prelude::*;
use itertools::Itertools;
use crate::document::opt_view;

verus! {

/// The values of a list of keys.
pub open spec fn keys_view(keys: Seq<Option<String>>) -> Seq<Option<Seq<char>>> {
    Seq::new(keys.len(), |i: int| opt_view(keys[i]))
}

/// Where run `i` begins, given the lengths of the runs: at the sum of the
/// lengths of the runs before it.
pub open spec fn run_start(lens: Seq<usize>, i: int) -> int
    decreases i,
{
    if i <= 0 {
        0
    } else {
        run_start(lens, i - 1) + lens[i - 1]
    }
}

/// Whether `lens` are the lengths of the runs of `keys`: the runs are not
/// empty and cover the keys in order, the keys of a run are all the same, and
/// where one run ends and the next begins the keys differ.
pub open spec fn splits_into_runs<K>(keys: Seq<K>, lens: Seq<usize>) -> bool {
    &&& run_start(lens, lens.len() as int) == keys.len()
    &&& forall|i: int| 0 <= i < lens.len() ==> #[trigger] lens[i] >= 1
    &&& forall|i: int, j: int|
        0 <= i < lens.len() && run_start(lens, i) <= j < run_start(lens, i) + lens[i]
            ==> #[trigger] keys[j] == keys[#[trigger] run_start(lens, i)]
    &&& forall|i: int|
        0 < i < lens.len() ==> keys[#[trigger] run_start(lens, i)] != keys[run_start(lens, i) - 1]
}

/// The items of the first `n` parts, one part after another.
pub open spec fn joined<A>(parts: Seq<Seq<A>>, n: int) -> Seq<A>
    decreases n,
{
    if n <= 0 {
        Seq::empty()
    } else {
        joined(parts, n - 1) + parts[n - 1]
    }
}

/// Whether `parts`, under the headings `heads`, are `items` grouped by `key`:
/// the parts hold the items in their order, none is empty, the items of a
/// part all have the key that is its heading, and neighbouring parts differ
/// in their heading.
pub open spec fn is_grouping<A, K>(
    items: Seq<A>,
    key: spec_fn(A) -> K,
    heads: Seq<K>,
    parts: Seq<Seq<A>>,
) -> bool {
    &&& heads.len() == parts.len()
    &&& joined(parts, parts.len() as int) == items
    &&& forall|g: int| 0 <= g < parts.len() ==> (#[trigger] parts[g]).len() >= 1
    &&& forall|g: int, k: int|
        0 <= g < parts.len() && 0 <= k < parts[g].len() ==> key(#[trigger] parts[g][k])
            == heads[g]
    &&& forall|g: int, h: int|
        0 <= g && h == g + 1 && h < parts.len() ==> #[trigger] heads[g] != #[trigger] heads[h]
}

/// The items of the first `n` parts depend on those parts alone.
pub proof fn lemma_joined_prefix<A>(a: Seq<Seq<A>>, b: Seq<Seq<A>>, n: int)
    requires
        0 <= n <= a.len(),
        n <= b.len(),
        forall|i: int| 0 <= i < n ==> a[i] == b[i],
    ensures
        joined(a, n) == joined(b, n),
    decreases n,
{
    if n > 0 {
        lemma_joined_prefix(a, b, n - 1);
    }
}

/// The lengths of the runs of equal neighbours among `keys`, in order.
///
/// Calls `Itertools::group_by` with the key itself as the grouping key, and
/// counts each group. The contract claims what the method documents: it
/// assigns consecutive elements with the same key to one group, and begins a
/// new group where the key changes, so the groups are the maximal runs; a
/// list without keys has no groups.
#[verifier::external_body]
fn run_lengths(keys: &Vec<Option<String>>) -> (r: Vec<usize>)
    ensures
        splits_into_runs(keys_view(keys@), r@),
{
    keys.iter().group_by(|key| *key).into_iter().map(|(_, group)| group.count()).collect()
}

/// The runs begin one after another, and none begins behind the end.
pub proof fn lemma_run_start_monotonic(lens: Seq<usize>, i: int, j: int)
    requires
        0 <= i <= j <= lens.len(),
    ensures
        0 <= run_start(lens, i) <= run_start(lens, j),
    decreases j,
{
    if i < j {
        lemma_run_start_monotonic(lens, i, j - 1);
    } else if j > 0 {
        lemma_run_start_monotonic(lens, i - 1, j - 1);
    }
}

/// Whether `runs` are the runs of `keys` as pairs of a first position and the
/// position behind the last: they are not empty, each begins where the one
/// before it ends, together they cover the keys, the keys of a run are all
/// the same, and across a boundary the keys differ.
pub open spec fn is_run_partition<K>(keys: Seq<K>, runs: Seq<(usize, usize)>) -> bool {
    &&& (runs.len() == 0 <==> keys.len() == 0)
    &&& runs.len() > 0 ==> runs[0].0 == 0 && runs[runs.len() - 1].1 == keys.len()
    &&& forall|i: int| 0 <= i < runs.len() ==> (#[trigger] runs[i]).0 < runs[i].1 <= keys.len()
    &&& forall|i: int, j: int|
        0 <= i && j == i + 1 && j < runs.len() ==> (#[trigger] runs[j]).0 == (
        #[trigger] runs[i]).1
    &&& forall|i: int, j: int|
        0 <= i < runs.len() && runs[i].0 <= j < runs[i].1 ==> #[trigger] keys[j] == keys[(
        #[trigger] runs[i]).0 as int]
    &&& forall|i: int|
        0 < i < runs.len() ==> keys[(#[trigger] runs[i]).0 as int] != keys[runs[i].0 - 1]
}

/// The parts that `runs` cut out of `items`.
pub open spec fn run_parts<A>(items: Seq<A>, runs: Seq<(usize, usize)>) -> Seq<Seq<A>> {
    Seq::new(runs.len(), |g: int| items.subrange(runs[g].0 as int, runs[g].1 as int))
}

/// The key that each of `runs` begins with.
pub open spec fn run_heads<K>(keys: Seq<K>, runs: Seq<(usize, usize)>) -> Seq<K> {
    Seq::new(runs.len(), |g: int| keys[runs[g].0 as int])
}

/// The parts that the first `n` runs cut out hold the items up to the end of
/// the last of them, where the runs begin at the first item and follow one
/// another.
pub proof fn lemma_run_parts_joined<A>(items: Seq<A>, runs: Seq<(usize, usize)>, n: int)
    requires
        0 < n <= runs.len(),
        runs[0].0 == 0,
        forall|i: int| 0 <= i < runs.len() ==> (#[trigger] runs[i]).0 <= runs[i].1 <= items.len(),
        forall|i: int, j: int|
            0 <= i && j == i + 1 && j < runs.len() ==> (#[trigger] runs[j]).0 == (
            #[trigger] runs[i]).1,
    ensures
        joined(run_parts(items, runs), n) == items.take(runs[n - 1].1 as int),
    decreases n,
{
    let parts = run_parts(items, runs);
    if n == 1 {
        assert(joined(parts, 0) =~= Seq::<A>::empty());
        assert(parts[0] == items.subrange(runs[0].0 as int, runs[0].1 as int));
        assert(joined(parts, 1) =~= items.take(runs[0].1 as int));
    } else {
        lemma_run_parts_joined(items, runs, n - 1);
        assert(runs[n - 1].0 == runs[n - 2].1);
        assert(runs[n - 1].0 <= runs[n - 1].1 <= items.len());
        assert(parts[n - 1] == items.subrange(runs[n - 1].0 as int, runs[n - 1].1 as int));
        assert(items.take(runs[n - 2].1 as int) + parts[n - 1] =~= items.take(
            runs[n - 1].1 as int,
        ));
    }
}

/// The runs of the keys of some items cut the items into groups by key.
pub proof fn lemma_runs_give_grouping<A, K>(
    items: Seq<A>,
    key: spec_fn(A) -> K,
    keys: Seq<K>,
    runs: Seq<(usize, usize)>,
)
    requires
        keys.len() == items.len(),
        forall|i: int| 0 <= i < items.len() ==> keys[i] == key(items[i]),
        is_run_partition(keys, runs),
    ensures
        is_grouping(items, key, run_heads(keys, runs), run_parts(items, runs)),
{
    let parts = run_parts(items, runs);
    let heads = run_heads(keys, runs);
    if runs.len() == 0 {
        assert(joined(parts, 0) =~= items);
    } else {
        lemma_run_parts_joined(items, runs, runs.len() as int);
        assert(items.take(items.len() as int) =~= items);
    }
    assert forall|g: int| 0 <= g < parts.len() implies (#[trigger] parts[g]).len() >= 1 by {
        assert(runs[g].0 < runs[g].1 <= keys.len());
    }
    assert forall|g: int, k: int| 0 <= g < parts.len() && 0 <= k < parts[g].len() implies key(
        #[trigger] parts[g][k],
    ) == heads[g] by {
        assert(runs[g].0 < runs[g].1 <= keys.len());
        assert(keys[runs[g].0 + k] == keys[runs[g].0 as int]);
    }
    assert forall|g: int, h: int| 0 <= g && h == g + 1 && h < parts.len() implies #[trigger] heads[g]
        != #[trigger] heads[h] by {
        assert(runs[h].0 < runs[h].1 <= keys.len());
        assert(runs[g].0 < runs[g].1 <= keys.len());
        assert(keys[runs[h].0 as int] != keys[runs[h].0 - 1]);
        assert(runs[h].0 == runs[g].1);
        assert(keys[runs[g].1 - 1] == keys[runs[g].0 as int]);
    }
}

/// The runs of equal neighbours among `keys`, each as the pair of its first
/// position and the position behind its last.
pub fn key_runs(keys: &Vec<Option<String>>) -> (r: Vec<(usize, usize)>)
    ensures
        is_run_partition(keys_view(keys@), r@),
{
    let lens = run_lengths(keys);
    let ghost view = keys_view(keys@);
    let mut runs: Vec<(usize, usize)> = Vec::new();
    let mut start: usize = 0;
    let mut i: usize = 0;
    while i < lens.len()
        invariant
            i <= lens.len(),
            view == keys_view(keys@),
            splits_into_runs(view, lens@),
            start == run_start(lens@, i as int),
            start <= keys.len(),
            runs.len() == i,
            forall|k: int|
                0 <= k < i ==> (#[trigger] runs[k]).0 == run_start(lens@, k) && runs[k].1
                    == run_start(lens@, k + 1),
        decreases lens.len() - i,
    {
        proof {
            lemma_run_start_monotonic(lens@, i + 1, lens.len() as int);
        }
        let end = start + lens[i];
        runs.push((start, end));
        start = end;
        i += 1;
    }
    proof {
        assert forall|k: int| 0 <= k < runs.len() implies (#[trigger] runs[k]).0 < runs[k].1
            <= keys.len() by {
            lemma_run_start_monotonic(lens@, k + 1, lens.len() as int);
            assert(lens@[k] >= 1);
        }
        assert forall|k: int, j: int|
            0 <= k < runs.len() && runs[k].0 <= j < runs[k].1 implies #[trigger] view[j] == view[(
        #[trigger] runs[k]).0 as int] by {
            assert(run_start(lens@, k) <= j < run_start(lens@, k + 1));
        }
        assert forall|k: int| 0 < k < runs.len() implies view[(#[trigger] runs[k]).0 as int]
            != view[runs[k].0 - 1] by {
            assert(view[run_start(lens@, k)] != view[run_start(lens@, k) - 1]);
        }
        if lens.len() == 0 {
            assert(run_start(lens@, 0) == 0);
        } else {
            assert(lens@[0] >= 1);
            lemma_run_start_monotonic(lens@, 1, lens.len() as int);
        }
    }
    runs
}

} // verus!
