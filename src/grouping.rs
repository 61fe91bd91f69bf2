use vstd::prelude::*;
use itertools::Itertools;
use crate::topology::Snapshot;

verus! {

/// Most tokens whose index updates fit in one transaction.
pub const GROUP_SIZE: usize = 8;

/// How many runs of `size` it takes to cover `len` items.
pub open spec fn group_count(len: nat, size: nat) -> nat
    recommends
        size > 0,
{
    ((len + size - 1) as nat / size) as nat
}

/// Run `i` of `items` cut into consecutive runs of `size`, the last one shorter.
pub open spec fn group_at(items: Seq<u16>, size: nat, i: int) -> Seq<u16> {
    let start = i * size;
    let end = if (i + 1) * size <= items.len() { (i + 1) * size } else { items.len() as int };
    items.subrange(start, end)
}

/// `groups` is `items` cut into consecutive runs of `size`.
pub open spec fn is_grouping(groups: Seq<Seq<u16>>, items: Seq<u16>, size: nat) -> bool {
    &&& groups.len() == group_count(items.len(), size)
    &&& forall|i: int| 0 <= i < groups.len() ==> #[trigger] groups[i] == group_at(items, size, i)
}

pub open spec fn views_of(groups: Seq<Vec<u16>>) -> Seq<Seq<u16>> {
    groups.map_values(|g: Vec<u16>| g@)
}

/// Relies on itertools' `Itertools::chunks`: consecutive chunks of `size` items,
/// the last one shorter; it panics on a size of zero.
#[verifier::external_body]
fn chunk_indices(items: &Vec<u16>, size: usize) -> (r: Vec<Vec<u16>>)
    requires
        size > 0,
    ensures
        is_grouping(views_of(r@), items@, size as nat),
{
    items.iter().chunks(size).into_iter().map(|c| c.copied().collect::<Vec<u16>>()).collect()
}

/// The snapshot's tokens cut into groups of `GROUP_SIZE`, in the snapshot's
/// order; one updater task runs per group.
pub fn token_groups(snapshot: &Snapshot) -> (r: Vec<Vec<u16>>)
    ensures
        is_grouping(views_of(r@), snapshot.token_indexes(), GROUP_SIZE as nat),
{
    let indexes = snapshot.token_index_list();
    chunk_indices(&indexes, GROUP_SIZE)
}

proof fn lemma_group_bounds(len: nat, size: nat, i: int)
    requires
        size > 0,
        0 <= i < group_count(len, size),
    ensures
        i * size < len,
        (i + 1) * size > len ==> i + 1 == group_count(len, size),
{
    let c = group_count(len, size);
    assert(c * size <= len + size - 1) by (nonlinear_arith)
        requires c == ((len + size - 1) as nat / size) as nat, size > 0;
    assert((c + 1) * size > len + size - 1) by (nonlinear_arith)
        requires c == ((len + size - 1) as nat / size) as nat, size > 0;
    assert(i * size < len) by (nonlinear_arith)
        requires 0 <= i < c, c * size <= len + size - 1, size > 0;
    if (i + 1) * size > len {
        assert(i + 1 == c) by (nonlinear_arith)
            requires 0 <= i < c, (i + 1) * size > len, c * size <= len + size - 1, size > 0;
    }
}

proof fn lemma_flatten(groups: Seq<Seq<u16>>, items: Seq<u16>, size: nat)
    requires
        size > 0,
        is_grouping(groups, items, size),
    ensures
        groups.flatten() == items,
        forall|i: int| 0 <= i < groups.len() ==> 0 < (#[trigger] groups[i]).len() <= size,
    decreases items.len(),
{
    assert forall|i: int| 0 <= i < groups.len() implies 0 < (#[trigger] groups[i]).len() <= size by {
        lemma_group_bounds(items.len(), size, i);
        assert((i + 1) * size == i * size + size) by (nonlinear_arith);
        assert(0 <= i * size) by (nonlinear_arith) requires 0 <= i;
    }
    if items.len() == 0 {
        assert(groups.len() == 0) by (nonlinear_arith)
            requires groups.len() == ((size - 1) as nat / size) as nat, size > 0;
        assert(items =~= Seq::<u16>::empty());
    } else {
        assert(groups.len() > 0) by (nonlinear_arith)
            requires groups.len() == ((items.len() + size - 1) as nat / size) as nat, size > 0,
                items.len() > 0;
        let rest_items = items.subrange(groups[0].len() as int, items.len() as int);
        let rest = groups.drop_first();
        if items.len() <= size {
            assert(groups.len() == 1) by (nonlinear_arith)
                requires groups.len() == ((items.len() + size - 1) as nat / size) as nat, size > 0,
                    items.len() > 0, items.len() <= size;
            assert(groups[0] =~= items);
            assert(rest =~= Seq::<Seq<u16>>::empty());
            assert(groups.flatten() =~= groups[0] + rest.flatten());
        } else {
            assert(groups[0] =~= items.subrange(0, size as int));
            let n = (items.len() - size) as nat;
            assert(group_count(n, size) + 1 == group_count(items.len(), size)) by {
                assert(((n + size - 1) as nat + size) / size == (n + size - 1) as nat / size + 1)
                    by (nonlinear_arith) requires size > 0;
            }
            assert forall|i: int| 0 <= i < rest.len() implies #[trigger] rest[i] == group_at(
                rest_items,
                size,
                i,
            ) by {
                assert(rest[i] == groups[i + 1]);
                assert((i + 1) * size == i * size + size) by (nonlinear_arith);
                assert((i + 2) * size == (i + 1) * size + size) by (nonlinear_arith);
                lemma_group_bounds(items.len(), size, i + 1);
                assert(group_at(rest_items, size, i) =~= group_at(items, size, i + 1));
            }
            lemma_flatten(rest, rest_items, size);
            assert(items =~= groups[0] + rest_items);
        }
    }
}

/// Cutting a list of tokens into groups gives ceil(len / size) groups, each of
/// one to `size` tokens, which laid end to end are the list again: every token
/// lands in exactly one group.
pub proof fn lemma_grouping_covers(groups: Seq<Seq<u16>>, items: Seq<u16>, size: nat)
    requires
        size > 0,
        is_grouping(groups, items, size),
    ensures
        groups.len() == group_count(items.len(), size),
        groups.flatten() == items,
        forall|i: int| 0 <= i < groups.len() ==> 0 < (#[trigger] groups[i]).len() <= size,
{
    lemma_flatten(groups, items, size);
}

} // verus!
