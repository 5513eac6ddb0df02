//! The flashblocks of a pending state, block by block.

use std::collections::BTreeMap;
use std::sync::Arc;

use vstd::prelude::*;
use vstd::std_specs::cmp::OrdSpec;
use vstd::std_specs::iter::IteratorSpec;

use crate::flashblock::{flashblocks_of, share_all, Flashblock};

verus! {

/// The number of the block that a group of flashblocks belongs to.
pub open spec fn number_of(group: Seq<Arc<Flashblock>>) -> u64 {
    group.first().metadata.block_number
}

/// Whether one of the groups is that of the block with the given number.
pub open spec fn has_group(groups: Seq<Seq<Arc<Flashblock>>>, number: u64) -> bool {
    exists|i: int| 0 <= i < groups.len() && number_of(#[trigger] groups[i]) == number
}

/// Whether `groups` holds the flashblocks of each block in a group of their own, in the order in
/// which they came, and the groups by ascending block number.
pub open spec fn is_grouping(
    groups: Seq<Seq<Arc<Flashblock>>>,
    flashblocks: Seq<Arc<Flashblock>>,
) -> bool {
    &&& forall|i: int|
        0 <= i < groups.len() ==> {
            &&& (#[trigger] groups[i]).len() > 0
            &&& groups[i] == flashblocks_of(flashblocks, number_of(groups[i]))
        }
    &&& forall|i: int, j: int|
        0 <= i < j < groups.len() ==> number_of(#[trigger] groups[i]) < number_of(
            #[trigger] groups[j],
        )
    &&& forall|k: int|
        0 <= k < flashblocks.len() ==> has_group(
            groups,
            (#[trigger] flashblocks[k]).metadata.block_number,
        )
}

/// The flashblocks in each of the groups.
pub open spec fn groups_of(groups: Seq<Vec<Arc<Flashblock>>>) -> Seq<Seq<Arc<Flashblock>>> {
    groups.map_values(|group: Vec<Arc<Flashblock>>| group@)
}

/// Whether `table` maps each block number that occurs in `flashblocks` to the flashblocks of
/// that block, and no other number to anything.
spec fn is_table(table: Map<u64, Vec<Arc<Flashblock>>>, flashblocks: Seq<Arc<Flashblock>>) -> bool {
    forall|number: u64|
        if #[trigger] table.contains_key(number) {
            &&& table[number]@ == flashblocks_of(flashblocks, number)
            &&& table[number]@.len() > 0
        } else {
            flashblocks_of(flashblocks, number).len() == 0
        }
}

/// Block numbers are ordered as a `BTreeMap` asks of its keys, and increase in the usual sense.
proof fn lemma_number_order()
    ensures
        vstd::std_specs::btree::key_obeys_cmp_spec::<u64>(),
        forall|numbers: Seq<u64>, i: int, j: int|
            vstd::std_specs::btree::increasing_seq(numbers) && 0 <= i < j < numbers.len()
                ==> #[trigger] numbers[i] < #[trigger] numbers[j],
{
    broadcast use vstd::std_specs::btree::group_btree_axioms;
    broadcast use vstd::laws_cmp::group_laws_cmp;
    assert forall|numbers: Seq<u64>, i: int, j: int|
        vstd::std_specs::btree::increasing_seq(numbers) && 0 <= i < j
            < numbers.len() implies #[trigger] numbers[i] < #[trigger] numbers[j] by {
        assert(numbers[i].cmp_spec(&numbers[j]) is Less);
    }
}

/// The flashblocks in the entries of a table, by ascending number, are the groups.
proof fn lemma_groups_of_table(
    table: Map<u64, Vec<Arc<Flashblock>>>,
    entries: Seq<(&u64, &Vec<Arc<Flashblock>>)>,
    flashblocks: Seq<Arc<Flashblock>>,
    groups: Seq<Seq<Arc<Flashblock>>>,
)
    requires
        is_table(table, flashblocks),
        vstd::std_specs::btree::increasing_seq(
            entries.map_values(|entry: (&u64, &Vec<Arc<Flashblock>>)| *entry.0),
        ),
        forall|i: int|
            0 <= i < entries.len() ==> table.contains_key(*(#[trigger] entries[i]).0)
                && table[*entries[i].0] == *entries[i].1,
        forall|number: u64| #[trigger]
            table.contains_key(number) ==> entries.contains((&number, &table[number])),
        groups.len() == entries.len(),
        forall|i: int| 0 <= i < groups.len() ==> #[trigger] groups[i] == (*entries[i].1)@,
    ensures
        is_grouping(groups, flashblocks),
{
    lemma_number_order();
    let numbers = entries.map_values(|entry: (&u64, &Vec<Arc<Flashblock>>)| *entry.0);
    assert forall|i: int| 0 <= i < groups.len() implies {
        &&& (#[trigger] groups[i]).len() > 0
        &&& number_of(groups[i]) == numbers[i]
        &&& groups[i] == flashblocks_of(flashblocks, numbers[i])
    } by {
        assert(table.contains_key(*entries[i].0));
        flashblocks.lemma_filter_pred(
            |flashblock: Arc<Flashblock>| flashblock.metadata.block_number == numbers[i],
            0,
        );
    }
    assert forall|i: int, j: int| 0 <= i < j < groups.len() implies number_of(#[trigger] groups[i])
        < number_of(#[trigger] groups[j]) by {
        assert(numbers[i] < numbers[j]);
    }
    assert forall|k: int| 0 <= k < flashblocks.len() implies has_group(
        groups,
        (#[trigger] flashblocks[k]).metadata.block_number,
    ) by {
        let number = flashblocks[k].metadata.block_number;
        flashblocks.lemma_filter_contains(
            |flashblock: Arc<Flashblock>| flashblock.metadata.block_number == number,
            k,
        );
        assert(table.contains_key(number));
        let i = choose|i: int| 0 <= i < entries.len() && entries[i] == (&number, &table[number]);
        assert(number_of(groups[i]) == numbers[i]);
    }
}

/// Groups flashblocks by the block that they belong to.
pub fn group_by_block(flashblocks: &Vec<Arc<Flashblock>>) -> (r: Vec<Vec<Arc<Flashblock>>>)
    ensures
        is_grouping(groups_of(r@), flashblocks@),
{
    proof {
        lemma_number_order();
    }
    let mut flashblocks_per_block: BTreeMap<u64, Vec<Arc<Flashblock>>> = BTreeMap::new();
    let mut i: usize = 0;
    reveal(Seq::filter);
    while i < flashblocks.len()
        invariant
            i <= flashblocks.len(),
            is_table(flashblocks_per_block@, flashblocks@.take(i as int)),
        decreases flashblocks.len() - i,
    {
        let flashblock = &flashblocks[i];
        let number = flashblock.metadata.block_number;
        let ghost before = flashblocks_per_block@;
        let mut group = match flashblocks_per_block.remove(&number) {
            Some(group) => group,
            None => Vec::new(),
        };
        assert(group@ =~= flashblocks_of(flashblocks@.take(i as int), number));
        group.push(flashblock.clone());
        flashblocks_per_block.insert(number, group);
        proof {
            let prefix = flashblocks@.take(i as int);
            assert(flashblocks@.take(i + 1) =~= prefix.push(*flashblock));
            assert forall|n: u64| true implies flashblocks_of(
                prefix.push(*flashblock),
                n,
            ) == if n == number {
                (#[trigger] flashblocks_of(prefix, n)).push(*flashblock)
            } else {
                flashblocks_of(prefix, n)
            } by {
                prefix.lemma_filter_push(
                    *flashblock,
                    |flashblock: Arc<Flashblock>| flashblock.metadata.block_number == n,
                );
            }
            assert forall|n: u64| #[trigger] flashblocks_per_block@.contains_key(n) implies (n
                == number || before.contains_key(n)) by {}
        }
        i += 1;
    }
    assert(flashblocks@.take(i as int) =~= flashblocks@);
    let iter = flashblocks_per_block.iter();
    let ghost entries = IteratorSpec::remaining(&iter);
    let mut r: Vec<Vec<Arc<Flashblock>>> = Vec::new();
    for entry in it: iter
        invariant
            it.seq() == entries,
            r.len() == it.index(),
            forall|j: int| 0 <= j < r.len() ==> (#[trigger] r@[j])@ == (*entries[j].1)@,
    {
        r.push(share_all(entry.1));
    }
    proof {
        lemma_groups_of_table(flashblocks_per_block@, entries, flashblocks@, groups_of(r@));
    }
    r
}

/// Whether the flashblocks come by block, the blocks by ascending number.
pub open spec fn in_block_order(flashblocks: Seq<Arc<Flashblock>>) -> bool {
    forall|i: int, j: int|
        0 <= i <= j < flashblocks.len() ==> (#[trigger] flashblocks[i]).metadata.block_number <= (
        #[trigger] flashblocks[j]).metadata.block_number
}

/// The flashblocks of all blocks but the one with the given number.
spec fn flashblocks_beside(flashblocks: Seq<Arc<Flashblock>>, number: u64) -> Seq<Arc<Flashblock>> {
    flashblocks.filter(|flashblock: Arc<Flashblock>| flashblock.metadata.block_number != number)
}

/// Whether no flashblock is of a block beyond the one with the given number.
spec fn none_beyond(flashblocks: Seq<Arc<Flashblock>>, number: u64) -> bool {
    forall|k: int|
        0 <= k < flashblocks.len() ==> (#[trigger] flashblocks[k]).metadata.block_number <= number
}

/// One sequence after the other.
#[verifier::opaque]
spec fn joined<T>(a: Seq<T>, b: Seq<T>) -> Seq<T> {
    a + b
}

/// Nothing behind a sequence leaves it as it is.
proof fn lemma_joined_empty<T>(a: Seq<T>)
    ensures
        joined(a, Seq::<T>::empty()) == a,
{
    reveal(joined);
    assert(a + Seq::<T>::empty() =~= a);
}

/// An element behind the second sequence is behind both.
proof fn lemma_joined_push<T>(a: Seq<T>, b: Seq<T>, x: T)
    ensures
        joined(a, b.push(x)) == joined(a, b).push(x),
{
    reveal(joined);
    assert(a + b.push(x) =~= (a + b).push(x));
}

/// One more sequence is joined to those that were flattened before.
proof fn lemma_joined_flatten<T>(sequences: Seq<Seq<T>>, last: Seq<T>)
    ensures
        sequences.push(last).flatten() == joined(sequences.flatten(), last),
{
    reveal(joined);
    sequences.lemma_flatten_push(last);
}

/// Selecting twice, the second time more strictly, is selecting once.
pub(crate) proof fn lemma_filter_twice<T>(s: Seq<T>, p: spec_fn(T) -> bool, q: spec_fn(T) -> bool)
    requires
        forall|x: T| #[trigger] q(x) ==> p(x),
    ensures
        s.filter(p).filter(q) == s.filter(q),
    decreases s.len(),
{
    reveal(Seq::filter);
    if s.len() > 0 {
        lemma_filter_twice(s.drop_last(), p, q);
        if p(s.last()) {
            s.drop_last().filter(p).lemma_filter_push(s.last(), q);
        }
    }
}

/// Taking the flashblocks of one block away leaves those of the others as they are.
proof fn lemma_others_stay(flashblocks: Seq<Arc<Flashblock>>, taken: u64, number: u64)
    requires
        number != taken,
    ensures
        flashblocks_of(flashblocks_beside(flashblocks, taken), number) == flashblocks_of(
            flashblocks,
            number,
        ),
{
    lemma_filter_twice(
        flashblocks,
        |flashblock: Arc<Flashblock>| flashblock.metadata.block_number != taken,
        |flashblock: Arc<Flashblock>| flashblock.metadata.block_number == number,
    );
}

/// Without its last group, a grouping is one of the flashblocks of the other blocks.
proof fn lemma_drop_group(groups: Seq<Seq<Arc<Flashblock>>>, flashblocks: Seq<Arc<Flashblock>>)
    requires
        is_grouping(groups, flashblocks),
        groups.len() > 0,
    ensures
        is_grouping(
            groups.drop_last(),
            flashblocks_beside(flashblocks, number_of(groups.last())),
        ),
{
    let taken = number_of(groups.last());
    let rest = flashblocks_beside(flashblocks, taken);
    let fewer = groups.drop_last();
    assert forall|i: int| 0 <= i < fewer.len() implies {
        &&& (#[trigger] fewer[i]).len() > 0
        &&& fewer[i] == flashblocks_of(rest, number_of(fewer[i]))
    } by {
        assert(fewer[i] == groups[i]);
        assert(number_of(groups[i]) < number_of(groups[groups.len() - 1]));
        lemma_others_stay(flashblocks, taken, number_of(groups[i]));
    }
    assert forall|k: int| 0 <= k < rest.len() implies has_group(
        fewer,
        (#[trigger] rest[k]).metadata.block_number,
    ) by {
        let beside = |flashblock: Arc<Flashblock>| flashblock.metadata.block_number != taken;
        flashblocks.lemma_filter_pred(beside, k);
        flashblocks.lemma_filter_contains_rev(beside, rest[k]);
        let m = choose|m: int| 0 <= m < flashblocks.len() && flashblocks[m] == rest[k];
        assert(has_group(groups, flashblocks[m].metadata.block_number));
        let i = choose|i: int|
            0 <= i < groups.len() && number_of(#[trigger] groups[i])
                == flashblocks[m].metadata.block_number;
        assert(fewer[i] == groups[i]);
    }
}

/// A sequence holds what is selected from it and what is not.
proof fn lemma_filter_partition(flashblocks: Seq<Arc<Flashblock>>, number: u64)
    ensures
        flashblocks.to_multiset() == flashblocks_beside(flashblocks, number).to_multiset().add(
            flashblocks_of(flashblocks, number).to_multiset(),
        ),
    decreases flashblocks.len(),
{
    reveal(Seq::filter);
    if flashblocks.len() == 0 {
        assert(flashblocks_beside(flashblocks, number) =~= flashblocks);
        assert(flashblocks_of(flashblocks, number) =~= flashblocks);
        flashblocks.to_multiset_ensures();
        assert(flashblocks.to_multiset() =~= flashblocks.to_multiset().add(
            flashblocks.to_multiset(),
        ));
    } else {
        let fewer = flashblocks.drop_last();
        let last = flashblocks.last();
        lemma_filter_partition(fewer, number);
        assert(flashblocks =~= fewer.push(last));
        fewer.to_multiset_ensures();
        flashblocks_beside(fewer, number).to_multiset_ensures();
        flashblocks_of(fewer, number).to_multiset_ensures();
        assert(flashblocks.to_multiset() =~= flashblocks_beside(
            flashblocks,
            number,
        ).to_multiset().add(flashblocks_of(flashblocks, number).to_multiset()));
    }
}

/// Grouping loses no flashblock, adds none and repeats none.
pub proof fn law_grouping_keeps_all(
    groups: Seq<Seq<Arc<Flashblock>>>,
    flashblocks: Seq<Arc<Flashblock>>,
)
    requires
        is_grouping(groups, flashblocks),
    ensures
        groups.flatten().to_multiset() == flashblocks.to_multiset(),
    decreases groups.len(),
{
    if groups.len() == 0 {
        if flashblocks.len() > 0 {
            assert(has_group(groups, flashblocks[0].metadata.block_number));
        }
        assert(groups.flatten() =~= flashblocks);
    } else {
        let number = number_of(groups.last());
        let fewer = groups.drop_last();
        lemma_drop_group(groups, flashblocks);
        law_grouping_keeps_all(fewer, flashblocks_beside(flashblocks, number));
        lemma_filter_partition(flashblocks, number);
        assert(groups =~= fewer.push(groups.last()));
        fewer.lemma_flatten_push(groups.last());
        vstd::seq_lib::lemma_multiset_commutative(fewer.flatten(), groups.last());
    }
}

/// Where no flashblock is of a block, there are none of it and all are beside it.
proof fn lemma_none_of_block(flashblocks: Seq<Arc<Flashblock>>, number: u64)
    requires
        forall|k: int|
            0 <= k < flashblocks.len() ==> (#[trigger] flashblocks[k]).metadata.block_number
                != number,
    ensures
        flashblocks_of(flashblocks, number) == Seq::<Arc<Flashblock>>::empty(),
        flashblocks_beside(flashblocks, number) == flashblocks,
    decreases flashblocks.len(),
{
    reveal(Seq::filter);
    if flashblocks.len() > 0 {
        let fewer = flashblocks.drop_last();
        assert forall|k: int| 0 <= k < fewer.len() implies (
        #[trigger] fewer[k]).metadata.block_number != number by {
            assert(fewer[k] == flashblocks[k]);
        }
        lemma_none_of_block(fewer, number);
        assert(flashblocks =~= fewer.push(flashblocks.last()));
        assert(flashblocks[flashblocks.len() - 1].metadata.block_number != number);
    }
}

/// What one more flashblock of a block adds to those of it and those beside it.
proof fn lemma_push_of_block(
    flashblocks: Seq<Arc<Flashblock>>,
    flashblock: Arc<Flashblock>,
    number: u64,
)
    requires
        flashblock.metadata.block_number == number,
    ensures
        flashblocks_of(flashblocks.push(flashblock), number) == flashblocks_of(
            flashblocks,
            number,
        ).push(flashblock),
        flashblocks_beside(flashblocks.push(flashblock), number) == flashblocks_beside(
            flashblocks,
            number,
        ),
{
    flashblocks.lemma_filter_push(
        flashblock,
        |flashblock: Arc<Flashblock>| flashblock.metadata.block_number == number,
    );
    flashblocks.lemma_filter_push(
        flashblock,
        |flashblock: Arc<Flashblock>| flashblock.metadata.block_number != number,
    );
}

/// In block order, all but the last flashblock are in block order.
proof fn lemma_order_of_fewer(flashblocks: Seq<Arc<Flashblock>>)
    requires
        in_block_order(flashblocks),
        flashblocks.len() > 0,
    ensures
        in_block_order(flashblocks.drop_last()),
{
    let fewer = flashblocks.drop_last();
    assert forall|i: int, j: int| 0 <= i <= j < fewer.len() implies (
    #[trigger] fewer[i]).metadata.block_number <= (
    #[trigger] fewer[j]).metadata.block_number by {
        assert(fewer[i] == flashblocks[i] && fewer[j] == flashblocks[j]);
    }
}

/// In block order, where the last flashblock is not of a block that none is beyond, none is of it.
proof fn lemma_last_before_block(flashblocks: Seq<Arc<Flashblock>>, number: u64)
    requires
        in_block_order(flashblocks),
        none_beyond(flashblocks, number),
        flashblocks.len() > 0 ==> flashblocks.last().metadata.block_number != number,
    ensures
        flashblocks_of(flashblocks, number) == Seq::<Arc<Flashblock>>::empty(),
        flashblocks_beside(flashblocks, number) == flashblocks,
{
    assert forall|k: int| 0 <= k < flashblocks.len() implies (
    #[trigger] flashblocks[k]).metadata.block_number != number by {
        assert(flashblocks[k].metadata.block_number <= flashblocks[flashblocks.len()
            - 1].metadata.block_number);
    }
    lemma_none_of_block(flashblocks, number);
}

/// In block order, the flashblocks of the last block stand at the end.
proof fn lemma_last_block_at_end(flashblocks: Seq<Arc<Flashblock>>, number: u64)
    requires
        in_block_order(flashblocks),
        none_beyond(flashblocks, number),
    ensures
        flashblocks == joined(
            flashblocks_beside(flashblocks, number),
            flashblocks_of(flashblocks, number),
        ),
        in_block_order(flashblocks_beside(flashblocks, number)),
    decreases flashblocks.len(),
{
    if flashblocks.len() == 0 || flashblocks.last().metadata.block_number != number {
        lemma_last_before_block(flashblocks, number);
        lemma_joined_empty(flashblocks);
    } else {
        let fewer = flashblocks.drop_last();
        let last = flashblocks.last();
        lemma_order_of_fewer(flashblocks);
        assert(none_beyond(fewer, number)) by {
            assert forall|k: int| 0 <= k < fewer.len() implies (
            #[trigger] fewer[k]).metadata.block_number <= number by {
                assert(fewer[k] == flashblocks[k]);
            }
        }
        lemma_last_block_at_end(fewer, number);
        let beside = flashblocks_beside(fewer, number);
        let of = flashblocks_of(fewer, number);
        assert(flashblocks == fewer.push(last));
        lemma_push_of_block(fewer, last, number);
        lemma_joined_push(beside, of, last);
    }
}

/// No flashblock is of a block beyond that of the last group.
proof fn lemma_last_group_is_latest(
    groups: Seq<Seq<Arc<Flashblock>>>,
    flashblocks: Seq<Arc<Flashblock>>,
)
    requires
        is_grouping(groups, flashblocks),
        groups.len() > 0,
    ensures
        none_beyond(flashblocks, number_of(groups.last())),
{
    assert forall|k: int| 0 <= k < flashblocks.len() implies (
    #[trigger] flashblocks[k]).metadata.block_number <= number_of(groups.last()) by {
        assert(has_group(groups, flashblocks[k].metadata.block_number));
        let i = choose|i: int|
            0 <= i < groups.len() && number_of(#[trigger] groups[i])
                == flashblocks[k].metadata.block_number;
        assert(i < groups.len() - 1 ==> number_of(groups[i]) < number_of(groups[groups.len() - 1]));
    }
}

/// Flashblocks that come in block order keep their order when they are grouped.
pub proof fn law_grouping_keeps_order(
    groups: Seq<Seq<Arc<Flashblock>>>,
    flashblocks: Seq<Arc<Flashblock>>,
)
    requires
        is_grouping(groups, flashblocks),
        in_block_order(flashblocks),
    ensures
        groups.flatten() == flashblocks,
    decreases groups.len(),
{
    if groups.len() == 0 {
        if flashblocks.len() > 0 {
            assert(has_group(groups, flashblocks[0].metadata.block_number));
        }
        assert(groups.flatten() =~= flashblocks);
    } else {
        let number = number_of(groups.last());
        let fewer = groups.drop_last();
        lemma_last_group_is_latest(groups, flashblocks);
        lemma_last_block_at_end(flashblocks, number);
        lemma_drop_group(groups, flashblocks);
        law_grouping_keeps_order(fewer, flashblocks_beside(flashblocks, number));
        assert(groups[groups.len() - 1] == flashblocks_of(flashblocks, number));
        assert(groups =~= fewer.push(groups.last()));
        lemma_joined_flatten(fewer, groups.last());
    }
}

/// Flashblocks in block order, and after them flashblocks of a later block, are in block order.
proof fn lemma_join_in_order(
    earlier: Seq<Arc<Flashblock>>,
    later: Seq<Arc<Flashblock>>,
    number: u64,
)
    requires
        in_block_order(earlier),
        none_beyond(earlier, number),
        forall|k: int|
            0 <= k < later.len() ==> (#[trigger] later[k]).metadata.block_number == number,
    ensures
        in_block_order(earlier + later),
        none_beyond(earlier + later, number),
{
    let all = earlier + later;
    assert forall|k: int| 0 <= k < all.len() implies (#[trigger] all[k]).metadata.block_number
        <= number by {
        if k < earlier.len() {
            assert(all[k] == earlier[k]);
        } else {
            assert(all[k] == later[k - earlier.len()]);
        }
    }
    assert forall|i: int, j: int| 0 <= i <= j < all.len() implies (
    #[trigger] all[i]).metadata.block_number <= (#[trigger] all[j]).metadata.block_number by {
        if j < earlier.len() {
            assert(all[i] == earlier[i] && all[j] == earlier[j]);
        } else {
            assert(all[j] == later[j - earlier.len()]);
        }
    }
}

/// The flashblocks of a group are of its block.
pub(crate) proof fn lemma_members_of_group(
    groups: Seq<Seq<Arc<Flashblock>>>,
    flashblocks: Seq<Arc<Flashblock>>,
    i: int,
)
    requires
        is_grouping(groups, flashblocks),
        0 <= i < groups.len(),
    ensures
        forall|k: int|
            0 <= k < groups[i].len() ==> (#[trigger] groups[i][k]).metadata.block_number
                == number_of(groups[i]),
{
    let number = number_of(groups[i]);
    assert forall|k: int| 0 <= k < groups[i].len() implies (
    #[trigger] groups[i][k]).metadata.block_number == number by {
        flashblocks.lemma_filter_pred(
            |flashblock: Arc<Flashblock>| flashblock.metadata.block_number == number,
            k,
        );
    }
}

/// Whatever order flashblocks come in, once grouped they are in block order.
pub proof fn law_grouped_is_in_order(
    groups: Seq<Seq<Arc<Flashblock>>>,
    flashblocks: Seq<Arc<Flashblock>>,
)
    requires
        is_grouping(groups, flashblocks),
    ensures
        in_block_order(groups.flatten()),
{
    if groups.len() > 0 {
        lemma_grouped_is_in_order(groups, flashblocks);
    }
}

/// Once grouped, flashblocks are in block order, and none is beyond the last group.
proof fn lemma_grouped_is_in_order(
    groups: Seq<Seq<Arc<Flashblock>>>,
    flashblocks: Seq<Arc<Flashblock>>,
)
    requires
        is_grouping(groups, flashblocks),
        groups.len() > 0,
    ensures
        in_block_order(groups.flatten()),
        none_beyond(groups.flatten(), number_of(groups.last())),
    decreases groups.len(),
{
    let fewer = groups.drop_last();
    let number = number_of(groups.last());
    lemma_drop_group(groups, flashblocks);
    if fewer.len() > 0 {
        lemma_grouped_is_in_order(fewer, flashblocks_beside(flashblocks, number));
        assert(number_of(groups[groups.len() - 2]) < number_of(groups[groups.len() - 1]));
    }
    lemma_members_of_group(groups, flashblocks, groups.len() - 1);
    lemma_join_in_order(fewer.flatten(), groups.last(), number);
    assert(groups =~= fewer.push(groups.last()));
    fewer.lemma_flatten_push(groups.last());
}

/// The last flashblock of all is the last one of the last group.
pub(crate) proof fn lemma_last_of_flatten(groups: Seq<Seq<Arc<Flashblock>>>)
    requires
        groups.len() > 0,
        groups.last().len() > 0,
    ensures
        groups.flatten().last() == groups.last().last(),
{
    let rest = groups.drop_last();
    assert(groups =~= rest.push(groups.last()));
    rest.lemma_flatten_push(groups.last());
}

/// Each group is of the block of some flashblock.
proof fn lemma_group_has_member(
    groups: Seq<Seq<Arc<Flashblock>>>,
    flashblocks: Seq<Arc<Flashblock>>,
    i: int,
) -> (k: int)
    requires
        is_grouping(groups, flashblocks),
        0 <= i < groups.len(),
    ensures
        0 <= k < flashblocks.len(),
        flashblocks[k].metadata.block_number == number_of(groups[i]),
{
    let number = number_of(groups[i]);
    let of = |flashblock: Arc<Flashblock>| flashblock.metadata.block_number == number;
    assert(groups[i] == flashblocks.filter(of));
    flashblocks.lemma_filter_contains_rev(of, groups[i][0]);
    choose|k: int| 0 <= k < flashblocks.len() && flashblocks[k] == groups[i][0]
}

/// The first group is of the earliest block: no flashblock is of one before it, and some flashblock
/// is of it.
pub proof fn law_first_group_is_earliest(
    groups: Seq<Seq<Arc<Flashblock>>>,
    flashblocks: Seq<Arc<Flashblock>>,
) -> (k: int)
    requires
        is_grouping(groups, flashblocks),
        groups.len() > 0,
    ensures
        0 <= k < flashblocks.len(),
        flashblocks[k].metadata.block_number == groups[0][0].metadata.block_number,
        forall|j: int|
            0 <= j < flashblocks.len() ==> (#[trigger] flashblocks[j]).metadata.block_number
                >= groups[0][0].metadata.block_number,
{
    assert forall|j: int| 0 <= j < flashblocks.len() implies (
    #[trigger] flashblocks[j]).metadata.block_number >= number_of(groups[0]) by {
        assert(has_group(groups, flashblocks[j].metadata.block_number));
        let i = choose|i: int|
            0 <= i < groups.len() && number_of(#[trigger] groups[i])
                == flashblocks[j].metadata.block_number;
        assert(0 < i ==> number_of(groups[0]) < number_of(groups[i]));
    }
    lemma_group_has_member(groups, flashblocks, 0)
}

/// There is but one way to group flashblocks.
pub proof fn law_grouping_is_unique(
    groups: Seq<Seq<Arc<Flashblock>>>,
    others: Seq<Seq<Arc<Flashblock>>>,
    flashblocks: Seq<Arc<Flashblock>>,
)
    requires
        is_grouping(groups, flashblocks),
        is_grouping(others, flashblocks),
    ensures
        groups == others,
    decreases groups.len(),
{
    if groups.len() == 0 || others.len() == 0 {
        if groups.len() > 0 {
            let k = lemma_group_has_member(groups, flashblocks, 0);
            assert(has_group(others, flashblocks[k].metadata.block_number));
        }
        if others.len() > 0 {
            let k = lemma_group_has_member(others, flashblocks, 0);
            assert(has_group(groups, flashblocks[k].metadata.block_number));
        }
        assert(groups =~= others);
    } else {
        let number = number_of(groups.last());
        lemma_last_group_is_latest(groups, flashblocks);
        lemma_last_group_is_latest(others, flashblocks);
        let k = lemma_group_has_member(groups, flashblocks, groups.len() - 1);
        let m = lemma_group_has_member(others, flashblocks, others.len() - 1);
        assert(flashblocks[k].metadata.block_number <= number_of(others.last()));
        assert(flashblocks[m].metadata.block_number <= number_of(groups.last()));
        lemma_drop_group(groups, flashblocks);
        lemma_drop_group(others, flashblocks);
        law_grouping_is_unique(
            groups.drop_last(),
            others.drop_last(),
            flashblocks_beside(flashblocks, number),
        );
        assert(groups[groups.len() - 1] == flashblocks_of(flashblocks, number));
        assert(others[others.len() - 1] == flashblocks_of(flashblocks, number));
        assert(groups =~= groups.drop_last().push(groups.last()));
        assert(others =~= others.drop_last().push(others.last()));
    }
}

/// Grouping takes each flashblock in once, puts those of one block in one group, in the order in
/// which they came, and the groups in the order of their blocks.
pub proof fn law_groups_are_made(
    flashblocks: &Vec<Arc<Flashblock>>,
    groups: Vec<Vec<Arc<Flashblock>>>,
    i: int,
)
    requires
        call_ensures(group_by_block, (flashblocks,), groups),
    ensures
        groups_of(groups@).flatten().to_multiset() == flashblocks@.to_multiset(),
        0 <= i < groups@.len() ==> {
            let number = groups@[i]@[0].metadata.block_number;
            &&& groups@[i]@.len() > 0
            &&& groups@[i]@ == flashblocks@.filter(
                |flashblock: Arc<Flashblock>| flashblock.metadata.block_number == number,
            )
            &&& i > 0 ==> groups@[i - 1]@[0].metadata.block_number < number
        },
{
    let made = groups_of(groups@);
    law_grouping_keeps_all(made, flashblocks@);
    if 0 <= i < groups@.len() {
        assert(made[i] == groups@[i]@);
        if i > 0 {
            assert(made[i - 1] == groups@[i - 1]@);
            assert(number_of(made[i - 1]) < number_of(made[i]));
        }
    }
}

} // verus!
