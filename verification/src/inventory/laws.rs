use vstd::multiset::Multiset;
use vstd::prelude::*;
use vstd::seq_lib::commutative_foldl;
use vstd::seq_lib::lemma_fold_left_permutation;
use vstd::seq_lib::lemma_multiset_commutative;
use vstd::seq_lib::to_multiset_len;

use crate::attribute::laws::lemma_folded_is_order_independent;
use crate::attribute::Attribute;
use crate::attribute::Modifier;
use crate::inventory::model::all_decayed;
use crate::inventory::model::consumed;
use crate::inventory::model::count_of;
use crate::inventory::model::decayed;
use crate::inventory::model::kept;
use crate::inventory::model::matching;
use crate::inventory::model::pruned;
use crate::inventory::model::recharged;
use crate::inventory::model::recharged_by;
use crate::inventory::model::total_of;
use crate::item::Item;
use crate::item_base::Category;
use crate::keyed::distinct_ids;
use crate::keyed::held;
use crate::keyed::holds;
use crate::keyed::lemma_place_of;
use crate::keyed::place_of;

verus! {

/// Counting with one more item.
pub proof fn lemma_count_of_push(items: Seq<Item>, item: Item, category: Category)
    ensures
        count_of(items.push(item), category) == count_of(items, category) + if item.base.category
            == category {
            1nat
        } else {
            0nat
        },
{
    items.lemma_filter_push(item, |item: Item| item.base.category == category);
}

/// Pruning with one more item.
pub proof fn lemma_pruned_push(items: Seq<Item>, item: Item)
    ensures
        pruned(items.push(item)) == if kept(item) {
            pruned(items).push(item)
        } else {
            pruned(items)
        },
{
    items.lemma_filter_push(item, |item: Item| kept(item));
}

/// Pruning drops items and changes none: what is left was there before,
/// in the same order, and the identifiers stay distinct.
pub proof fn lemma_pruned(items: Seq<Item>)
    requires
        distinct_ids(items),
    ensures
        distinct_ids(pruned(items)),
        forall|i: int| 0 <= i < pruned(items).len() ==> kept(#[trigger] pruned(items)[i]),
        forall|id: Seq<char>| #[trigger]
            holds(pruned(items), id) <==> holds(items, id) && kept(held(items, id)),
        forall|id: Seq<char>| #[trigger]
            holds(pruned(items), id) ==> held(pruned(items), id) == held(items, id),
    decreases items.len(),
{
    if items.len() == 0 {
        assert(pruned(items) =~= items) by {
            reveal(Seq::filter);
        }
    } else {
        let front = items.drop_last();
        let last = items.last();
        assert(items =~= front.push(last));
        lemma_pruned(front);
        lemma_pruned_push(front, last);
        let after = pruned(items);
        let before = pruned(front);
        assert forall|id: Seq<char>| #[trigger]
            holds(after, id) <==> holds(items, id) && kept(held(items, id)) by {
            if holds(after, id) {
                let q = place_of(after, id);
                if q < before.len() {
                    assert(before[q] == after[q]);
                    assert(holds(before, id));
                    let k = place_of(front, id);
                    assert(items[k] == front[k]);
                    lemma_place_of(items, k);
                    lemma_place_of(front, k);
                } else {
                    assert(after[q] == last);
                    lemma_place_of(items, items.len() - 1);
                }
            }
            if holds(items, id) && kept(held(items, id)) {
                let k = place_of(items, id);
                lemma_place_of(items, k);
                if k < front.len() {
                    assert(front[k] == items[k]);
                    lemma_place_of(front, k);
                    assert(holds(before, id));
                    let q = place_of(before, id);
                    assert(after[q] == before[q]);
                } else {
                    assert(after[after.len() - 1] == last);
                }
            }
        }
        assert forall|i: int, j: int| 0 <= i < j < after.len() implies after[i].id@
            != after[j].id@ by {
            if j < before.len() {
                assert(after[i] == before[i] && after[j] == before[j]);
            } else {
                assert(after[j] == last);
                assert(after[i] == before[i]);
                assert(holds(before, after[i].id@));
                let k = place_of(front, after[i].id@);
                assert(front[k] == items[k]);
                assert(items[k].id@ != items[items.len() - 1].id@);
            }
        }
        assert forall|id: Seq<char>| #[trigger] holds(after, id) implies held(after, id) == held(
            items,
            id,
        ) by {
            let q = place_of(after, id);
            lemma_place_of(after, q);
            if q < before.len() {
                assert(before[q] == after[q]);
                lemma_place_of(before, q);
                let k = place_of(front, id);
                assert(items[k] == front[k]);
                lemma_place_of(items, k);
                lemma_place_of(front, k);
            } else {
                assert(after[q] == last);
                lemma_place_of(items, items.len() - 1);
            }
        }
        assert forall|i: int| 0 <= i < after.len() implies kept(#[trigger] after[i]) by {
            if i < before.len() {
                assert(after[i] == before[i]);
            }
        }
    }
}

/// Wear changes durabilities only: every item stays where it is, under its
/// identifier.
pub proof fn lemma_decayed_keeps_ids(items: Seq<Item>)
    requires
        distinct_ids(items),
    ensures
        distinct_ids(all_decayed(items)),
        forall|id: Seq<char>| #[trigger]
            holds(all_decayed(items), id) <==> holds(items, id),
        forall|id: Seq<char>| #[trigger]
            holds(items, id) ==> held(all_decayed(items), id) == decayed(held(items, id)),
{
    let after = all_decayed(items);
    assert forall|i: int| 0 <= i < items.len() implies (#[trigger] after[i]).id == items[i].id by {}
    assert forall|i: int, j: int| 0 <= i < j < after.len() implies after[i].id@
        != after[j].id@ by {
        assert(after[i].id == items[i].id && after[j].id == items[j].id);
    }
    assert forall|id: Seq<char>| #[trigger] holds(after, id) <==> holds(items, id) by {
        if holds(after, id) {
            let q = place_of(after, id);
            assert(after[q].id == items[q].id);
        }
        if holds(items, id) {
            let q = place_of(items, id);
            assert(after[q].id == items[q].id);
        }
    }
    assert forall|id: Seq<char>| #[trigger] holds(items, id) implies held(after, id) == decayed(
        held(items, id),
    ) by {
        let q = place_of(items, id);
        assert(after[q].id == items[q].id);
        lemma_place_of(items, q);
        lemma_place_of(after, q);
    }
}

/// The matching attributes with one more item: those of the items before,
/// then those of its template.
pub proof fn lemma_matching_push(items: Seq<Item>, item: Item, modifier: Modifier)
    ensures
        matching(items.push(item), modifier) == matching(items, modifier)
            + item.base.attributes@.filter(|attribute: Attribute| attribute.modifier == modifier),
{
    items.lemma_flat_map_push(|item: Item| item.base.attributes@, item);
    Seq::filter_distributes_over_add(
        items.flat_map(|item: Item| item.base.attributes@),
        item.base.attributes@,
        |attribute: Attribute| attribute.modifier == modifier,
    );
}

/// Recharging with one more attribute.
pub proof fn lemma_recharged_push(
    durability: u32,
    base: u32,
    attributes: Seq<Attribute>,
    next: Attribute,
)
    ensures
        recharged(durability, base, attributes.push(next)) == recharged_by(
            recharged(durability, base, attributes),
            base,
            next,
        ),
{
    assert(attributes.push(next).drop_last() =~= attributes);
}

/// A rune never raises a durability above the base durability: after any
/// attributes the durability is at most the base durability, or it is what
/// it was.
pub proof fn lemma_recharged_is_capped(durability: u32, base: u32, attributes: Seq<Attribute>)
    ensures
        recharged(durability, base, attributes) <= base || recharged(durability, base, attributes)
            == durability,
        durability <= base ==> durability <= recharged(durability, base, attributes) <= base,
    decreases attributes.len(),
{
    if attributes.len() > 0 {
        lemma_recharged_is_capped(durability, base, attributes.drop_last());
        assert(attributes =~= attributes.drop_last().push(attributes.last()));
        lemma_recharged_push(durability, base, attributes.drop_last(), attributes.last());
    }
}

/// What one use of an inventory does to its items: the broken consumables
/// are gone, and every other item is still there, under its identifier,
/// after one use.
pub proof fn lemma_consumed(items: Seq<Item>)
    requires
        distinct_ids(items),
    ensures
        distinct_ids(consumed(items)),
        forall|id: Seq<char>| #[trigger]
            holds(consumed(items), id) <==> holds(items, id) && kept(held(items, id)),
        forall|id: Seq<char>| #[trigger]
            holds(consumed(items), id) ==> held(consumed(items), id) == decayed(held(items, id)),
{
    lemma_pruned(items);
    lemma_decayed_keeps_ids(pruned(items));
    assert forall|id: Seq<char>| #[trigger]
        holds(consumed(items), id) <==> holds(items, id) && kept(held(items, id)) by {
        assert(holds(all_decayed(pruned(items)), id) <==> holds(pruned(items), id));
    }
    assert forall|id: Seq<char>| #[trigger] holds(consumed(items), id) implies held(
        consumed(items),
        id,
    ) == decayed(held(items, id)) by {
        assert(holds(all_decayed(pruned(items)), id) <==> holds(pruned(items), id));
    }
}

/// A use of the inventory drops the broken consumables before anything
/// wears. So a consumable that is broken is gone after one use; one that is
/// not is still there, with one durability less; and one with a single
/// durability left is there after one use, with none left, and gone after
/// the next.
pub proof fn lemma_consume_prunes_before_decay(items: Seq<Item>, id: Seq<char>)
    requires
        distinct_ids(items),
        holds(items, id),
        held(items, id).base.category == Category::Consumable,
    ensures
        held(items, id).durability < 1 ==> !holds(consumed(items), id),
        held(items, id).durability >= 1 ==> holds(consumed(items), id) && held(
            consumed(items),
            id,
        ).durability == held(items, id).durability - 1,
        held(items, id).durability == 1 ==> holds(consumed(items), id) && held(
            consumed(items),
            id,
        ).durability == 0 && !holds(consumed(consumed(items)), id),
{
    lemma_consumed(items);
    lemma_consumed(consumed(items));
    assert(holds(consumed(items), id) <==> holds(items, id) && kept(held(items, id)));
    if held(items, id).durability >= 1 {
        assert(held(consumed(items), id) == decayed(held(items, id)));
        if held(items, id).durability == 1 {
            assert(holds(consumed(consumed(items)), id) <==> holds(consumed(items), id) && kept(
                held(consumed(items), id),
            ));
        }
    }
}

/// One more item on a count of the items of a category.
pub open spec fn counted(category: Category) -> spec_fn(nat, Item) -> nat {
    |count: nat, item: Item|
        if item.base.category == category {
            count + 1
        } else {
            count
        }
}

proof fn lemma_count_of_as_fold(items: Seq<Item>, category: Category)
    ensures
        count_of(items, category) == items.fold_left(0nat, counted(category)),
    decreases items.len(),
{
    if items.len() == 0 {
        assert(items.filter(|item: Item| item.base.category == category) =~= items) by {
            reveal(Seq::filter);
        }
    } else {
        lemma_count_of_as_fold(items.drop_last(), category);
        assert(items =~= items.drop_last().push(items.last()));
        lemma_count_of_push(items.drop_last(), items.last(), category);
    }
}

/// The number of items of a category does not depend on the order in which
/// the items are held.
pub proof fn lemma_count_is_order_independent(
    first: Seq<Item>,
    second: Seq<Item>,
    category: Category,
)
    requires
        first.to_multiset() == second.to_multiset(),
    ensures
        count_of(first, category) == count_of(second, category),
{
    lemma_count_of_as_fold(first, category);
    lemma_count_of_as_fold(second, category);
    assert(commutative_foldl(counted(category)));
    lemma_fold_left_permutation(first, second, counted(category), 0nat);
}

/// One more item on the attributes of kind `modifier` gathered so far,
/// whatever their order.
pub open spec fn gathered(modifier: Modifier) -> spec_fn(Multiset<Attribute>, Item) -> Multiset<
    Attribute,
> {
    |so_far: Multiset<Attribute>, item: Item|
        so_far.add(
            item.base.attributes@.filter(
                |attribute: Attribute| attribute.modifier == modifier,
            ).to_multiset(),
        )
}

proof fn lemma_matching_as_fold(items: Seq<Item>, modifier: Modifier)
    ensures
        matching(items, modifier).to_multiset() == items.fold_left(
            Multiset::<Attribute>::empty(),
            gathered(modifier),
        ),
    decreases items.len(),
{
    broadcast use vstd::seq_lib::group_to_multiset_ensures;

    if items.len() == 0 {
        assert(matching(items, modifier) =~= Seq::<Attribute>::empty()) by {
            reveal(Seq::filter);
            reveal_with_fuel(Seq::flatten, 2);
        }
        assert(Seq::<Attribute>::empty().to_multiset() =~= Multiset::<Attribute>::empty());
    } else {
        let front = items.drop_last();
        let last = items.last();
        lemma_matching_as_fold(front, modifier);
        assert(items =~= front.push(last));
        lemma_matching_push(front, last, modifier);
        lemma_multiset_commutative(
            matching(front, modifier),
            last.base.attributes@.filter(|attribute: Attribute| attribute.modifier == modifier),
        );
    }
}

/// The sum of the attributes of a kind does not depend on the order in
/// which the items are held.
pub proof fn lemma_total_is_order_independent(
    first: Seq<Item>,
    second: Seq<Item>,
    modifier: Modifier,
)
    requires
        first.to_multiset() == second.to_multiset(),
    ensures
        total_of(first, modifier) == total_of(second, modifier),
{
    lemma_matching_as_fold(first, modifier);
    lemma_matching_as_fold(second, modifier);
    assert(commutative_foldl(gathered(modifier))) by {
        assert forall|x: Item, y: Item, v: Multiset<Attribute>| #[trigger]
            gathered(modifier)(gathered(modifier)(v, x), y) == gathered(modifier)(
                gathered(modifier)(v, y),
                x,
            ) by {
            assert(gathered(modifier)(gathered(modifier)(v, x), y) =~= gathered(modifier)(
                gathered(modifier)(v, y),
                x,
            ));
        }
    }
    lemma_fold_left_permutation(
        first,
        second,
        gathered(modifier),
        Multiset::<Attribute>::empty(),
    );
    to_multiset_len(matching(first, modifier));
    to_multiset_len(matching(second, modifier));
    assert forall|i: int| 0 <= i < matching(first, modifier).len() implies (#[trigger] matching(
        first,
        modifier,
    )[i]).modifier == modifier by {
        first.flat_map(|item: Item| item.base.attributes@).lemma_filter_pred(
            |attribute: Attribute| attribute.modifier == modifier,
            i,
        );
    }
    lemma_folded_is_order_independent(
        matching(first, modifier),
        matching(second, modifier),
        modifier,
    );
}

} // verus!
