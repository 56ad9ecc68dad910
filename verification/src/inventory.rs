use vstd::prelude::*;
use crate::combat::{EquippedModules, WeaponModuleKind};
use vstd::multiset::Multiset;

verus! {

broadcast use vstd::multiset::group_multiset_axioms;

/// The modules an inventory edit works on: the equip grid and the
/// unequipped list.
pub struct InventoryUpdateData {
    pub equipped_modules: EquippedModules,
    pub unequipped_modules: Vec<WeaponModuleKind>,
}

/// The module held in hand, as a multiset of zero or one element.
pub open spec fn held_multiset(held: Option<WeaponModuleKind>) -> Multiset<WeaponModuleKind> {
    match held {
        Some(k) => Multiset::singleton(k),
        None => Multiset::empty(),
    }
}

/// The module held in hand, as a sequence of zero or one element.
pub open spec fn held_seq(held: Option<WeaponModuleKind>) -> Seq<WeaponModuleKind> {
    match held {
        Some(k) => seq![k],
        None => Seq::empty(),
    }
}

/// The modules of a list, counted with multiplicity.
pub open spec fn modules_multiset(s: Seq<WeaponModuleKind>) -> Multiset<WeaponModuleKind>
    decreases s.len(),
{
    if s.len() == 0 {
        Multiset::empty()
    } else {
        modules_multiset(s.drop_last()).add(Multiset::singleton(s.last()))
    }
}

/// The modules standing in the cells of a grid, counted with multiplicity.
pub open spec fn grid_multiset(g: Seq<Option<WeaponModuleKind>>) -> Multiset<WeaponModuleKind>
    decreases g.len(),
{
    if g.len() == 0 {
        Multiset::empty()
    } else {
        grid_multiset(g.drop_last()).add(held_multiset(g.last()))
    }
}

/// Every module of an inventory edit: on the grid, in the list and in hand.
pub open spec fn inventory_multiset(
    grid: Seq<Option<WeaponModuleKind>>,
    unequipped: Seq<WeaponModuleKind>,
    held: Option<WeaponModuleKind>,
) -> Multiset<WeaponModuleKind> {
    grid_multiset(grid).add(modules_multiset(unequipped)).add(held_multiset(held))
}

/// The multiset of a concatenation is the sum of the multisets.
pub proof fn lemma_modules_multiset_concat(a: Seq<WeaponModuleKind>, b: Seq<WeaponModuleKind>)
    ensures
        modules_multiset(a + b) =~= modules_multiset(a).add(modules_multiset(b)),
    decreases b.len(),
{
    if b.len() == 0 {
        assert(a + b =~= a);
    } else {
        assert((a + b).drop_last() =~= a + b.drop_last());
        assert((a + b).last() == b.last());
        lemma_modules_multiset_concat(a, b.drop_last());
    }
}

/// The multiset of the zero-or-one-element list of the hand.
pub proof fn lemma_held_seq_multiset(held: Option<WeaponModuleKind>)
    ensures
        modules_multiset(held_seq(held)) =~= held_multiset(held),
{
    let e = Seq::<WeaponModuleKind>::empty();
    assert(modules_multiset(e) == Multiset::<WeaponModuleKind>::empty());
    if let Some(k) = held {
        assert(held_seq(held).drop_last() =~= e);
        assert(held_seq(held).last() == k);
    }
}

/// Overwriting one cell of the grid trades its old content for the new.
pub proof fn lemma_grid_multiset_update(
    g: Seq<Option<WeaponModuleKind>>,
    i: int,
    cell: Option<WeaponModuleKind>,
)
    requires
        0 <= i < g.len(),
    ensures
        grid_multiset(g.update(i, cell)).add(held_multiset(g[i])) =~= grid_multiset(g).add(
            held_multiset(cell),
        ),
    decreases g.len(),
{
    let u = g.update(i, cell);
    if i == g.len() - 1 {
        assert(u.drop_last() =~= g.drop_last());
        assert(u.last() == cell);
        assert(g.last() == g[i]);
    } else {
        assert(u.drop_last() =~= g.drop_last().update(i, cell));
        assert(u.last() == g.last());
        assert(g.drop_last()[i] == g[i]);
        lemma_grid_multiset_update(g.drop_last(), i, cell);
    }
    assert(grid_multiset(u) == grid_multiset(u.drop_last()).add(held_multiset(u.last())));
    assert(grid_multiset(g) == grid_multiset(g.drop_last()).add(held_multiset(g.last())));
    assert forall|v: WeaponModuleKind|
        #[trigger] grid_multiset(u).add(held_multiset(g[i])).count(v) == grid_multiset(g).add(
            held_multiset(cell),
        ).count(v) by {
        if i != g.len() - 1 {
            assert(grid_multiset(g.drop_last().update(i, cell)).add(
                held_multiset(g.drop_last()[i]),
            ).count(v) == grid_multiset(g.drop_last()).add(held_multiset(cell)).count(v));
        }
    }
}

/// Replacing the element at `i` of a list by the hand's content (dropping it
/// when the hand is empty) trades the element for the hand.
pub proof fn lemma_modules_multiset_replace(
    s: Seq<WeaponModuleKind>,
    i: int,
    held: Option<WeaponModuleKind>,
)
    requires
        0 <= i < s.len(),
    ensures
        modules_multiset(s.take(i) + held_seq(held) + s.skip(i + 1)).add(
            Multiset::singleton(s[i]),
        ) =~= modules_multiset(s).add(held_multiset(held)),
{
    let a = s.take(i);
    let b = s.skip(i + 1);
    assert(s =~= a + seq![s[i]] + b);
    lemma_modules_multiset_concat(a + held_seq(held), b);
    lemma_modules_multiset_concat(a, held_seq(held));
    lemma_modules_multiset_concat(a + seq![s[i]], b);
    lemma_modules_multiset_concat(a, seq![s[i]]);
    lemma_held_seq_multiset(held);
    lemma_held_seq_multiset(Some(s[i]));
    assert(held_seq(Some(s[i])) =~= seq![s[i]]);
}

/// A copy of a list of modules.
pub fn copy_modules(modules: &Vec<WeaponModuleKind>) -> (copy: Vec<WeaponModuleKind>)
    ensures
        copy@ == modules@,
{
    let mut copy: Vec<WeaponModuleKind> = Vec::new();
    let mut i: usize = 0;
    while i < modules.len()
        invariant
            i <= modules@.len(),
            copy@ == modules@.take(i as int),
        decreases modules@.len() - i,
    {
        copy.push(modules[i]);
        i = i + 1;
        proof {
            assert(copy@ =~= modules@.take(i as int));
        }
    }
    proof {
        assert(modules@.take(i as int) =~= modules@);
    }
    copy
}

/// The list with the hand's content, if any, added at the end.
pub fn append_held(modules: &Vec<WeaponModuleKind>, held: Option<WeaponModuleKind>) -> (list: Vec<
    WeaponModuleKind,
>)
    ensures
        list@ == modules@ + held_seq(held),
{
    let mut list = copy_modules(modules);
    if let Some(k) = held {
        list.push(k);
    }
    proof {
        assert(list@ =~= modules@ + held_seq(held));
    }
    list
}

/// The list with the element at `index` replaced by the hand's content, or
/// removed when the hand is empty.
pub fn replace_with_held(
    modules: &Vec<WeaponModuleKind>,
    index: usize,
    held: Option<WeaponModuleKind>,
) -> (list: Vec<WeaponModuleKind>)
    requires
        index < modules@.len(),
    ensures
        list@ == modules@.take(index as int) + held_seq(held) + modules@.skip(index + 1),
{
    let mut list: Vec<WeaponModuleKind> = Vec::new();
    let mut i: usize = 0;
    while i < modules.len()
        invariant
            i <= modules@.len(),
            index < modules@.len(),
            i <= index ==> list@ == modules@.take(i as int),
            i > index ==> list@ == modules@.take(index as int) + held_seq(held) + modules@.subrange(
                index + 1,
                i as int,
            ),
        decreases modules@.len() - i,
    {
        if i == index {
            if let Some(k) = held {
                list.push(k);
            }
        } else {
            list.push(modules[i]);
        }
        i = i + 1;
        proof {
            if i <= index {
                assert(list@ =~= modules@.take(i as int));
            } else {
                assert(list@ =~= modules@.take(index as int) + held_seq(held) + modules@.subrange(
                    index + 1,
                    i as int,
                ));
            }
        }
    }
    proof {
        assert(modules@.subrange(index + 1, i as int) =~= modules@.skip(index + 1));
    }
    list
}


/// A list has as many modules as elements.
pub proof fn lemma_modules_multiset_len(s: Seq<WeaponModuleKind>)
    ensures
        modules_multiset(s).len() == s.len(),
    decreases s.len(),
{
    if s.len() > 0 {
        lemma_modules_multiset_len(s.drop_last());
    }
}

/// The unequipped list is no longer than the whole inventory.
pub proof fn lemma_list_len_within_inventory(
    grid: Seq<Option<WeaponModuleKind>>,
    unequipped: Seq<WeaponModuleKind>,
    held: Option<WeaponModuleKind>,
)
    ensures
        unequipped.len() <= inventory_multiset(grid, unequipped, held).len(),
{
    lemma_modules_multiset_len(unequipped);
}

} // verus!
