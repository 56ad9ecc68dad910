use vstd::prelude::*;

verus! {

/// The elements of `s` whose mark equals `keep`, in the order of `s`.
pub open spec fn select<T>(s: Seq<T>, marks: Seq<bool>, keep: bool) -> Seq<T>
    decreases s.len(),
{
    if s.len() == 0 || marks.len() != s.len() {
        Seq::empty()
    } else {
        let rest = select(s.drop_last(), marks.drop_last(), keep);
        if marks.last() == keep {
            rest.push(s.last())
        } else {
            rest
        }
    }
}

/// Splits `items` by `pred`: the first vector holds the items for which the
/// predicate is false, the second those for which it is true, each in the
/// order of `items`. The predicate is asked once per item.
pub fn partition<T, F: Fn(&T) -> bool>(items: Vec<T>, pred: F) -> (parts: (Vec<T>, Vec<T>))
    requires
        forall|i: int| 0 <= i < items@.len() ==> call_requires(pred, (&items@[i],)),
    ensures
        exists|marks: Seq<bool>|
            {
                &&& marks.len() == items@.len()
                &&& forall|i: int|
                    0 <= i < items@.len() ==> call_ensures(pred, (&items@[i],), #[trigger] marks[i])
                &&& parts.0@ == select(items@, marks, false)
                &&& parts.1@ == select(items@, marks, true)
            },
{
    let ghost all = items@;
    let mut rest = items;
    let mut left: Vec<T> = Vec::new();
    let mut right: Vec<T> = Vec::new();
    let ghost mut marks: Seq<bool> = Seq::empty();
    while rest.len() > 0
        invariant
            marks.len() <= all.len(),
            rest@ == all.skip(marks.len() as int),
            forall|i: int| 0 <= i < all.len() ==> call_requires(pred, (&all[i],)),
            forall|i: int|
                0 <= i < marks.len() ==> call_ensures(pred, (&all[i],), #[trigger] marks[i]),
            left@ == select(all.take(marks.len() as int), marks, false),
            right@ == select(all.take(marks.len() as int), marks, true),
        decreases rest@.len(),
    {
        let item = rest.remove(0);
        let ghost n = marks.len() as int;
        assert(item == all[n]);
        let b = pred(&item);
        proof {
            let t1 = all.take(n + 1);
            let m1 = marks.push(b);
            assert(t1.drop_last() =~= all.take(n));
            assert(m1.drop_last() =~= marks);
            assert(t1.last() == item);
        }
        if b {
            right.push(item);
        } else {
            left.push(item);
        }
        proof {
            marks = marks.push(b);
            assert(rest@ =~= all.skip(marks.len() as int));
        }
    }
    proof {
        assert(all.take(marks.len() as int) =~= all);
    }
    (left, right)
}

} // verus!
