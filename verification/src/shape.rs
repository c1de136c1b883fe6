//! The shape of a parameter container, and the flattening of nested
//! containers.

use crate::scalar::is_zero;
use crate::{accepts2, zipped2, Parameters};
use num_traits::Float;
use vstd::prelude::*;

verus! {

/// How the scalars of a container are nested: a single scalar, or a sequence
/// of parts with a shape each. Two containers can stand in one elementwise
/// operation when their shapes are equal, that is when they have the same
/// length at every level of nesting.
pub enum Shape {
    Scalar,
    Sequence(Seq<Shape>),
}

/// The shapes of the items of a sequence of containers.
pub open spec fn shapes<T: Parameters>(items: Seq<T>) -> Seq<Shape> {
    Seq::new(items.len(), |k: int| items[k].shape())
}

/// The scalars of a sequence of containers: those of the first item, then
/// those of the second, and so on.
pub open spec fn concat<T: Parameters>(items: Seq<T>) -> Seq<T::Scalar>
    decreases items.len(),
{
    if items.len() == 0 {
        Seq::empty()
    } else {
        concat(items.drop_last()) + items.last().scalars()
    }
}

/// Two sequences of containers have the same shapes when they are of one
/// length and their items have the same shape at every index.
pub proof fn lemma_same_shapes<T: Parameters>(a: Seq<T>, b: Seq<T>)
    ensures
        shapes(a) == shapes(b) <==> a.len() == b.len() && forall|k: int|
            0 <= k < a.len() ==> (#[trigger] a[k]).shape() == b[k].shape(),
{
    assert(shapes(a).len() == a.len() && shapes(b).len() == b.len());
    if shapes(a) == shapes(b) {
        assert forall|k: int| 0 <= k < a.len() implies (#[trigger] a[k]).shape()
            == b[k].shape() by {
            assert(shapes(a)[k] == a[k].shape() && shapes(b)[k] == b[k].shape());
        }
    }
    if a.len() == b.len() && forall|k: int|
        0 <= k < a.len() ==> (#[trigger] a[k]).shape() == b[k].shape() {
        assert forall|k: int| 0 <= k < a.len() implies #[trigger] shapes(a)[k] == shapes(b)[k] by {
            assert(a[k].shape() == b[k].shape());
        }
        assert(shapes(a) =~= shapes(b));
    }
}

/// Dropping the last item of a sequence drops the last of its shapes.
proof fn lemma_shapes_drop_last<T: Parameters>(a: Seq<T>, b: Seq<T>)
    requires
        shapes(a) == shapes(b),
        a.len() > 0,
    ensures
        b.len() == a.len(),
        a.last().shape() == b.last().shape(),
        shapes(a.drop_last()) == shapes(b.drop_last()),
{
    lemma_same_shapes(a, b);
    lemma_same_shapes(a.drop_last(), b.drop_last());
    assert forall|k: int| 0 <= k < a.len() - 1 implies (#[trigger] a.drop_last()[k]).shape()
        == b.drop_last()[k].shape() by {
        assert(a[k].shape() == b[k].shape());
    }
}

/// Sequences of containers with the same shapes hold the same number of
/// scalars.
pub proof fn lemma_concat_count<T: Parameters>(a: Seq<T>, b: Seq<T>)
    requires
        shapes(a) == shapes(b),
    ensures
        concat(a).len() == concat(b).len(),
    decreases a.len(),
{
    lemma_same_shapes(a, b);
    if a.len() > 0 {
        lemma_shapes_drop_last(a, b);
        lemma_concat_count(a.drop_last(), b.drop_last());
        a.last().shape_fixes_count(&b.last());
    }
}

/// Where a function may be called at every position of the flattened
/// sequences, it may be called at every position of every item.
pub proof fn lemma_accepts2_items<T, F>(f: F, before: Seq<T>, arg1: Seq<T>, arg2: Seq<T>) where
    T: Parameters,
    F: Fn(&T::Scalar, &T::Scalar, &T::Scalar) -> T::Scalar,

    requires
        shapes(arg1) == shapes(before),
        shapes(arg2) == shapes(before),
        accepts2(f, concat(before), concat(arg1), concat(arg2)),
    ensures
        forall|k: int|
            0 <= k < before.len() ==> accepts2(
                f,
                (#[trigger] before[k]).scalars(),
                arg1[k].scalars(),
                arg2[k].scalars(),
            ),
    decreases before.len(),
{
    if before.len() > 0 {
        lemma_shapes_drop_last(before, arg1);
        lemma_shapes_drop_last(before, arg2);
        let (b, a1, a2) = (before.drop_last(), arg1.drop_last(), arg2.drop_last());
        let (lb, l1, l2) = (before.last().scalars(), arg1.last().scalars(), arg2.last().scalars());
        lemma_concat_count(b, a1);
        lemma_concat_count(b, a2);
        before.last().shape_fixes_count(&arg1.last());
        before.last().shape_fixes_count(&arg2.last());
        let offset = concat(b).len() as int;
        assert forall|i: int| 0 <= i < concat(b).len() implies f.requires(
            (&#[trigger] concat(b)[i], &concat(a1)[i], &concat(a2)[i]),
        ) by {
            assert(concat(before)[i] == concat(b)[i]);
            assert(concat(arg1)[i] == concat(a1)[i]);
            assert(concat(arg2)[i] == concat(a2)[i]);
        }
        lemma_accepts2_items(f, b, a1, a2);
        assert forall|j: int| 0 <= j < lb.len() implies f.requires(
            (&#[trigger] lb[j], &l1[j], &l2[j]),
        ) by {
            assert(concat(before)[offset + j] == lb[j]);
            assert(concat(arg1)[offset + j] == l1[j]);
            assert(concat(arg2)[offset + j] == l2[j]);
        }
        assert forall|k: int| 0 <= k < before.len() implies accepts2(
            f,
            (#[trigger] before[k]).scalars(),
            arg1[k].scalars(),
            arg2[k].scalars(),
        ) by {
            if k < before.len() - 1 {
                assert(before[k] == b[k] && arg1[k] == a1[k] && arg2[k] == a2[k]);
            }
        }
    }
}

/// Where every item was updated by a function position by position, the
/// flattened sequence was.
pub proof fn lemma_zipped2_concat<T, F>(
    f: F,
    before: Seq<T>,
    arg1: Seq<T>,
    arg2: Seq<T>,
    after: Seq<T>,
) where T: Parameters, F: Fn(&T::Scalar, &T::Scalar, &T::Scalar) -> T::Scalar
    requires
        shapes(arg1) == shapes(before),
        shapes(arg2) == shapes(before),
        shapes(after) == shapes(before),
        forall|k: int|
            0 <= k < before.len() ==> zipped2(
                f,
                before[k].scalars(),
                arg1[k].scalars(),
                arg2[k].scalars(),
                (#[trigger] after[k]).scalars(),
            ),
    ensures
        zipped2(f, concat(before), concat(arg1), concat(arg2), concat(after)),
    decreases before.len(),
{
    lemma_concat_count(after, before);
    if before.len() > 0 {
        lemma_shapes_drop_last(before, arg1);
        lemma_shapes_drop_last(before, arg2);
        lemma_shapes_drop_last(before, after);
        let (b, a1, a2, a) = (
            before.drop_last(),
            arg1.drop_last(),
            arg2.drop_last(),
            after.drop_last(),
        );
        lemma_concat_count(b, a1);
        lemma_concat_count(b, a2);
        lemma_concat_count(b, a);
        before.last().shape_fixes_count(&arg1.last());
        before.last().shape_fixes_count(&arg2.last());
        assert forall|k: int| 0 <= k < b.len() implies zipped2(
            f,
            b[k].scalars(),
            a1[k].scalars(),
            a2[k].scalars(),
            (#[trigger] a[k]).scalars(),
        ) by {
            assert(after[k] == a[k]);
        }
        lemma_zipped2_concat(f, b, a1, a2, a);
        let offset = concat(b).len() as int;
        let (lb, l1, l2, la) = (
            before.last().scalars(),
            arg1.last().scalars(),
            arg2.last().scalars(),
            after.last().scalars(),
        );
        assert(zipped2(f, lb, l1, l2, la)) by {
            assert(after[before.len() - 1] == after.last());
        }
        assert forall|i: int| 0 <= i < concat(before).len() implies f.ensures(
            (&concat(before)[i], &concat(arg1)[i], &concat(arg2)[i]),
            #[trigger] concat(after)[i],
        ) by {
            if i < offset {
                assert(concat(after)[i] == concat(a)[i]);
            } else {
                assert(concat(after)[i] == la[i - offset]);
            }
        }
    }
}

/// Every scalar of every item is zero.
pub open spec fn all_zero<T: Parameters>(items: Seq<T>) -> bool where T::Scalar: Float {
    forall|k: int, j: int|
        0 <= k < items.len() && 0 <= j < items[k].scalars().len() ==> is_zero(
            #[trigger] items[k].scalars()[j],
        )
}

/// Where every scalar of every item is zero, every scalar of the flattened
/// sequence is.
pub proof fn lemma_zero_concat<T: Parameters>(items: Seq<T>) where T::Scalar: Float
    requires
        all_zero(items),
    ensures
        forall|i: int| 0 <= i < concat(items).len() ==> is_zero(#[trigger] concat(items)[i]),
    decreases items.len(),
{
    if items.len() > 0 {
        let front = items.drop_last();
        assert(all_zero(front)) by {
            assert forall|k: int, j: int|
                0 <= k < front.len() && 0 <= j < front[k].scalars().len() implies is_zero(
                #[trigger] front[k].scalars()[j],
            ) by {
                assert(front[k] == items[k]);
            }
        }
        lemma_zero_concat(front);
        let offset = concat(front).len() as int;
        assert forall|i: int| 0 <= i < concat(items).len() implies is_zero(
            #[trigger] concat(items)[i],
        ) by {
            if i < offset {
                assert(concat(items)[i] == concat(front)[i]);
            } else {
                assert(concat(items)[i] == items[items.len() - 1].scalars()[i - offset]);
            }
        }
    }
}

} // verus!
