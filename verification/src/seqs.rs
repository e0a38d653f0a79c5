//! Sequences of optional values.
use vstd::prelude::*;

verus! {

/// The values that are there, in order.
pub open spec fn present<T>(values: Seq<Option<T>>) -> Seq<T>
    decreases values.len(),
{
    if values.len() == 0 {
        Seq::empty()
    } else {
        let before = present(values.drop_last());
        match values.last() {
            Some(value) => before.push(value),
            None => before,
        }
    }
}

/// `present` of `values` with one more at the end.
pub proof fn lemma_present_push<T>(values: Seq<Option<T>>, value: Option<T>)
    ensures
        present(values.push(value)) == match value {
            Some(value) => present(values).push(value),
            None => present(values),
        },
{
    assert(values.push(value).drop_last() =~= values);
}

/// Of values in two parts, those that are there are those of the one and then those of the other. A
/// value that is there is kept as it is.
pub proof fn law_present<T>(first: Seq<Option<T>>, second: Seq<Option<T>>, value: T)
    ensures
        present(first + second) == present(first) + present(second),
        present(Seq::<Option<T>>::empty()) == Seq::<T>::empty(),
        present(seq![Some(value)]) == seq![value],
        present(seq![None::<T>]) == Seq::<T>::empty(),
    decreases second.len(),
{
    lemma_present_push(Seq::<Option<T>>::empty(), Some(value));
    lemma_present_push(Seq::<Option<T>>::empty(), None);
    assert(Seq::<Option<T>>::empty().push(Some(value)) =~= seq![Some(value)]);
    assert(Seq::<Option<T>>::empty().push(None) =~= seq![None::<T>]);
    assert(present(seq![Some(value)]) =~= seq![value]);
    if second.len() == 0 {
        assert(first + second =~= first);
        assert(present(first) + present(second) =~= present(first));
    } else {
        law_present(first, second.drop_last(), value);
        assert((first + second).drop_last() =~= first + second.drop_last());
        assert(present(first + second) =~= present(first) + present(second));
    }
}

} // verus!
