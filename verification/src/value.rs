//! Values that are known by their views: copied and compared through them.
use crate::text::same_text;
use vstd::prelude::*;

verus! {

/// A value that can be copied and compared, and that its deep view describes fully.
pub trait Value: DeepView + Sized {
    /// A copy of the value.
    fn copied(&self) -> (result: Self)
        ensures
            result.deep_view() == self.deep_view(),
    ;

    /// Whether the two values have the same view.
    fn same(&self, other: &Self) -> (result: bool)
        ensures
            result == (self.deep_view() == other.deep_view()),
    ;
}

/// Adds an item at the end.
pub fn add_to<T: DeepView>(items: &mut Vec<T>, item: T)
    ensures
        final(items).deep_view() == old(items).deep_view().push(item.deep_view()),
        final(items).len() == old(items).len() + 1,
{
    let ghost before = items.deep_view();
    let ghost added = item.deep_view();
    items.push(item);
    assert(items.deep_view() =~= before.push(added));
}

/// A vector without items.
pub fn nothing<T: DeepView>() -> (result: Vec<T>)
    ensures
        result.deep_view() == Seq::<T::V>::empty(),
        result.len() == 0,
{
    let result: Vec<T> = Vec::new();
    assert(result.deep_view() =~= Seq::empty());
    result
}

/// A vector with one item.
pub fn single<T: DeepView>(item: T) -> (result: Vec<T>)
    ensures
        result.deep_view() == seq![item.deep_view()],
{
    let mut result: Vec<T> = nothing();
    add_to(&mut result, item);
    assert(result.deep_view() =~= seq![item.deep_view()]);
    result
}

impl Value for u64 {
    fn copied(&self) -> (result: Self) {
        *self
    }

    fn same(&self, other: &Self) -> (result: bool) {
        *self == *other
    }
}

impl Value for String {
    fn copied(&self) -> (result: Self) {
        self.clone()
    }

    fn same(&self, other: &Self) -> (result: bool) {
        same_text(self.as_str(), other.as_str())
    }
}

impl<T: Value> Value for Option<T> {
    fn copied(&self) -> (result: Self) {
        match self {
            Some(value) => Some(value.copied()),
            None => None,
        }
    }

    fn same(&self, other: &Self) -> (result: bool) {
        match (self, other) {
            (Some(a), Some(b)) => a.same(b),
            (None, None) => true,
            _ => false,
        }
    }
}

impl<T: Value> Value for Vec<T> {
    fn copied(&self) -> (result: Self) {
        let mut result: Vec<T> = Vec::new();
        let mut i: usize = 0;
        while i < self.len()
            invariant
                i <= self.len(),
                result.len() == i,
                forall|j: int| 0 <= j < i ==> (#[trigger] result@[j]).deep_view() == self@[j].deep_view(),
            decreases self.len() - i,
        {
            result.push(self[i].copied());
            i = i + 1;
        }
        assert(result.deep_view() =~= self.deep_view());
        result
    }

    fn same(&self, other: &Self) -> (result: bool) {
        if self.len() != other.len() {
            assert(self.deep_view().len() != other.deep_view().len());
            return false;
        }
        let mut i: usize = 0;
        while i < self.len()
            invariant
                i <= self.len(),
                self.len() == other.len(),
                forall|j: int| 0 <= j < i ==> (#[trigger] self@[j]).deep_view() == other@[j].deep_view(),
            decreases self.len() - i,
        {
            if !self[i].same(&other[i]) {
                assert(self.deep_view()[i as int] != other.deep_view()[i as int]);
                return false;
            }
            i = i + 1;
        }
        assert(self.deep_view() =~= other.deep_view());
        true
    }
}

impl Value for (String, u64) {
    fn copied(&self) -> (result: Self) {
        (self.0.copied(), self.1)
    }

    fn same(&self, other: &Self) -> (result: bool) {
        self.0.same(&other.0) && self.1 == other.1
    }
}

} // verus!
