//! Values that can be compared and copied by their mathematical model.

use vstd::prelude::*;

verus! {

/// A value whose meaning is its deep view: two values are the same item exactly
/// when their deep views are equal, and a copy has the deep view of the value it was copied from.
pub trait Item: DeepView + Sized {
    /// Decides whether two values have the same model.
    fn same(&self, other: &Self) -> (b: bool)
        ensures
            b == (self.deep_view() == other.deep_view()),
    ;

    /// An independent value with the same model.
    fn copy(&self) -> (c: Self)
        ensures
            c.deep_view() == self.deep_view(),
    ;
}

impl Item for bool {
    fn same(&self, other: &Self) -> (b: bool) {
        *self == *other
    }

    fn copy(&self) -> (c: Self) {
        *self
    }
}

impl Item for u8 {
    fn same(&self, other: &Self) -> (b: bool) {
        *self == *other
    }

    fn copy(&self) -> (c: Self) {
        *self
    }
}

impl Item for u32 {
    fn same(&self, other: &Self) -> (b: bool) {
        *self == *other
    }

    fn copy(&self) -> (c: Self) {
        *self
    }
}

impl Item for u64 {
    fn same(&self, other: &Self) -> (b: bool) {
        *self == *other
    }

    fn copy(&self) -> (c: Self) {
        *self
    }
}

impl Item for String {
    fn same(&self, other: &Self) -> (b: bool) {
        *self == *other
    }

    fn copy(&self) -> (c: Self) {
        self.clone()
    }
}

impl<A: Item, B: Item> Item for (A, B) {
    fn same(&self, other: &Self) -> (b: bool) {
        self.0.same(&other.0) && self.1.same(&other.1)
    }

    fn copy(&self) -> (c: Self) {
        (self.0.copy(), self.1.copy())
    }
}

impl<T: Item> Item for Option<T> {
    fn same(&self, other: &Self) -> (b: bool) {
        match (self, other) {
            (Some(x), Some(y)) => x.same(y),
            (None, None) => true,
            _ => false,
        }
    }

    fn copy(&self) -> (c: Self) {
        match self {
            Some(x) => Some(x.copy()),
            None => None,
        }
    }
}

impl<T: Item> Item for Vec<T> {
    fn same(&self, other: &Self) -> (b: bool) {
        if self.len() != other.len() {
            return false;
        }
        let mut i: usize = 0;
        while i < self.len()
            invariant
                i <= self.len(),
                self.len() == other.len(),
                forall|j: int| 0 <= j < i ==> self[j].deep_view() == other[j].deep_view(),
            decreases self.len() - i,
        {
            if !self[i].same(&other[i]) {
                assert(self.deep_view()[i as int] != other.deep_view()[i as int]);
                return false;
            }
            i += 1;
        }
        assert(self.deep_view() =~= other.deep_view());
        true
    }

    fn copy(&self) -> (c: Self) {
        let mut out: Vec<T> = Vec::new();
        let mut i: usize = 0;
        while i < self.len()
            invariant
                i <= self.len(),
                out.len() == i,
                forall|j: int| 0 <= j < i ==> out[j].deep_view() == self[j].deep_view(),
            decreases self.len() - i,
        {
            out.push(self[i].copy());
            i += 1;
        }
        assert(out.deep_view() =~= self.deep_view());
        out
    }
}

} // verus!
