//! Copying and comparing values by what they hold.

use std::sync::Arc;
use vstd::prelude::*;

verus! {

/// A value that is nothing but its contents.
///
/// Two values are the same when their models are, whatever memory they live
/// in, and a duplicate has the model of what it was made from.
pub trait Value: DeepView + Sized {
    /// A second value with the same contents.
    fn dup(&self) -> (copy: Self)
        ensures
            copy.deep_view() == self.deep_view(),
    ;

    /// Whether two values hold the same contents.
    fn same(&self, other: &Self) -> (equal: bool)
        ensures
            equal == (self.deep_view() == other.deep_view()),
    ;
}

impl Value for String {
    fn dup(&self) -> (copy: Self) {
        self.clone()
    }

    fn same(&self, other: &Self) -> (equal: bool) {
        *self == *other
    }
}

impl Value for bool {
    fn dup(&self) -> (copy: Self) {
        *self
    }

    fn same(&self, other: &Self) -> (equal: bool) {
        *self == *other
    }
}

impl Value for u16 {
    fn dup(&self) -> (copy: Self) {
        *self
    }

    fn same(&self, other: &Self) -> (equal: bool) {
        *self == *other
    }
}

impl Value for i32 {
    fn dup(&self) -> (copy: Self) {
        *self
    }

    fn same(&self, other: &Self) -> (equal: bool) {
        *self == *other
    }
}

impl Value for usize {
    fn dup(&self) -> (copy: Self) {
        *self
    }

    fn same(&self, other: &Self) -> (equal: bool) {
        *self == *other
    }
}

impl Value for u32 {
    fn dup(&self) -> (copy: Self) {
        *self
    }

    fn same(&self, other: &Self) -> (equal: bool) {
        *self == *other
    }
}

impl Value for u64 {
    fn dup(&self) -> (copy: Self) {
        *self
    }

    fn same(&self, other: &Self) -> (equal: bool) {
        *self == *other
    }
}

impl Value for i64 {
    fn dup(&self) -> (copy: Self) {
        *self
    }

    fn same(&self, other: &Self) -> (equal: bool) {
        *self == *other
    }
}

impl<T: Value> Value for Option<T> {
    fn dup(&self) -> (copy: Self) {
        match self {
            Some(held) => Some(held.dup()),
            None => None,
        }
    }

    fn same(&self, other: &Self) -> (equal: bool) {
        match (self, other) {
            (Some(left), Some(right)) => left.same(right),
            (None, None) => true,
            _ => false,
        }
    }
}

impl<T: Value> Value for Arc<T> {
    fn dup(&self) -> (copy: Self) {
        Arc::clone(self)
    }

    fn same(&self, other: &Self) -> (equal: bool) {
        (**self).same(&**other)
    }
}

impl<A: Value, B: Value> Value for (A, B) {
    fn dup(&self) -> (copy: Self) {
        (self.0.dup(), self.1.dup())
    }

    fn same(&self, other: &Self) -> (equal: bool) {
        self.0.same(&other.0) && self.1.same(&other.1)
    }
}

impl<T: Value> Value for Vec<T> {
    fn dup(&self) -> (copy: Self) {
        let mut copy: Vec<T> = Vec::new();
        let mut at: usize = 0;
        while at < self.len()
            invariant
                at <= self.len(),
                copy.len() == at,
                forall|i: int| 0 <= i < at ==> (#[trigger] copy[i]).deep_view() == self[i].deep_view(),
            decreases self.len() - at,
        {
            copy.push(self[at].dup());
            at += 1;
        }
        assert(copy.deep_view() =~= self.deep_view());
        copy
    }

    fn same(&self, other: &Self) -> (equal: bool) {
        if self.len() != other.len() {
            assert(self.deep_view().len() != other.deep_view().len());
            return false;
        }
        let mut at: usize = 0;
        while at < self.len()
            invariant
                at <= self.len(),
                self.len() == other.len(),
                forall|i: int| 0 <= i < at ==> (#[trigger] self[i]).deep_view() == other[i].deep_view(),
            decreases self.len() - at,
        {
            if !self[at].same(&other[at]) {
                assert(self.deep_view()[at as int] != other.deep_view()[at as int]);
                return false;
            }
            at += 1;
        }
        assert(self.deep_view() =~= other.deep_view());
        true
    }
}

} // verus!
