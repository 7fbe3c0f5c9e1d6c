use std::ops::Deref;
use vstd::prelude::*;
use vstd::std_specs::convert::FromSpecImpl;

verus! {

/// A fixed-length sequence of exactly `N` elements.
///
/// The wrapper owns a plain array and exposes it read-only through [`Deref`],
/// so every size can be handled by the same generic code.
#[derive(Eq, PartialEq, Debug, Copy, Clone, Hash)]
pub struct Array<T, const N: usize> {
    values: [T; N],
}

impl<T, const N: usize> View for Array<T, N> {
    type V = Seq<T>;

    /// The elements, in order.
    closed spec fn view(&self) -> Seq<T> {
        self.values@
    }
}

impl<T, const N: usize> Array<T, N> {
    /// The bounded sequence that holds exactly the elements of `values`.
    pub closed spec fn spec_wrap(values: [T; N]) -> Self {
        Array { values }
    }

    /// Takes ownership of `values`; the elements and their order are kept.
    pub fn wrap(values: [T; N]) -> (wrapped: Self)
        ensures
            wrapped == Self::spec_wrap(values),
            wrapped@ == values@,
            wrapped@.len() == N,
    {
        Self { values }
    }

    /// Gives the elements back as a plain array.
    pub fn into_inner(self) -> (values: [T; N])
        ensures
            values@ == self@,
            Self::spec_wrap(values) == self,
    {
        self.values
    }

    /// Every bounded sequence holds exactly `N` elements.
    pub proof fn lemma_len(&self)
        ensures
            self@.len() == N,
    {
    }

    /// Wrapping keeps the elements: the view of a wrapped array is the
    /// array's own view.
    pub proof fn lemma_wrap_view(values: [T; N])
        ensures
            Self::spec_wrap(values)@ == values@,
    {
    }
}

impl<T, const N: usize> From<[T; N]> for Array<T, N> {
    fn from(value: [T; N]) -> (wrapped: Self) {
        Array::wrap(value)
    }
}

impl<T, const N: usize> FromSpecImpl<[T; N]> for Array<T, N> {
    open spec fn obeys_from_spec() -> bool {
        true
    }

    open spec fn from_spec(value: [T; N]) -> Self {
        Array::spec_wrap(value)
    }
}

impl<T, const N: usize> Deref for Array<T, N> {
    type Target = [T; N];

    fn deref(&self) -> (inner: &[T; N])
        ensures
            inner@ == self@,
    {
        &self.values
    }
}

} // verus!
