//! The arguments of a call: a tuple of values, each of which travels marked
//! with its type.

use crate::bytesrepr::ToBytes;
use crate::cl_value::{CLTyped, CLValue, CLValueView};
use crate::error::ApiError;
use vstd::prelude::*;

verus! {

/// The value in transit that stands for a value of type `T`.
pub open spec fn marked<T: CLTyped + ToBytes>(v: T::V) -> CLValueView {
    CLValueView { cl_type: T::spec_cl_type(), bytes: T::encoding(v) }
}

/// A tuple of values that can be passed as the arguments of a call.
pub trait ArgsParser {
    /// The arguments as values in transit, in order.
    spec fn parsed(&self) -> Seq<CLValueView>;

    /// Whether each argument is representable.
    spec fn parsable(&self) -> bool;

    /// Turns each argument into a value in transit. Fails, with
    /// [`ApiError::OutOfMemory`], exactly where an argument is not
    /// representable.
    fn parse(&self) -> (r: Result<Vec<CLValue>, ApiError>)
        ensures
            self.parsable() ==> (r matches Ok(v) && v.deep_view() == self.parsed()),
            !self.parsable() ==> (r matches Err(e) && e == ApiError::OutOfMemory),
    ;
}

impl ArgsParser for () {
    open spec fn parsed(&self) -> Seq<CLValueView> {
        Seq::empty()
    }

    open spec fn parsable(&self) -> bool {
        true
    }

    fn parse(&self) -> (r: Result<Vec<CLValue>, ApiError>) {
        let out: Vec<CLValue> = Vec::new();
        assert(out.deep_view() =~= Seq::<CLValueView>::empty());
        Ok(out)
    }
}

impl<A: CLTyped + ToBytes> ArgsParser for (A,) {
    open spec fn parsed(&self) -> Seq<CLValueView> {
        seq![marked::<A>(self.0.deep_view())]
    }

    open spec fn parsable(&self) -> bool {
        A::representable(self.0.deep_view())
    }

    fn parse(&self) -> (r: Result<Vec<CLValue>, ApiError>) {
        let first = CLValue::from_t(&self.0)?;
        let mut out: Vec<CLValue> = Vec::new();
        out.push(first);
        assert(out.deep_view() =~= self.parsed());
        Ok(out)
    }
}

impl<A: CLTyped + ToBytes, B: CLTyped + ToBytes> ArgsParser for (A, B) {
    open spec fn parsed(&self) -> Seq<CLValueView> {
        seq![marked::<A>(self.0.deep_view()), marked::<B>(self.1.deep_view())]
    }

    open spec fn parsable(&self) -> bool {
        A::representable(self.0.deep_view()) && B::representable(self.1.deep_view())
    }

    fn parse(&self) -> (r: Result<Vec<CLValue>, ApiError>) {
        let first = CLValue::from_t(&self.0)?;
        let second = CLValue::from_t(&self.1)?;
        let mut out: Vec<CLValue> = Vec::new();
        out.push(first);
        out.push(second);
        assert(out.deep_view() =~= self.parsed());
        Ok(out)
    }
}

impl<A: CLTyped + ToBytes, B: CLTyped + ToBytes, C: CLTyped + ToBytes> ArgsParser for (A, B, C) {
    open spec fn parsed(&self) -> Seq<CLValueView> {
        seq![
            marked::<A>(self.0.deep_view()),
            marked::<B>(self.1.deep_view()),
            marked::<C>(self.2.deep_view()),
        ]
    }

    open spec fn parsable(&self) -> bool {
        A::representable(self.0.deep_view()) && B::representable(self.1.deep_view())
            && C::representable(self.2.deep_view())
    }

    fn parse(&self) -> (r: Result<Vec<CLValue>, ApiError>) {
        let first = CLValue::from_t(&self.0)?;
        let second = CLValue::from_t(&self.1)?;
        let third = CLValue::from_t(&self.2)?;
        let mut out: Vec<CLValue> = Vec::new();
        out.push(first);
        out.push(second);
        out.push(third);
        assert(out.deep_view() =~= self.parsed());
        Ok(out)
    }
}

} // verus!
