//! What every error can do: be written as a record, and be searched for a cause.

use crate::chain::{find_nearest, nearest, ConcreteError, DynError, Link};
use crate::serialize::{SerializeableConcreteError, SerializeableError};
use vstd::prelude::*;

verus! {

/// The tools that every error has.
pub trait ErrTools<'a> {
    type Serialize;

    /// The chain that starts at this error.
    spec fn chain(&self) -> Seq<Link>;

    /// The error, about to be written as a record.
    fn serialize(&'a self) -> Self::Serialize;

    /// The error of type `T` nearest to the head of the chain, if there is one.
    fn downcast_refchain<T: ConcreteError>(&self) -> (found: Option<&DynError>)
        ensures
            match nearest(self.chain(), T::spec_name()) {
                Some(k) => found is Some && found.unwrap()@ == self.chain().skip(k),
                None => found is None,
            },
    ;
}

/// An error of a known type is written with the name of its type.
impl<'a, E: ConcreteError + 'a> ErrTools<'a> for E {
    type Serialize = SerializeableConcreteError<'a, E>;

    open spec fn chain(&self) -> Seq<Link> {
        self.spec_as_dyn()@
    }

    fn serialize(&'a self) -> (out: Self::Serialize)
        ensures
            out.0 == self,
    {
        SerializeableConcreteError(self)
    }

    fn downcast_refchain<T: ConcreteError>(&self) -> (found: Option<&DynError>) {
        let name = T::name();
        find_nearest(self.as_dyn(), &name)
    }
}

/// An error of erased type is written without the name of a type.
impl<'a> ErrTools<'a> for DynError {
    type Serialize = SerializeableError<'a>;

    open spec fn chain(&self) -> Seq<Link> {
        self@
    }

    fn serialize(&'a self) -> (out: Self::Serialize)
        ensures
            out.0 == self,
    {
        SerializeableError(self)
    }

    fn downcast_refchain<T: ConcreteError>(&self) -> (found: Option<&DynError>) {
        let name = T::name();
        find_nearest(self, &name)
    }
}

} // verus!
