//! Helpers for chains of causally linked errors: attaching context to a failure,
//! searching a chain for a cause of a given type, and turning a chain into a
//! structured record and back.

pub mod chain;
pub mod deserialize;
pub mod laws;
pub mod serialize;
pub mod tools;
pub mod value;
pub mod wrap;

pub use chain::{ConcreteError, DynError, Link};
pub use serialize::{SerializeableConcreteError, SerializeableError};
pub use tools::ErrTools;
pub use value::{Entry, Value};
pub use wrap::WrapErr;
