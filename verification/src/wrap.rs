//! Attaching context to a failure as it is passed up.

use vstd::prelude::*;

verus! {

/// Wrapping the error of a result in a new error that carries a message and
/// keeps the old error as its cause. The new error is of the type `E2`, which
/// says how it is made from the old error and the message.
pub trait WrapErr<T, E, E2>: Sized {
    /// Whether there is an error to wrap.
    spec fn failed(&self) -> bool;

    /// Wraps the error, if there is one, with the message `msg`.
    fn wrap_err(self, msg: &str) -> Result<T, E2> where E2: From<(E, String)>;

    /// Wraps the error, if there is one, with the message that `f` gives;
    /// `f` is not called where there is no error.
    fn wrap_err_with<F>(self, f: F) -> Result<T, E2> where
        E2: From<(E, String)>,
        F: FnOnce() -> String,

        requires
            self.failed() ==> call_requires(f, ()),
    ;
}

impl<T, E, E2> WrapErr<T, E, E2> for Result<T, E> {
    open spec fn failed(&self) -> bool {
        self is Err
    }

    fn wrap_err(self, msg: &str) -> (r: Result<T, E2>) where E2: From<(E, String)>
        ensures
            self is Ok ==> r is Ok && r->Ok_0 == self->Ok_0,
            self is Err ==> r is Err && exists|text: String|
                text@ == msg@ && #[trigger] call_ensures(
                    E2::from,
                    ((self->Err_0, text),),
                    r->Err_0,
                ),
    {
        match self {
            Ok(v) => Ok(v),
            Err(e) => {
                let text = msg.to_owned();
                let ghost given = text;
                let r = Err(E2::from((e, text)));
                proof {
                    assert(given@ == msg@ && call_ensures(
                        E2::from,
                        ((self->Err_0, given),),
                        r->Err_0,
                    ));
                }
                r
            },
        }
    }

    fn wrap_err_with<F>(self, f: F) -> (r: Result<T, E2>) where
        E2: From<(E, String)>,
        F: FnOnce() -> String,

        ensures
            self is Ok ==> r is Ok && r->Ok_0 == self->Ok_0,
            self is Err ==> r is Err && exists|text: String|
                call_ensures(f, (), text) && #[trigger] call_ensures(
                    E2::from,
                    ((self->Err_0, text),),
                    r->Err_0,
                ),
    {
        match self {
            Ok(v) => Ok(v),
            Err(e) => {
                let text = f();
                let ghost given = text;
                let r = Err(E2::from((e, text)));
                proof {
                    assert(call_ensures(f, (), given) && call_ensures(
                        E2::from,
                        ((self->Err_0, given),),
                        r->Err_0,
                    ));
                }
                r
            },
        }
    }
}

} // verus!
