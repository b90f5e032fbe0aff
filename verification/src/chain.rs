//! Error chains and the search of a chain for a cause of a given type.

use vstd::prelude::*;

verus! {

/// What one error of a chain exposes: the name of its concrete type, its
/// one-line message and, where one was captured, its backtrace.
pub struct Link {
    pub type_tag: Seq<char>,
    pub msg: Seq<char>,
    pub backtrace: Option<Seq<char>>,
}

/// The content of a text that may be absent.
pub open spec fn opt_text(text: Option<String>) -> Option<Seq<char>> {
    match text {
        Some(t) => Some(t@),
        None => None,
    }
}

/// An error whose static type has been erased. It keeps the name of its
/// concrete type as a runtime tag, and owns its direct cause, so a value of this
/// type is a whole chain: finite, acyclic, and ended by the error without a cause.
#[derive(Debug, PartialEq, Eq)]
pub struct DynError {
    pub type_tag: String,
    pub msg: String,
    pub backtrace: Option<String>,
    pub source: Option<Box<DynError>>,
}

impl DynError {
    /// The first link of the chain.
    pub open spec fn head(&self) -> Link {
        Link {
            type_tag: self.type_tag@,
            msg: self.msg@,
            backtrace: opt_text(self.backtrace),
        }
    }

    /// The chain from this error to its root cause.
    pub open spec fn links(&self) -> Seq<Link>
        decreases self,
    {
        match self.source {
            Some(cause) => seq![self.head()] + cause.links(),
            None => seq![self.head()],
        }
    }
}

impl View for DynError {
    type V = Seq<Link>;

    open spec fn view(&self) -> Seq<Link> {
        self.links()
    }
}

/// The messages of a chain, from its head to its root cause.
pub open spec fn messages(chain: Seq<Link>) -> Seq<Seq<char>> {
    chain.map_values(|l: Link| l.msg)
}

/// The contents of a list of texts.
pub open spec fn texts(list: Seq<String>) -> Seq<Seq<char>> {
    Seq::new(list.len(), |i: int| list[i]@)
}

/// The text that holds each of `msgs` on a line of its own, in their order.
pub open spec fn lines(msgs: Seq<Seq<char>>) -> Seq<char>
    decreases msgs.len(),
{
    if msgs.len() == 0 {
        Seq::empty()
    } else {
        lines(msgs.drop_last()) + msgs.last() + seq!['\n']
    }
}

/// The position of the link nearest to the head whose type is `name`.
pub open spec fn nearest(chain: Seq<Link>, name: Seq<char>) -> Option<int>
    decreases chain.len(),
{
    if chain.len() == 0 {
        None
    } else if chain[0].type_tag == name {
        Some(0)
    } else {
        match nearest(chain.skip(1), name) {
            Some(k) => Some(k + 1),
            None => None,
        }
    }
}

/// The link that `nearest` finds is of the type `name`, and no link before it
/// is; where it finds none, no link of the chain is of that type.
pub proof fn lemma_nearest(chain: Seq<Link>, name: Seq<char>)
    ensures
        match nearest(chain, name) {
            Some(k) => 0 <= k < chain.len() && chain[k].type_tag == name && forall|j: int|
                0 <= j < k ==> chain[j].type_tag != name,
            None => forall|j: int| 0 <= j < chain.len() ==> chain[j].type_tag != name,
        },
    decreases chain.len(),
{
    if chain.len() > 0 && chain[0].type_tag != name {
        lemma_nearest(chain.skip(1), name);
        match nearest(chain.skip(1), name) {
            Some(k) => {
                assert forall|j: int| 0 <= j < k + 1 implies chain[j].type_tag != name by {
                    if j > 0 {
                        assert(chain.skip(1)[j - 1] == chain[j]);
                    }
                }
            },
            None => {
                assert forall|j: int| 0 <= j < chain.len() implies chain[j].type_tag != name by {
                    if j > 0 {
                        assert(chain.skip(1)[j - 1] == chain[j]);
                    }
                }
            },
        }
    }
}

/// The link nearest to the head whose type is `name` is what `nearest` finds.
pub proof fn lemma_nearest_is(chain: Seq<Link>, name: Seq<char>, k: int)
    requires
        0 <= k < chain.len(),
        chain[k].type_tag == name,
        forall|j: int| 0 <= j < k ==> chain[j].type_tag != name,
    ensures
        nearest(chain, name) == Some(k),
{
    lemma_nearest(chain, name);
}

/// An error type that is known statically: it has a canonical name, and a value
/// of it can be looked at with its type erased.
///
/// A verified type says in `spec_name` and `spec_as_dyn` what its two methods
/// return. Code that is not verified implements the two methods alone; of such
/// a type nothing is known but what the methods promise.
pub trait ConcreteError: Sized {
    /// What `name` returns.
    open spec fn spec_name() -> Seq<char> {
        arbitrary()
    }

    /// What `as_dyn` returns.
    open spec fn spec_as_dyn(&self) -> DynError {
        arbitrary()
    }

    /// The canonical name of the type.
    fn name() -> (name: String)
        ensures
            name@ == Self::spec_name(),
    ;

    /// The error with its type erased; its tag is the name of this type.
    fn as_dyn(&self) -> (erased: &DynError)
        ensures
            *erased == self.spec_as_dyn(),
            erased.type_tag@ == Self::spec_name(),
    ;
}

impl DynError {
    /// The message of this error.
    pub fn to_string(&self) -> (msg: String)
        ensures
            msg@ == self@[0].msg,
    {
        self.msg.clone()
    }

    /// The direct cause of this error, if it has one.
    pub fn source(&self) -> (cause: Option<&DynError>)
        ensures
            match cause {
                Some(c) => c@ == self@.skip(1),
                None => self@.len() == 1,
            },
    {
        match &self.source {
            Some(cause) => {
                proof {
                    assert(self@.skip(1) == cause@);
                }
                Some(&**cause)
            },
            None => None,
        }
    }

    /// The messages of the chain, from this error to its root cause.
    pub fn messages(&self) -> (out: Vec<String>)
        ensures
            texts(out@) == messages(self@),
    {
        let mut out: Vec<String> = Vec::new();
        let mut cur: &DynError = self;
        let ghost mut k: int = 0;
        loop
            invariant
                0 <= k < self@.len(),
                cur@ == self@.skip(k),
                out@.len() == k,
                texts(out@) == messages(self@).take(k),
            decreases cur@.len(),
        {
            let ghost before = out@;
            out.push(cur.msg.clone());
            proof {
                assert(cur@[0] == cur.head());
                assert(self@.skip(k)[0] == self@[k]);
                assert forall|i: int| 0 <= i < k + 1 implies texts(out@)[i] == messages(
                    self@,
                ).take(k + 1)[i] by {
                    if i < k {
                        assert(texts(before)[i] == messages(self@).take(k)[i]);
                    }
                }
                assert(texts(out@) =~= messages(self@).take(k + 1));
            }
            match &cur.source {
                Some(cause) => {
                    proof {
                        assert(cur@.skip(1) == cause@);
                        assert(self@.skip(k).skip(1) == self@.skip(k + 1));
                        k = k + 1;
                    }
                    cur = &**cause;
                },
                None => {
                    proof {
                        assert(messages(self@).take(k + 1) =~= messages(self@));
                    }
                    return out;
                },
            }
        }
    }

    /// The chain as a text: the message of each error on a line of its own,
    /// from this error to its root cause.
    pub fn report(&self) -> (out: String)
        ensures
            out@ == lines(messages(self@)),
    {
        let mut out = String::new();
        let mut cur: &DynError = self;
        let ghost mut k: int = 0;
        loop
            invariant
                0 <= k < self@.len(),
                cur@ == self@.skip(k),
                out@ == lines(messages(self@).take(k)),
            decreases cur@.len(),
        {
            out.append(cur.msg.as_str());
            out.append("\n");
            proof {
                reveal_strlit("\n");
                assert(cur@[0] == cur.head());
                let done = messages(self@).take(k + 1);
                assert(done.drop_last() =~= messages(self@).take(k));
                assert(done.last() == cur.msg@);
                assert("\n"@ =~= seq!['\n']);
                assert(out@ =~= lines(done.drop_last()) + done.last() + seq!['\n']);
            }
            match &cur.source {
                Some(cause) => {
                    proof {
                        assert(cur@.skip(1) == cause@);
                        assert(self@.skip(k).skip(1) == self@.skip(k + 1));
                        k = k + 1;
                    }
                    cur = &**cause;
                },
                None => {
                    proof {
                        assert(messages(self@).take(k + 1) =~= messages(self@));
                    }
                    return out;
                },
            }
        }
    }
}

/// Searches `error`'s chain, head first, for an error whose type is `name`.
pub fn find_nearest<'a>(error: &'a DynError, name: &String) -> (found: Option<&'a DynError>)
    ensures
        match nearest(error@, name@) {
            Some(k) => found is Some && found.unwrap()@ == error@.skip(k),
            None => found is None,
        },
{
    let mut cur: &DynError = error;
    let ghost mut k: int = 0;
    loop
        invariant
            0 <= k < error@.len(),
            cur@ == error@.skip(k),
            nearest(error@, name@) == match nearest(cur@, name@) {
                Some(j) => Some(j + k),
                None => None::<int>,
            },
        decreases cur@.len(),
    {
        if cur.type_tag == *name {
            return Some(cur);
        }
        match &cur.source {
            Some(cause) => {
                proof {
                    assert(cur@.skip(1) == cause@);
                    assert(error@.skip(k).skip(1) == error@.skip(k + 1));
                    k = k + 1;
                }
                cur = &**cause;
            },
            None => {
                proof {
                    assert(nearest(cur@.skip(1), name@) is None);
                }
                return None;
            },
        }
    }
}

impl From<(DynError, String)> for DynError {
    /// The error that wraps `pair.0` with the message `pair.1`: a new head,
    /// tagged with the name of `DynError`, whose cause is the old error.
    fn from(pair: (DynError, String)) -> (wrapped: DynError)
        ensures
            wrapped@ == seq![
                Link { type_tag: "errtools::chain::DynError"@, msg: pair.1@, backtrace: None },
            ] + pair.0@,
    {
        let (cause, msg) = pair;
        DynError {
            type_tag: "errtools::chain::DynError".to_owned(),
            msg,
            backtrace: None,
            source: Some(Box::new(cause)),
        }
    }
}

/// The head of a wrapped chain holds a text that is known by its content
/// only: `from` says over views what it returns, and nothing is stated here.
impl vstd::std_specs::convert::FromSpecImpl<(DynError, String)> for DynError {
    open spec fn obeys_from_spec() -> bool {
        false
    }

    open spec fn from_spec(pair: (DynError, String)) -> DynError {
        pair.0
    }
}

} // verus!
