//! Writing an error chain as a record.

use crate::chain::{opt_text, ConcreteError, DynError, Link};
use crate::value::{entry_views, field, lemma_record_view, Entry, EntryView, Value, ValueView};
use vstd::prelude::*;

verus! {

/// The entry that carries the name of the error's type, where it is known.
pub open spec fn name_entry(name: Option<Seq<char>>) -> Seq<EntryView> {
    match name {
        Some(n) => seq![field("type_name"@, ValueView::Text(n))],
        None => seq![],
    }
}

/// The entry that carries the backtrace, where one was captured.
pub open spec fn backtrace_entry(backtrace: Option<Seq<char>>) -> Seq<EntryView> {
    match backtrace {
        Some(b) => seq![field("backtrace"@, ValueView::Text(b))],
        None => seq![],
    }
}

/// The record of a chain: the name of the head's type where `name` gives it,
/// the head's message, its backtrace where it has one, and under `source` the
/// record of the rest of the chain, written without type names. The empty
/// chain is written as the "no cause" marker.
pub open spec fn record(chain: Seq<Link>, name: Option<Seq<char>>) -> ValueView
    decreases chain.len(),
{
    if chain.len() == 0 {
        ValueView::Null
    } else {
        ValueView::Record(
            name_entry(name) + seq![field("msg"@, ValueView::Text(chain[0].msg))] + backtrace_entry(
                chain[0].backtrace,
            ) + seq![field("source"@, record(chain.skip(1), None))],
        )
    }
}

/// Writes the record of `error`'s chain, with `name` as the name of its type.
fn write_record(error: &DynError, name: Option<String>) -> (out: Value)
    ensures
        out@ == record(error@, opt_text(name)),
    decreases error,
{
    let ghost name_view = opt_text(name);
    let mut entries: Vec<Entry> = Vec::new();
    if let Some(n) = name {
        entries.push(Entry { name: "type_name".to_owned(), value: Value::Text(n) });
    }
    assert(entry_views(entries@) =~= name_entry(name_view));
    entries.push(Entry { name: "msg".to_owned(), value: Value::Text(error.msg.clone()) });
    let ghost with_msg = name_entry(name_view) + seq![field("msg"@, ValueView::Text(error@[0].msg))];
    assert(entry_views(entries@) =~= with_msg);
    if let Some(b) = &error.backtrace {
        entries.push(Entry { name: "backtrace".to_owned(), value: Value::Text(b.clone()) });
    }
    let ghost with_backtrace = with_msg + backtrace_entry(error@[0].backtrace);
    assert(entry_views(entries@) =~= with_backtrace);
    let source = match &error.source {
        Some(cause) => {
            proof {
                assert(error@.skip(1) == cause@);
            }
            write_record(cause, None)
        },
        None => {
            proof {
                assert(error@.skip(1).len() == 0);
            }
            Value::Null
        },
    };
    entries.push(Entry { name: "source".to_owned(), value: source });
    proof {
        assert(entry_views(entries@) =~= with_backtrace + seq![
            field("source"@, record(error@.skip(1), None)),
        ]);
        lemma_record_view(entries);
    }
    Value::Record(entries)
}

/// An error of erased type, about to be written as a record.
pub struct SerializeableError<'a>(pub &'a DynError);

/// An error of the statically known type `E`, about to be written as a record.
pub struct SerializeableConcreteError<'a, E: ConcreteError>(pub &'a E);

impl<'a> SerializeableError<'a> {
    /// The record of the chain, without the name of the head's type.
    pub fn serialize(&self) -> (out: Value)
        ensures
            out@ == record(self.0@, None),
    {
        write_record(self.0, None)
    }
}

impl<'a, E: ConcreteError> SerializeableConcreteError<'a, E> {
    /// The record of the chain, with the name of `E` for the head.
    pub fn serialize(&self) -> (out: Value)
        ensures
            out@ == record(self.0.spec_as_dyn()@, Some(E::spec_name())),
    {
        write_record(self.0.as_dyn(), Some(E::name()))
    }
}

} // verus!
