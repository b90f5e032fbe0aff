//! The structured data that an error chain is written to and read back from.

use vstd::prelude::*;

verus! {

/// A self-describing structured value: the explicit "no value" marker, a text,
/// a node in positional form (its fields in order) or a node in keyed form
/// (its fields by name, in the order in which they were written).
#[derive(Debug, PartialEq, Eq)]
pub enum Value {
    Null,
    Text(String),
    List(Vec<Value>),
    Record(Vec<Entry>),
}

/// A named field of a node in keyed form.
#[derive(Debug, PartialEq, Eq)]
pub struct Entry {
    pub name: String,
    pub value: Value,
}

/// The mathematical content of a [`Value`].
pub enum ValueView {
    Null,
    Text(Seq<char>),
    List(Seq<ValueView>),
    Record(Seq<EntryView>),
}

/// The mathematical content of an [`Entry`].
pub struct EntryView {
    pub name: Seq<char>,
    pub value: ValueView,
}

/// The field `name` with the content `value`.
pub open spec fn field(name: Seq<char>, value: ValueView) -> EntryView {
    EntryView { name, value }
}

/// The contents of the items of a positional node.
pub open spec fn item_views(items: Seq<Value>) -> Seq<ValueView> {
    Seq::new(items.len(), |i: int| items[i]@)
}

/// The contents of the entries of a keyed node.
pub open spec fn entry_views(entries: Seq<Entry>) -> Seq<EntryView> {
    Seq::new(entries.len(), |i: int| EntryView { name: entries[i].name@, value: entries[i].value@ })
}

impl View for Value {
    type V = ValueView;

    open spec fn view(&self) -> ValueView
        decreases self,
    {
        match self {
            Value::Null => ValueView::Null,
            Value::Text(s) => ValueView::Text(s@),
            Value::List(items) => ValueView::List(
                Seq::new(
                    items.len() as nat,
                    |i: int|
                        if 0 <= i < items.len() {
                            items[i]@
                        } else {
                            ValueView::Null
                        },
                ),
            ),
            Value::Record(entries) => ValueView::Record(
                Seq::new(
                    entries.len() as nat,
                    |i: int|
                        if 0 <= i < entries.len() {
                            EntryView { name: entries[i].name@, value: entries[i].value@ }
                        } else {
                            EntryView { name: Seq::empty(), value: ValueView::Null }
                        },
                ),
            ),
        }
    }
}

/// The positional form of a value: each node in keyed form gives up the names
/// of its fields and keeps their values, in their order.
pub open spec fn positional(v: ValueView) -> ValueView
    decreases v,
{
    match v {
        ValueView::Null => ValueView::Null,
        ValueView::Text(s) => ValueView::Text(s),
        ValueView::List(items) => ValueView::List(
            Seq::new(
                items.len(),
                |i: int|
                    if 0 <= i < items.len() {
                        positional(items[i])
                    } else {
                        ValueView::Null
                    },
            ),
        ),
        ValueView::Record(entries) => ValueView::List(
            Seq::new(
                entries.len(),
                |i: int|
                    if 0 <= i < entries.len() {
                        positional(entries[i].value)
                    } else {
                        ValueView::Null
                    },
            ),
        ),
    }
}

/// A keyed node holds the contents of its entries, in their order.
pub proof fn lemma_record_view(entries: Vec<Entry>)
    ensures
        Value::Record(entries)@ == ValueView::Record(entry_views(entries@)),
{
    assert(Value::Record(entries)@ matches ValueView::Record(got) && got =~= entry_views(
        entries@,
    ));
}

/// A positional node holds the contents of its items, in their order.
pub proof fn lemma_list_view(items: Vec<Value>)
    ensures
        Value::List(items)@ == ValueView::List(item_views(items@)),
{
    assert(Value::List(items)@ matches ValueView::List(got) && got =~= item_views(items@));
}

impl Value {
    /// This value in positional form.
    pub fn positional(&self) -> (out: Value)
        ensures
            out@ == positional(self@),
        decreases self, 1int,
    {
        match self {
            Value::Null => Value::Null,
            Value::Text(s) => Value::Text(s.clone()),
            Value::List(items) => {
                let out = positional_items(items);
                proof {
                    lemma_list_view(*items);
                    lemma_list_view(out);
                    assert(item_views(out@) =~= positional(self@)->List_0);
                }
                Value::List(out)
            },
            Value::Record(entries) => {
                let out = positional_entries(entries);
                proof {
                    lemma_record_view(*entries);
                    lemma_list_view(out);
                    assert(item_views(out@) =~= positional(self@)->List_0);
                }
                Value::List(out)
            },
        }
    }
}

/// The items of a positional node, each in positional form.
fn positional_items(items: &Vec<Value>) -> (out: Vec<Value>)
    ensures
        out@.len() == items@.len(),
        forall|i: int| 0 <= i < items@.len() ==> out@[i]@ == positional(items@[i]@),
    decreases items, 0int,
{
    let mut out: Vec<Value> = Vec::new();
    let mut i: usize = 0;
    while i < items.len()
        invariant
            i <= items.len(),
            out@.len() == i,
            forall|j: int| 0 <= j < i ==> out@[j]@ == positional(items@[j]@),
        decreases items.len() - i,
    {
        out.push(items[i].positional());
        i = i + 1;
    }
    out
}

/// The values of the entries of a keyed node, each in positional form.
fn positional_entries(entries: &Vec<Entry>) -> (out: Vec<Value>)
    ensures
        out@.len() == entries@.len(),
        forall|i: int| 0 <= i < entries@.len() ==> out@[i]@ == positional(entries@[i].value@),
    decreases entries, 0int,
{
    let mut out: Vec<Value> = Vec::new();
    let mut i: usize = 0;
    while i < entries.len()
        invariant
            i <= entries.len(),
            out@.len() == i,
            forall|j: int| 0 <= j < i ==> out@[j]@ == positional(entries@[j].value@),
        decreases entries.len() - i,
    {
        out.push(entries[i].value.positional());
        i = i + 1;
    }
    out
}

} // verus!
