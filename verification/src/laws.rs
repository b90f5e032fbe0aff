//! What holds between writing an error chain as a record and reading it back.

use crate::chain::{messages, Link};
use crate::deserialize::{
    error_done, error_map, error_node, error_seq, field_of, name_slot, source_done, source_map,
    source_slot, text_slot, DecodeErrorView, ErrorView, Field,
};
use crate::serialize::{backtrace_entry, name_entry, record};
use crate::value::{field, positional, EntryView, ValueView};
use vstd::prelude::*;

verus! {

/// No error of the chain has a backtrace.
pub open spec fn plain(chain: Seq<Link>) -> bool {
    forall|i: int| 0 <= i < chain.len() ==> (#[trigger] chain[i]).backtrace is None
}

/// The three names of fields stand for their fields, and `backtrace` for none.
pub proof fn lemma_field_names()
    ensures
        field_of("type_name"@) == Some(Field::TypeName),
        field_of("msg"@) == Some(Field::Msg),
        field_of("source"@) == Some(Field::Source),
        field_of("backtrace"@) is None,
{
    reveal_strlit("type_name");
    reveal_strlit("msg");
    reveal_strlit("source");
    reveal_strlit("backtrace");
    assert("type_name"@.len() == 9 && "msg"@.len() == 3 && "source"@.len() == 6);
    assert("backtrace"@[0] != "type_name"@[0]);
}

/// The entries of the record of a chain without a backtrace at its head.
proof fn lemma_record_entries(chain: Seq<Link>, name: Option<Seq<char>>)
    requires
        chain.len() > 0,
        chain[0].backtrace is None,
    ensures
        record(chain, name) == ValueView::Record(
            name_entry(name) + seq![
                field("msg"@, ValueView::Text(chain[0].msg)),
                field("source"@, record(chain.skip(1), None)),
            ],
        ),
{
    assert(name_entry(name) + seq![field("msg"@, ValueView::Text(chain[0].msg))] + backtrace_entry(
        chain[0].backtrace,
    ) + seq![field("source"@, record(chain.skip(1), None))] =~= name_entry(name) + seq![
        field("msg"@, ValueView::Text(chain[0].msg)),
        field("source"@, record(chain.skip(1), None)),
    ]);
}

/// The messages of a chain are the message of its head, then those of the rest.
proof fn lemma_messages_unfold(chain: Seq<Link>)
    requires
        chain.len() > 0,
    ensures
        messages(chain) == seq![chain[0].msg] + messages(chain.skip(1)),
{
    assert(messages(chain) =~= seq![chain[0].msg] + messages(chain.skip(1)));
}

/// Written as the record of a cause and read back, a chain without
/// backtraces gives its messages, in their order; the empty chain, written as
/// the "no cause" marker, gives none.
pub proof fn lemma_source_roundtrip(chain: Seq<Link>)
    requires
        plain(chain),
    ensures
        source_slot(record(chain, None)) == Ok::<Seq<Seq<char>>, DecodeErrorView>(
            messages(chain),
        ),
    decreases chain.len(),
{
    if chain.len() == 0 {
        assert(messages(chain) =~= Seq::empty());
    } else {
        let rest = chain.skip(1);
        assert(plain(rest)) by {
            assert forall|i: int| 0 <= i < rest.len() implies (#[trigger] rest[i]).backtrace
                is None by {
                assert(rest[i] == chain[i + 1]);
            }
        }
        lemma_source_roundtrip(rest);
        lemma_record_entries(chain, None);
        lemma_messages_unfold(chain);
        lemma_field_names();
        let entries = seq![
            field("msg"@, ValueView::Text(chain[0].msg)),
            field("source"@, record(rest, None)),
        ];
        assert(name_entry(None) + entries =~= entries);
        let m = Some(chain[0].msg);
        let s = Some(messages(rest));
        assert(source_map(entries, 2, m, s) == source_done(m, s));
        assert(source_map(entries, 1, m, None) == source_map(entries, 2, m, s));
        assert(source_map(entries, 0, None, None) == source_map(entries, 1, m, None));
    }
}

/// Round trip. Written as a record, with or without the name of its type, and
/// read back, a chain without backtraces gives an error with that name, if
/// any, and with the messages of the chain, as many and in their order.
pub proof fn lemma_roundtrip(chain: Seq<Link>, name: Option<Seq<char>>)
    requires
        chain.len() > 0,
        plain(chain),
    ensures
        error_node(record(chain, name)) == Ok::<ErrorView, DecodeErrorView>(
            ErrorView { type_tag: name, msgs: messages(chain) },
        ),
        messages(chain).len() == chain.len(),
{
    let rest = chain.skip(1);
    assert(plain(rest)) by {
        assert forall|i: int| 0 <= i < rest.len() implies (#[trigger] rest[i]).backtrace
            is None by {
            assert(rest[i] == chain[i + 1]);
        }
    }
    lemma_source_roundtrip(rest);
    lemma_record_entries(chain, name);
    lemma_messages_unfold(chain);
    lemma_field_names();
    let m = Some(chain[0].msg);
    let s = Some(messages(rest));
    match name {
        Some(n) => {
            let entries = seq![
                field("type_name"@, ValueView::Text(n)),
                field("msg"@, ValueView::Text(chain[0].msg)),
                field("source"@, record(rest, None)),
            ];
            assert(name_entry(name) + seq![
                field("msg"@, ValueView::Text(chain[0].msg)),
                field("source"@, record(rest, None)),
            ] =~= entries);
            let t = Some(name);
            assert(error_map(entries, 3, t, m, s) == error_done(t, m, s));
            assert(error_map(entries, 2, t, m, None) == error_map(entries, 3, t, m, s));
            assert(error_map(entries, 1, t, None, None) == error_map(entries, 2, t, m, None));
            assert(error_map(entries, 0, None, None, None) == error_map(
                entries,
                1,
                t,
                None,
                None,
            ));
        },
        None => {
            let entries = seq![
                field("msg"@, ValueView::Text(chain[0].msg)),
                field("source"@, record(rest, None)),
            ];
            assert(name_entry(name) + entries =~= entries);
            assert(error_map(entries, 2, None, m, s) == error_done(None, m, s));
            assert(error_map(entries, 1, None, m, None) == error_map(entries, 2, None, m, s));
            assert(error_map(entries, 0, None, None, None) == error_map(
                entries,
                1,
                None,
                m,
                None,
            ));
        },
    }
}

/// Written as the record of a cause, put in positional form and read back, a
/// chain without backtraces gives its messages, in their order.
pub proof fn lemma_source_roundtrip_positional(chain: Seq<Link>)
    requires
        plain(chain),
    ensures
        source_slot(positional(record(chain, None))) == Ok::<Seq<Seq<char>>, DecodeErrorView>(
            messages(chain),
        ),
    decreases chain.len(),
{
    if chain.len() == 0 {
        assert(messages(chain) =~= Seq::empty());
    } else {
        let rest = chain.skip(1);
        assert(plain(rest)) by {
            assert forall|i: int| 0 <= i < rest.len() implies (#[trigger] rest[i]).backtrace
                is None by {
                assert(rest[i] == chain[i + 1]);
            }
        }
        lemma_source_roundtrip_positional(rest);
        lemma_record_entries(chain, None);
        lemma_messages_unfold(chain);
        let entries = seq![
            field("msg"@, ValueView::Text(chain[0].msg)),
            field("source"@, record(rest, None)),
        ];
        assert(name_entry(None) + entries =~= entries);
        let items = seq![ValueView::Text(chain[0].msg), positional(record(rest, None))];
        assert(positional(entries[0].value) == items[0]);
        assert(positional(entries[1].value) == items[1]);
        assert(positional(ValueView::Record(entries)) matches ValueView::List(got) && got
            =~= items);
    }
}

/// Both forms agree. The record of a chain without backtraces, written with
/// the name of its type, reads back as the same error in keyed form and in
/// positional form.
pub proof fn lemma_encodings_agree(chain: Seq<Link>, name: Seq<char>)
    requires
        chain.len() > 0,
        plain(chain),
    ensures
        error_node(positional(record(chain, Some(name)))) == error_node(
            record(chain, Some(name)),
        ),
        error_node(positional(record(chain, Some(name)))) == Ok::<ErrorView, DecodeErrorView>(
            ErrorView { type_tag: Some(name), msgs: messages(chain) },
        ),
{
    let rest = chain.skip(1);
    assert(plain(rest)) by {
        assert forall|i: int| 0 <= i < rest.len() implies (#[trigger] rest[i]).backtrace
            is None by {
            assert(rest[i] == chain[i + 1]);
        }
    }
    lemma_roundtrip(chain, Some(name));
    lemma_source_roundtrip_positional(rest);
    lemma_record_entries(chain, Some(name));
    lemma_messages_unfold(chain);
    let entries = seq![
        field("type_name"@, ValueView::Text(name)),
        field("msg"@, ValueView::Text(chain[0].msg)),
        field("source"@, record(rest, None)),
    ];
    assert(name_entry(Some(name)) + seq![
        field("msg"@, ValueView::Text(chain[0].msg)),
        field("source"@, record(rest, None)),
    ] =~= entries);
    let items = seq![
        ValueView::Text(name),
        ValueView::Text(chain[0].msg),
        positional(record(rest, None)),
    ];
    assert(positional(entries[0].value) == items[0]);
    assert(positional(entries[1].value) == items[1]);
    assert(positional(entries[2].value) == items[2]);
    assert(positional(ValueView::Record(entries)) matches ValueView::List(got) && got =~= items);
    assert(error_seq(items) == Ok::<ErrorView, DecodeErrorView>(
        ErrorView { type_tag: Some(name), msgs: messages(chain) },
    ));
}

/// The rest of a chain that has a backtrace somewhere, but not at its head,
/// has a backtrace somewhere.
proof fn lemma_backtrace_in_rest(chain: Seq<Link>)
    requires
        !plain(chain),
        chain.len() > 0 ==> chain[0].backtrace is None,
    ensures
        chain.len() > 0,
        !plain(chain.skip(1)),
{
    let i = choose|i: int| 0 <= i < chain.len() && (#[trigger] chain[i]).backtrace is Some;
    assert(chain.skip(1)[i - 1] == chain[i]);
}

/// The record of a cause in whose chain an error has a backtrace is not read
/// back: the reader does not know the field `backtrace`.
pub proof fn lemma_source_backtrace_rejected(chain: Seq<Link>)
    requires
        !plain(chain),
    ensures
        source_slot(record(chain, None)) == Err::<Seq<Seq<char>>, DecodeErrorView>(
            DecodeErrorView::UnknownField("backtrace"@),
        ),
    decreases chain.len(),
{
    lemma_field_names();
    let rest = chain.skip(1);
    let unknown = Err::<Seq<Seq<char>>, DecodeErrorView>(
        DecodeErrorView::UnknownField("backtrace"@),
    );
    if chain.len() > 0 && chain[0].backtrace is Some {
        let m = Some(chain[0].msg);
        let entries = seq![
            field("msg"@, ValueView::Text(chain[0].msg)),
            field("backtrace"@, ValueView::Text(chain[0].backtrace->Some_0)),
            field("source"@, record(rest, None)),
        ];
        assert(name_entry(None) + seq![field("msg"@, ValueView::Text(chain[0].msg))]
            + backtrace_entry(chain[0].backtrace) + seq![field("source"@, record(rest, None))]
            =~= entries);
        assert(source_map(entries, 1, m, None) == unknown);
        assert(source_map(entries, 0, None, None) == source_map(entries, 1, m, None));
    } else {
        lemma_backtrace_in_rest(chain);
        lemma_source_backtrace_rejected(rest);
        lemma_record_entries(chain, None);
        let m = Some(chain[0].msg);
        let entries = seq![
            field("msg"@, ValueView::Text(chain[0].msg)),
            field("source"@, record(rest, None)),
        ];
        assert(name_entry(None) + entries =~= entries);
        assert(source_map(entries, 1, m, None) == unknown);
        assert(source_map(entries, 0, None, None) == source_map(entries, 1, m, None));
    }
}

/// A backtrace stops the round trip. The record of a chain in which an error
/// has a backtrace is not read back: the reader does not know the field
/// `backtrace`.
pub proof fn lemma_backtrace_rejected(chain: Seq<Link>, name: Option<Seq<char>>)
    requires
        !plain(chain),
    ensures
        error_node(record(chain, name)) == Err::<ErrorView, DecodeErrorView>(
            DecodeErrorView::UnknownField("backtrace"@),
        ),
{
    lemma_field_names();
    let rest = chain.skip(1);
    let unknown = Err::<ErrorView, DecodeErrorView>(DecodeErrorView::UnknownField("backtrace"@));
    let t = match name {
        Some(n) => Some(name),
        None => None,
    };
    if chain.len() > 0 && chain[0].backtrace is Some {
        let m = Some(chain[0].msg);
        let tail = seq![
            field("msg"@, ValueView::Text(chain[0].msg)),
            field("backtrace"@, ValueView::Text(chain[0].backtrace->Some_0)),
            field("source"@, record(rest, None)),
        ];
        let entries = name_entry(name) + tail;
        assert(name_entry(name) + seq![field("msg"@, ValueView::Text(chain[0].msg))]
            + backtrace_entry(chain[0].backtrace) + seq![field("source"@, record(rest, None))]
            =~= entries);
        let k = name_entry(name).len() as int;
        assert(entries[k] == tail[0] && entries[k + 1] == tail[1]);
        assert(error_map(entries, k + 1, t, m, None) == unknown);
        assert(error_map(entries, k, t, None, None) == error_map(entries, k + 1, t, m, None));
        if name is Some {
            assert(error_map(entries, 0, None, None, None) == error_map(
                entries,
                1,
                t,
                None,
                None,
            ));
        }
    } else {
        lemma_backtrace_in_rest(chain);
        lemma_source_backtrace_rejected(rest);
        lemma_record_entries(chain, name);
        let m = Some(chain[0].msg);
        let tail = seq![
            field("msg"@, ValueView::Text(chain[0].msg)),
            field("source"@, record(rest, None)),
        ];
        let entries = name_entry(name) + tail;
        let k = name_entry(name).len() as int;
        assert(entries[k] == tail[0] && entries[k + 1] == tail[1]);
        assert(error_map(entries, k + 1, t, m, None) == unknown);
        assert(error_map(entries, k, t, None, None) == error_map(entries, k + 1, t, m, None));
        if name is Some {
            assert(error_map(entries, 0, None, None, None) == error_map(
                entries,
                1,
                t,
                None,
                None,
            ));
        }
    }
}

/// A node in keyed form with a field that the reader does not know, read
/// from the entry at `i` on: it is rejected; and where the node without that
/// field is read, the error names the field.
proof fn lemma_unknown_field_from(
    entries: Seq<EntryView>,
    i: int,
    k: int,
    type_tag: Option<Option<Seq<char>>>,
    msg: Option<Seq<char>>,
    source: Option<Seq<Seq<char>>>,
)
    requires
        0 <= i <= k < entries.len(),
        field_of(entries[k].name) is None,
    ensures
        error_map(entries, i, type_tag, msg, source) is Err,
        error_map(entries.remove(k), i, type_tag, msg, source) is Ok ==> error_map(
            entries,
            i,
            type_tag,
            msg,
            source,
        ) == Err::<ErrorView, DecodeErrorView>(DecodeErrorView::UnknownField(entries[k].name)),
    decreases k - i,
{
    if i < k {
        let without = entries.remove(k);
        assert(without[i] == entries[i]);
        match field_of(entries[i].name) {
            Some(Field::TypeName) => {
                if type_tag is None {
                    if let Ok(t) = name_slot(entries[i].value) {
                        lemma_unknown_field_from(entries, i + 1, k, Some(t), msg, source);
                    }
                }
            },
            Some(Field::Msg) => {
                if msg is None {
                    if let Ok(m) = text_slot(entries[i].value, Field::Msg) {
                        lemma_unknown_field_from(entries, i + 1, k, type_tag, Some(m), source);
                    }
                }
            },
            Some(Field::Source) => {
                if source is None {
                    if let Ok(s) = source_slot(entries[i].value) {
                        lemma_unknown_field_from(entries, i + 1, k, type_tag, msg, Some(s));
                    }
                }
            },
            None => {},
        }
    }
}

/// An unknown field is rejected. A node in keyed form that has a field which
/// the reader does not know is not read. Where that field is all that is
/// wrong with the node, so that the node without it is read, the error is
/// that of an unknown field, and names it.
pub proof fn lemma_unknown_field(entries: Seq<EntryView>, k: int)
    requires
        0 <= k < entries.len(),
        field_of(entries[k].name) is None,
    ensures
        error_node(ValueView::Record(entries)) is Err,
        error_node(ValueView::Record(entries.remove(k))) is Ok ==> error_node(
            ValueView::Record(entries),
        ) == Err::<ErrorView, DecodeErrorView>(DecodeErrorView::UnknownField(entries[k].name)),
{
    lemma_unknown_field_from(entries, 0, k, None, None, None);
}

/// A node in keyed form none of whose entries from `i` on is named `msg`,
/// read from there with no message so far: it is rejected; and where the
/// node with the message `m` added at its end is read, the error is that of
/// the missing message.
proof fn lemma_missing_msg_from(
    entries: Seq<EntryView>,
    m: Seq<char>,
    i: int,
    type_tag: Option<Option<Seq<char>>>,
    source: Option<Seq<Seq<char>>>,
)
    requires
        0 <= i <= entries.len(),
        forall|j: int| i <= j < entries.len() ==> field_of((#[trigger] entries[j]).name) != Some(
            Field::Msg,
        ),
    ensures
        error_map(entries, i, type_tag, None, source) is Err,
        error_map(
            entries.push(field("msg"@, ValueView::Text(m))),
            i,
            type_tag,
            None,
            source,
        ) is Ok ==> error_map(entries, i, type_tag, None, source) == Err::<
            ErrorView,
            DecodeErrorView,
        >(DecodeErrorView::MissingField(Field::Msg)),
    decreases entries.len() - i,
{
    if i < entries.len() {
        let with = entries.push(field("msg"@, ValueView::Text(m)));
        assert(with[i] == entries[i]);
        match field_of(entries[i].name) {
            Some(Field::TypeName) => {
                if type_tag is None {
                    if let Ok(t) = name_slot(entries[i].value) {
                        lemma_missing_msg_from(entries, m, i + 1, Some(t), source);
                    }
                }
            },
            Some(Field::Source) => {
                if source is None {
                    if let Ok(s) = source_slot(entries[i].value) {
                        lemma_missing_msg_from(entries, m, i + 1, type_tag, Some(s));
                    }
                }
            },
            _ => {},
        }
    }
}

/// A missing message is rejected. A node in keyed form without a field named
/// `msg` is not read. Where the message is all that the node lacks, so that
/// the node with a message added at its end is read, the error is that of a
/// missing field, and names `msg`.
pub proof fn lemma_missing_msg(entries: Seq<EntryView>, m: Seq<char>)
    requires
        forall|j: int| 0 <= j < entries.len() ==> field_of((#[trigger] entries[j]).name) != Some(
            Field::Msg,
        ),
    ensures
        error_node(ValueView::Record(entries)) is Err,
        error_node(ValueView::Record(entries.push(field("msg"@, ValueView::Text(m))))) is Ok
            ==> error_node(ValueView::Record(entries)) == Err::<ErrorView, DecodeErrorView>(
            DecodeErrorView::MissingField(Field::Msg),
        ),
{
    lemma_missing_msg_from(entries, m, 0, None, None);
}

} // verus!
