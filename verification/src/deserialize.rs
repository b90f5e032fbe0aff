//! Reading an error chain back from a record: the mirror of `ErrTools::serialize`.

use crate::chain::{messages, opt_text, ConcreteError, DynError, Link};
use crate::value::{
    entry_views, item_views, lemma_list_view, lemma_record_view, Entry, EntryView, Value,
    ValueView,
};
use vstd::prelude::*;

verus! {

/// A field of the record of an error.
#[derive(Clone, Copy, Debug, PartialEq, Eq, Structural)]
pub enum Field {
    TypeName,
    Msg,
    Source,
}

/// Why a value was not accepted as the record of an error.
#[derive(Debug, PartialEq, Eq)]
pub enum DecodeError {
    /// A node in positional form ends before the field at this position.
    InvalidLength(usize),
    /// A node in keyed form has a field of this name, which the node does not know.
    UnknownField(String),
    /// A node in keyed form has this field twice.
    DuplicateField(Field),
    /// A node in keyed form lacks this field.
    MissingField(Field),
    /// The value of this field is not of the field's type.
    InvalidType(Field),
    /// The value that stands for a node is neither in positional nor in keyed form.
    NotANode,
}

/// The mathematical content of a [`DecodeError`].
pub enum DecodeErrorView {
    InvalidLength(usize),
    UnknownField(Seq<char>),
    DuplicateField(Field),
    MissingField(Field),
    InvalidType(Field),
    NotANode,
}

impl View for DecodeError {
    type V = DecodeErrorView;

    open spec fn view(&self) -> DecodeErrorView {
        match self {
            DecodeError::InvalidLength(n) => DecodeErrorView::InvalidLength(*n),
            DecodeError::UnknownField(name) => DecodeErrorView::UnknownField(name@),
            DecodeError::DuplicateField(f) => DecodeErrorView::DuplicateField(*f),
            DecodeError::MissingField(f) => DecodeErrorView::MissingField(*f),
            DecodeError::InvalidType(f) => DecodeErrorView::InvalidType(*f),
            DecodeError::NotANode => DecodeErrorView::NotANode,
        }
    }
}

/// The field that a name stands for.
pub open spec fn field_of(name: Seq<char>) -> Option<Field> {
    if name == "type_name"@ {
        Some(Field::TypeName)
    } else if name == "msg"@ {
        Some(Field::Msg)
    } else if name == "source"@ {
        Some(Field::Source)
    } else {
        None
    }
}

impl Field {
    /// The name under which the field is written.
    pub open spec fn name(self) -> Seq<char> {
        match self {
            Field::TypeName => "type_name"@,
            Field::Msg => "msg"@,
            Field::Source => "source"@,
        }
    }

    /// The name under which the field is written.
    pub fn as_str(&self) -> (name: &'static str)
        ensures
            name@ == self.name(),
    {
        match self {
            Field::TypeName => "type_name",
            Field::Msg => "msg",
            Field::Source => "source",
        }
    }

    /// Reads the name of a field: one of `type_name`, `msg` and `source`.
    pub fn deserialize(name: &String) -> (r: Result<Field, DecodeError>)
        ensures
            match field_of(name@) {
                Some(f) => r == Ok::<Field, DecodeError>(f),
                None => r is Err && r.unwrap_err()@ == DecodeErrorView::UnknownField(name@),
            },
    {
        if *name == "type_name".to_owned() {
            Ok(Field::TypeName)
        } else if *name == "msg".to_owned() {
            Ok(Field::Msg)
        } else if *name == "source".to_owned() {
            Ok(Field::Source)
        } else {
            Err(DecodeError::UnknownField(name.clone()))
        }
    }
}

/// What the slot of a text field holds.
pub open spec fn text_slot(v: ValueView, field: Field) -> Result<Seq<char>, DecodeErrorView> {
    match v {
        ValueView::Text(s) => Ok(s),
        _ => Err(DecodeErrorView::InvalidType(field)),
    }
}

/// What the slot of the name of the type holds: a text, or the marker that
/// there is none.
pub open spec fn name_slot(v: ValueView) -> Result<Option<Seq<char>>, DecodeErrorView> {
    match v {
        ValueView::Null => Ok(None),
        ValueView::Text(s) => Ok(Some(s)),
        _ => Err(DecodeErrorView::InvalidType(Field::TypeName)),
    }
}

/// The messages of the chain that the slot of a cause holds, head first: none
/// for the "no cause" marker, else those of the node that stands there.
pub open spec fn source_slot(v: ValueView) -> Result<Seq<Seq<char>>, DecodeErrorView>
    decreases v, 0int,
{
    match v {
        ValueView::Null => Ok(Seq::empty()),
        ValueView::Text(_) => Err(DecodeErrorView::NotANode),
        ValueView::List(items) => source_seq(items),
        ValueView::Record(entries) => source_map(entries, 0, None, None),
    }
}

/// The messages of the chain that a cause in positional form holds: its
/// message, then its own cause.
pub open spec fn source_seq(items: Seq<ValueView>) -> Result<Seq<Seq<char>>, DecodeErrorView>
    decreases items, 0int,
{
    if items.len() < 1 {
        Err(DecodeErrorView::InvalidLength(1))
    } else {
        match text_slot(items[0], Field::Msg) {
            Err(e) => Err(e),
            Ok(msg) => if items.len() < 2 {
                Err(DecodeErrorView::InvalidLength(2))
            } else {
                match source_slot(items[1]) {
                    Err(e) => Err(e),
                    Ok(rest) => Ok(seq![msg] + rest),
                }
            },
        }
    }
}

/// What is made of a cause in keyed form once all its entries are read.
pub open spec fn source_done(msg: Option<Seq<char>>, source: Option<Seq<Seq<char>>>) -> Result<
    Seq<Seq<char>>,
    DecodeErrorView,
> {
    match msg {
        None => Err(DecodeErrorView::MissingField(Field::Msg)),
        Some(m) => match source {
            None => Err(DecodeErrorView::MissingField(Field::Source)),
            Some(rest) => Ok(seq![m] + rest),
        },
    }
}

/// The messages of the chain that a cause in keyed form holds, its entries
/// read in their order from the one at `i` on; `msg` and `source` are what
/// the entries before it gave.
pub open spec fn source_map(
    entries: Seq<EntryView>,
    i: int,
    msg: Option<Seq<char>>,
    source: Option<Seq<Seq<char>>>,
) -> Result<Seq<Seq<char>>, DecodeErrorView>
    decreases entries, entries.len() - i,
{
    if i < 0 || i >= entries.len() {
        source_done(msg, source)
    } else {
        match field_of(entries[i].name) {
            None => Err(DecodeErrorView::UnknownField(entries[i].name)),
            Some(Field::TypeName) => Err(DecodeErrorView::UnknownField(entries[i].name)),
            Some(Field::Msg) => if msg is Some {
                Err(DecodeErrorView::DuplicateField(Field::Msg))
            } else {
                match text_slot(entries[i].value, Field::Msg) {
                    Err(e) => Err(e),
                    Ok(m) => source_map(entries, i + 1, Some(m), source),
                }
            },
            Some(Field::Source) => if source is Some {
                Err(DecodeErrorView::DuplicateField(Field::Source))
            } else {
                match source_slot(entries[i].value) {
                    Err(e) => Err(e),
                    Ok(rest) => source_map(entries, i + 1, msg, Some(rest)),
                }
            },
        }
    }
}

/// The messages of the chain that a value holds as the record of a cause.
pub open spec fn source_node(v: ValueView) -> Result<Seq<Seq<char>>, DecodeErrorView> {
    match v {
        ValueView::Null => Err(DecodeErrorView::NotANode),
        _ => source_slot(v),
    }
}

/// What a record of an error holds: the name of the type of its head, where
/// the record gives one, and the messages of the chain, head first.
pub struct ErrorView {
    pub type_tag: Option<Seq<char>>,
    pub msgs: Seq<Seq<char>>,
}

/// What a node in positional form holds: the name of the type, the message,
/// the cause.
pub open spec fn error_seq(items: Seq<ValueView>) -> Result<ErrorView, DecodeErrorView> {
    if items.len() < 1 {
        Err(DecodeErrorView::InvalidLength(0))
    } else {
        match name_slot(items[0]) {
            Err(e) => Err(e),
            Ok(type_tag) => if items.len() < 2 {
                Err(DecodeErrorView::InvalidLength(1))
            } else {
                match text_slot(items[1], Field::Msg) {
                    Err(e) => Err(e),
                    Ok(msg) => if items.len() < 3 {
                        Err(DecodeErrorView::InvalidLength(2))
                    } else {
                        match source_slot(items[2]) {
                            Err(e) => Err(e),
                            Ok(rest) => Ok(ErrorView { type_tag, msgs: seq![msg] + rest }),
                        }
                    },
                }
            },
        }
    }
}

/// What is made of a node in keyed form once all its entries are read.
pub open spec fn error_done(
    type_tag: Option<Option<Seq<char>>>,
    msg: Option<Seq<char>>,
    source: Option<Seq<Seq<char>>>,
) -> Result<ErrorView, DecodeErrorView> {
    match source_done(msg, source) {
        Err(e) => Err(e),
        Ok(msgs) => Ok(
            ErrorView {
                type_tag: match type_tag {
                    Some(t) => t,
                    None => None,
                },
                msgs,
            },
        ),
    }
}

/// What a node in keyed form holds, its entries read in their order from the
/// one at `i` on; `type_tag`, `msg` and `source` are what the entries before
/// it gave.
pub open spec fn error_map(
    entries: Seq<EntryView>,
    i: int,
    type_tag: Option<Option<Seq<char>>>,
    msg: Option<Seq<char>>,
    source: Option<Seq<Seq<char>>>,
) -> Result<ErrorView, DecodeErrorView>
    decreases entries.len() - i,
{
    if i < 0 || i >= entries.len() {
        error_done(type_tag, msg, source)
    } else {
        match field_of(entries[i].name) {
            None => Err(DecodeErrorView::UnknownField(entries[i].name)),
            Some(Field::TypeName) => if type_tag is Some {
                Err(DecodeErrorView::DuplicateField(Field::TypeName))
            } else {
                match name_slot(entries[i].value) {
                    Err(e) => Err(e),
                    Ok(t) => error_map(entries, i + 1, Some(t), msg, source),
                }
            },
            Some(Field::Msg) => if msg is Some {
                Err(DecodeErrorView::DuplicateField(Field::Msg))
            } else {
                match text_slot(entries[i].value, Field::Msg) {
                    Err(e) => Err(e),
                    Ok(m) => error_map(entries, i + 1, type_tag, Some(m), source),
                }
            },
            Some(Field::Source) => if source is Some {
                Err(DecodeErrorView::DuplicateField(Field::Source))
            } else {
                match source_slot(entries[i].value) {
                    Err(e) => Err(e),
                    Ok(rest) => error_map(entries, i + 1, type_tag, msg, Some(rest)),
                }
            },
        }
    }
}

/// What a value holds as the record of an error.
pub open spec fn error_node(v: ValueView) -> Result<ErrorView, DecodeErrorView> {
    match v {
        ValueView::List(items) => error_seq(items),
        ValueView::Record(entries) => error_map(entries, 0, None, None, None),
        _ => Err(DecodeErrorView::NotANode),
    }
}

/// The chain of an error that was read from a record: the head is of the
/// type named `head`, its causes are of the type of causes read from a
/// record, and nothing has a backtrace.
pub open spec fn read_chain(head: Seq<char>, msgs: Seq<Seq<char>>) -> Seq<Link> {
    Seq::new(
        msgs.len(),
        |i: int|
            Link {
                type_tag: if i == 0 {
                    head
                } else {
                    "errtools::deserialize::SourceError"@
                },
                msg: msgs[i],
                backtrace: None,
            },
    )
}

/// A cause, read from a record: its message and its own cause.
#[derive(Debug, PartialEq, Eq)]
pub struct SourceError {
    chain: DynError,
}

/// An error, read from a record: the name of the type that the record gives
/// for it, if any, its message and its cause.
#[derive(Debug, PartialEq, Eq)]
pub struct Error {
    type_tag: Option<String>,
    chain: DynError,
}

/// The messages of the cause that `source` holds, if any.
pub open spec fn source_msgs(source: Option<SourceError>) -> Seq<Seq<char>> {
    match source {
        Some(s) => s@,
        None => Seq::empty(),
    }
}

impl View for SourceError {
    type V = Seq<Seq<char>>;

    /// The messages of the chain, head first.
    closed spec fn view(&self) -> Seq<Seq<char>> {
        messages(self.chain@)
    }
}

impl View for Error {
    type V = ErrorView;

    closed spec fn view(&self) -> ErrorView {
        ErrorView { type_tag: opt_text(self.type_tag), msgs: messages(self.chain@) }
    }
}

impl SourceError {
    #[verifier::type_invariant]
    spec fn inv(self) -> bool {
        self.wf()
    }

    /// The chain is that of a cause read from a record.
    pub closed spec fn wf(&self) -> bool {
        self.chain@ == read_chain("errtools::deserialize::SourceError"@, messages(self.chain@))
    }

    /// The cause with the message `msg` and the cause `source`.
    pub fn new(msg: String, source: Option<SourceError>) -> (e: SourceError)
        ensures
            e@ == seq![msg@] + source_msgs(source),
            e.wf(),
    {
        let ghost rest = source_msgs(source);
        let cause = match source {
            Some(s) => {
                proof {
                    use_type_invariant(&s);
                }
                Some(Box::new(s.chain))
            },
            None => None,
        };
        let chain = DynError {
            type_tag: "errtools::deserialize::SourceError".to_owned(),
            msg,
            backtrace: None,
            source: cause,
        };
        proof {
            assert(messages(chain@) =~= seq![msg@] + rest);
            assert(chain@ =~= read_chain(
                "errtools::deserialize::SourceError"@,
                messages(chain@),
            ));
        }
        SourceError { chain }
    }

    /// The message of this cause.
    pub fn to_string(&self) -> (msg: String)
        ensures
            self@.len() > 0,
            msg@ == self@[0],
    {
        self.chain.msg.clone()
    }

    /// The cause of this cause, if it has one.
    pub fn source(&self) -> (cause: Option<&DynError>)
        ensures
            self@.len() > 0,
            match cause {
                Some(c) => c@ == self.spec_as_dyn()@.skip(1) && messages(c@) == self@.skip(1),
                None => self@.len() == 1,
            },
    {
        proof {
            assert(messages(self.chain@.skip(1)) =~= messages(self.chain@).skip(1));
        }
        match &self.chain.source {
            Some(cause) => {
                proof {
                    assert(self.chain@.skip(1) == cause@);
                }
                Some(&**cause)
            },
            None => None,
        }
    }

    /// Reads a cause from its record, in positional or in keyed form.
    pub fn deserialize(value: &Value) -> (r: Result<SourceError, DecodeError>)
        ensures
            source_result(r) == source_node(value@),
        decreases value, 1int,
    {
        match value {
            Value::List(items) => {
                proof {
                    lemma_list_view(*items);
                }
                SourceErrorVisitor.visit_seq(items)
            },
            Value::Record(entries) => {
                proof {
                    lemma_record_view(*entries);
                }
                SourceErrorVisitor.visit_map(entries)
            },
            _ => Err(DecodeError::NotANode),
        }
    }
}

/// What a result of reading a cause holds.
pub open spec fn source_result(r: Result<SourceError, DecodeError>) -> Result<
    Seq<Seq<char>>,
    DecodeErrorView,
> {
    match r {
        Ok(e) => Ok(e@),
        Err(e) => Err(e@),
    }
}

/// What a result of reading the slot of a cause holds.
pub open spec fn slot_result(r: Result<Option<SourceError>, DecodeError>) -> Result<
    Seq<Seq<char>>,
    DecodeErrorView,
> {
    match r {
        Ok(s) => Ok(source_msgs(s)),
        Err(e) => Err(e@),
    }
}

/// What a result of reading an error holds.
pub open spec fn error_result(r: Result<Error, DecodeError>) -> Result<ErrorView, DecodeErrorView> {
    match r {
        Ok(e) => Ok(e@),
        Err(e) => Err(e@),
    }
}

/// Reads the slot of a cause: the "no cause" marker, or the record of a cause.
fn read_source_slot(value: &Value) -> (r: Result<Option<SourceError>, DecodeError>)
    ensures
        slot_result(r) == source_slot(value@),
    decreases value, 2int,
{
    match value {
        Value::Null => Ok(None),
        _ => match SourceError::deserialize(value) {
            Ok(s) => Ok(Some(s)),
            Err(e) => Err(e),
        },
    }
}

/// Reads the slot of a text field.
fn read_text_slot(value: &Value, field: Field) -> (r: Result<String, DecodeError>)
    ensures
        match text_slot(value@, field) {
            Ok(s) => r is Ok && r.unwrap()@ == s,
            Err(e) => r is Err && r.unwrap_err()@ == e,
        },
{
    match value {
        Value::Text(s) => Ok(s.clone()),
        _ => Err(DecodeError::InvalidType(field)),
    }
}

/// Reads the slot of the name of the type.
fn read_name_slot(value: &Value) -> (r: Result<Option<String>, DecodeError>)
    ensures
        match name_slot(value@) {
            Ok(s) => r is Ok && opt_text(r.unwrap()) == s,
            Err(e) => r is Err && r.unwrap_err()@ == e,
        },
{
    match value {
        Value::Null => Ok(None),
        Value::Text(s) => Ok(Some(s.clone())),
        _ => Err(DecodeError::InvalidType(Field::TypeName)),
    }
}

/// Reads the record of a cause.
pub struct SourceErrorVisitor;

impl SourceErrorVisitor {
    /// What this reader accepts, in words.
    pub fn expecting(&self) -> (words: &'static str)
        ensures
            words@ == "struct errtools::deserialize::Error"@,
    {
        "struct errtools::deserialize::Error"
    }

    /// Reads a cause in positional form: its message, then its cause.
    pub fn visit_seq(&self, items: &Vec<Value>) -> (r: Result<SourceError, DecodeError>)
        ensures
            source_result(r) == source_seq(item_views(items@)),
        decreases items, 0int,
    {
        if items.len() < 1 {
            return Err(DecodeError::InvalidLength(1));
        }
        let msg = match read_text_slot(&items[0], Field::Msg) {
            Ok(m) => m,
            Err(e) => {
                return Err(e);
            },
        };
        if items.len() < 2 {
            return Err(DecodeError::InvalidLength(2));
        }
        let source = match read_source_slot(&items[1]) {
            Ok(s) => s,
            Err(e) => {
                return Err(e);
            },
        };
        Ok(SourceError::new(msg, source))
    }

    /// Reads a cause in keyed form: `msg` and `source`, each once, in any order.
    pub fn visit_map(&self, entries: &Vec<Entry>) -> (r: Result<SourceError, DecodeError>)
        ensures
            source_result(r) == source_map(entry_views(entries@), 0, None, None),
        decreases entries, 0int,
    {
        let ghost all = entry_views(entries@);
        let mut msg: Option<String> = None;
        let mut source: Option<Option<SourceError>> = None;
        let mut i: usize = 0;
        while i < entries.len()
            invariant
                i <= entries.len(),
                all == entry_views(entries@),
                source_map(all, 0, None, None) == source_map(
                    all,
                    i as int,
                    opt_text(msg),
                    match source {
                        Some(s) => Some(source_msgs(s)),
                        None => None,
                    },
                ),
            decreases entries.len() - i,
        {
            let entry = &entries[i];
            let field = match Field::deserialize(&entry.name) {
                Ok(f) => f,
                Err(e) => {
                    return Err(e);
                },
            };
            match field {
                Field::TypeName => {
                    return Err(DecodeError::UnknownField(entry.name.clone()));
                },
                Field::Msg => {
                    if msg.is_some() {
                        return Err(DecodeError::DuplicateField(Field::Msg));
                    }
                    match read_text_slot(&entry.value, Field::Msg) {
                        Ok(m) => {
                            msg = Some(m);
                        },
                        Err(e) => {
                            return Err(e);
                        },
                    }
                },
                Field::Source => {
                    if source.is_some() {
                        return Err(DecodeError::DuplicateField(Field::Source));
                    }
                    match read_source_slot(&entry.value) {
                        Ok(s) => {
                            source = Some(s);
                        },
                        Err(e) => {
                            return Err(e);
                        },
                    }
                },
            }
            i = i + 1;
        }
        let msg = match msg {
            Some(m) => m,
            None => {
                return Err(DecodeError::MissingField(Field::Msg));
            },
        };
        let source = match source {
            Some(s) => s,
            None => {
                return Err(DecodeError::MissingField(Field::Source));
            },
        };
        Ok(SourceError::new(msg, source))
    }
}

impl Error {
    #[verifier::type_invariant]
    spec fn inv(self) -> bool {
        self.wf()
    }

    /// The chain is that of an error read from a record.
    pub closed spec fn wf(&self) -> bool {
        self.chain@ == read_chain("errtools::deserialize::Error"@, messages(self.chain@))
    }

    /// The error with the message `msg` and the cause `source`, for which a
    /// record gave the name `type_tag`.
    pub fn new(type_tag: Option<String>, msg: String, source: Option<SourceError>) -> (e: Error)
        ensures
            e@ == (ErrorView { type_tag: opt_text(type_tag), msgs: seq![msg@] + source_msgs(source) }),
            e.wf(),
    {
        let ghost rest = source_msgs(source);
        let cause = match source {
            Some(s) => {
                proof {
                    use_type_invariant(&s);
                }
                Some(Box::new(s.chain))
            },
            None => None,
        };
        let chain = DynError {
            type_tag: "errtools::deserialize::Error".to_owned(),
            msg,
            backtrace: None,
            source: cause,
        };
        proof {
            assert(messages(chain@) =~= seq![msg@] + rest);
            assert(chain@ =~= read_chain("errtools::deserialize::Error"@, messages(chain@)));
        }
        Error { type_tag, chain }
    }

    /// The name that the record gave for the type of this error, if any.
    pub fn type_tag(&self) -> (name: Option<&String>)
        ensures
            match name {
                Some(n) => self@.type_tag == Some(n@),
                None => self@.type_tag is None,
            },
    {
        self.type_tag.as_ref()
    }

    /// The message of this error.
    pub fn to_string(&self) -> (msg: String)
        ensures
            self@.msgs.len() > 0,
            msg@ == self@.msgs[0],
    {
        self.chain.msg.clone()
    }

    /// The cause of this error, if it has one.
    pub fn source(&self) -> (cause: Option<&DynError>)
        ensures
            self@.msgs.len() > 0,
            match cause {
                Some(c) => c@ == self.spec_as_dyn()@.skip(1) && messages(c@) == self@.msgs.skip(1),
                None => self@.msgs.len() == 1,
            },
    {
        proof {
            assert(messages(self.chain@.skip(1)) =~= messages(self.chain@).skip(1));
        }
        match &self.chain.source {
            Some(cause) => {
                proof {
                    assert(self.chain@.skip(1) == cause@);
                }
                Some(&**cause)
            },
            None => None,
        }
    }

    /// Reads an error from its record, in positional or in keyed form.
    pub fn deserialize(value: &Value) -> (r: Result<Error, DecodeError>)
        ensures
            error_result(r) == error_node(value@),
    {
        match value {
            Value::List(items) => {
                proof {
                    lemma_list_view(*items);
                }
                ErrorVisitor.visit_seq(items)
            },
            Value::Record(entries) => {
                proof {
                    lemma_record_view(*entries);
                }
                ErrorVisitor.visit_map(entries)
            },
            _ => Err(DecodeError::NotANode),
        }
    }
}

/// Reads the record of an error.
pub struct ErrorVisitor;

impl ErrorVisitor {
    /// What this reader accepts, in words.
    pub fn expecting(&self) -> (words: &'static str)
        ensures
            words@ == "struct errtools::deserialize::Error"@,
    {
        "struct errtools::deserialize::Error"
    }

    /// Reads an error in positional form: the name of its type, its message,
    /// its cause.
    pub fn visit_seq(&self, items: &Vec<Value>) -> (r: Result<Error, DecodeError>)
        ensures
            error_result(r) == error_seq(item_views(items@)),
    {
        if items.len() < 1 {
            return Err(DecodeError::InvalidLength(0));
        }
        let type_tag = match read_name_slot(&items[0]) {
            Ok(t) => t,
            Err(e) => {
                return Err(e);
            },
        };
        if items.len() < 2 {
            return Err(DecodeError::InvalidLength(1));
        }
        let msg = match read_text_slot(&items[1], Field::Msg) {
            Ok(m) => m,
            Err(e) => {
                return Err(e);
            },
        };
        if items.len() < 3 {
            return Err(DecodeError::InvalidLength(2));
        }
        let source = match read_source_slot(&items[2]) {
            Ok(s) => s,
            Err(e) => {
                return Err(e);
            },
        };
        Ok(Error::new(type_tag, msg, source))
    }

    /// Reads an error in keyed form: `msg` and `source`, and `type_name` or
    /// not, each once at most, in any order.
    pub fn visit_map(&self, entries: &Vec<Entry>) -> (r: Result<Error, DecodeError>)
        ensures
            error_result(r) == error_map(entry_views(entries@), 0, None, None, None),
    {
        let ghost all = entry_views(entries@);
        let mut type_tag: Option<Option<String>> = None;
        let mut msg: Option<String> = None;
        let mut source: Option<Option<SourceError>> = None;
        let mut i: usize = 0;
        while i < entries.len()
            invariant
                i <= entries.len(),
                all == entry_views(entries@),
                error_map(all, 0, None, None, None) == error_map(
                    all,
                    i as int,
                    match type_tag {
                        Some(t) => Some(opt_text(t)),
                        None => None,
                    },
                    opt_text(msg),
                    match source {
                        Some(s) => Some(source_msgs(s)),
                        None => None,
                    },
                ),
            decreases entries.len() - i,
        {
            let entry = &entries[i];
            let field = match Field::deserialize(&entry.name) {
                Ok(f) => f,
                Err(e) => {
                    return Err(e);
                },
            };
            match field {
                Field::TypeName => {
                    if type_tag.is_some() {
                        return Err(DecodeError::DuplicateField(Field::TypeName));
                    }
                    match read_name_slot(&entry.value) {
                        Ok(t) => {
                            type_tag = Some(t);
                        },
                        Err(e) => {
                            return Err(e);
                        },
                    }
                },
                Field::Msg => {
                    if msg.is_some() {
                        return Err(DecodeError::DuplicateField(Field::Msg));
                    }
                    match read_text_slot(&entry.value, Field::Msg) {
                        Ok(m) => {
                            msg = Some(m);
                        },
                        Err(e) => {
                            return Err(e);
                        },
                    }
                },
                Field::Source => {
                    if source.is_some() {
                        return Err(DecodeError::DuplicateField(Field::Source));
                    }
                    match read_source_slot(&entry.value) {
                        Ok(s) => {
                            source = Some(s);
                        },
                        Err(e) => {
                            return Err(e);
                        },
                    }
                },
            }
            i = i + 1;
        }
        let msg = match msg {
            Some(m) => m,
            None => {
                return Err(DecodeError::MissingField(Field::Msg));
            },
        };
        let source = match source {
            Some(s) => s,
            None => {
                return Err(DecodeError::MissingField(Field::Source));
            },
        };
        let type_tag = match type_tag {
            Some(t) => t,
            None => None,
        };
        Ok(Error::new(type_tag, msg, source))
    }
}

impl ConcreteError for SourceError {
    open spec fn spec_name() -> Seq<char> {
        "errtools::deserialize::SourceError"@
    }

    closed spec fn spec_as_dyn(&self) -> DynError {
        self.chain
    }

    fn name() -> (name: String) {
        "errtools::deserialize::SourceError".to_owned()
    }

    fn as_dyn(&self) -> (erased: &DynError) {
        proof {
            use_type_invariant(self);
            assert(self.chain@[0] == self.chain.head());
        }
        &self.chain
    }
}

impl ConcreteError for Error {
    open spec fn spec_name() -> Seq<char> {
        "errtools::deserialize::Error"@
    }

    closed spec fn spec_as_dyn(&self) -> DynError {
        self.chain
    }

    fn name() -> (name: String) {
        "errtools::deserialize::Error".to_owned()
    }

    fn as_dyn(&self) -> (erased: &DynError) {
        proof {
            use_type_invariant(self);
            assert(self.chain@[0] == self.chain.head());
        }
        &self.chain
    }
}

/// An error that was read from a record is, with its type erased, the chain
/// of its messages: its head of the type `Error`, each cause of the type
/// `SourceError`, and none with a backtrace.
pub proof fn lemma_error_chain(e: Error)
    requires
        e.wf(),
    ensures
        e.spec_as_dyn()@ == read_chain("errtools::deserialize::Error"@, e@.msgs),
{
}

/// A cause that was read from a record is, with its type erased, the chain
/// of its messages: each error of the type `SourceError`, and none with a
/// backtrace.
pub proof fn lemma_source_chain(e: SourceError)
    requires
        e.wf(),
    ensures
        e.spec_as_dyn()@ == read_chain("errtools::deserialize::SourceError"@, e@),
{
}

} // verus!
