//! The decoder's event stream, as plain data.  An external pull-decoder is
//! flattened into one event per cursor advance, in document order: scalars
//! carry their payload, containers are bracketed by start and end events,
//! and a value inside a record carries its field name.

use vstd::prelude::*;
use crate::double::FloatBits;
use crate::types::{anns_view, Timestamp};

verus! {

/// A decoder tag the tree builder refuses to materialize.
#[derive(Clone, Copy, Debug, PartialEq, Eq, Structural)]
pub enum UnsupportedKind {
    SExpr,
    Blob,
    Clob,
    Symbol,
    Datagram,
}

impl UnsupportedKind {
    /// The kind's name, as the unsupported-type error reports it.
    pub open spec fn name_spec(self) -> Seq<char> {
        match self {
            UnsupportedKind::SExpr => "SExpr"@,
            UnsupportedKind::Blob => "Blob"@,
            UnsupportedKind::Clob => "Clob"@,
            UnsupportedKind::Symbol => "Symbol"@,
            UnsupportedKind::Datagram => "Datagram"@,
        }
    }

    /// The kind's name, as the unsupported-type error reports it.
    pub fn name(&self) -> (r: String)
        ensures
            r@ == self.name_spec(),
    {
        match self {
            UnsupportedKind::SExpr => "SExpr".to_string(),
            UnsupportedKind::Blob => "Blob".to_string(),
            UnsupportedKind::Clob => "Clob".to_string(),
            UnsupportedKind::Symbol => "Symbol".to_string(),
            UnsupportedKind::Datagram => "Datagram".to_string(),
        }
    }
}

/// What one cursor advance of the decoder reported.  A decimal arrives
/// already combined into the double nearest to coefficient × 10^exponent
/// (a lossy, approximate conversion performed by the decoder adapter).
#[derive(Clone, Debug, PartialEq)]
pub enum EventPayload {
    Null,
    Boolean(bool),
    Integer(i64),
    Float(FloatBits),
    Decimal(FloatBits),
    String(String),
    Timestamp(Timestamp),
    ListStart,
    ListEnd,
    StructStart,
    StructEnd,
    Unsupported(UnsupportedKind),
}

/// One decoder event: the payload, the annotations read at that position,
/// and — when the cursor sat inside a record — the field name.
#[derive(Clone, Debug, PartialEq)]
pub struct DecoderEvent {
    pub field_name: Option<String>,
    pub annotations: Vec<String>,
    pub payload: EventPayload,
}

/// The mathematical shape of an event payload.
#[verifier::ext_equal]
pub enum PayloadView {
    Null,
    Boolean(bool),
    Integer(i64),
    Float(FloatBits),
    Decimal(FloatBits),
    String(Seq<char>),
    Timestamp(Timestamp),
    ListStart,
    ListEnd,
    StructStart,
    StructEnd,
    Unsupported(UnsupportedKind),
}

impl View for EventPayload {
    type V = PayloadView;

    open spec fn view(&self) -> PayloadView {
        match *self {
            EventPayload::Null => PayloadView::Null,
            EventPayload::Boolean(b) => PayloadView::Boolean(b),
            EventPayload::Integer(i) => PayloadView::Integer(i),
            EventPayload::Float(f) => PayloadView::Float(f),
            EventPayload::Decimal(f) => PayloadView::Decimal(f),
            EventPayload::String(ref s) => PayloadView::String(s@),
            EventPayload::Timestamp(t) => PayloadView::Timestamp(t),
            EventPayload::ListStart => PayloadView::ListStart,
            EventPayload::ListEnd => PayloadView::ListEnd,
            EventPayload::StructStart => PayloadView::StructStart,
            EventPayload::StructEnd => PayloadView::StructEnd,
            EventPayload::Unsupported(k) => PayloadView::Unsupported(k),
        }
    }
}

/// The mathematical shape of one decoder event.
#[verifier::ext_equal]
pub struct EventView {
    pub field_name: Option<Seq<char>>,
    pub annotations: Seq<Seq<char>>,
    pub payload: PayloadView,
}

impl View for DecoderEvent {
    type V = EventView;

    open spec fn view(&self) -> EventView {
        EventView {
            field_name: match self.field_name {
                Option::Some(ref s) => Option::Some(s@),
                Option::None => Option::None,
            },
            annotations: anns_view(self.annotations),
            payload: self.payload@,
        }
    }
}

} // verus!
