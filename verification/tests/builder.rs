use electrolyte::{
    DecoderEvent, EventPayload, FloatBits, IonErrorType, IonReader, IonType, IonValue, Timestamp,
    UnsupportedKind,
};

fn ev(payload: EventPayload) -> DecoderEvent {
    DecoderEvent { field_name: None, annotations: Vec::new(), payload }
}

fn fev(name: &str, payload: EventPayload) -> DecoderEvent {
    DecoderEvent { field_name: Some(name.to_string()), annotations: Vec::new(), payload }
}

fn aev(anns: &[&str], payload: EventPayload) -> DecoderEvent {
    DecoderEvent {
        field_name: None,
        annotations: anns.iter().map(|a| a.to_string()).collect(),
        payload,
    }
}

#[test]
fn empty_document_builds_empty_sequence() {
    let events: Vec<DecoderEvent> = Vec::new();
    let doc = IonReader::read_document(&events).unwrap();
    let list = doc.as_list().unwrap();
    assert_eq!(list.len(), 0);
    assert!(doc.annotations().is_empty());
}

#[test]
fn scalars_round_trip_through_builder() {
    let events = vec![
        ev(EventPayload::Null),
        ev(EventPayload::Boolean(true)),
        ev(EventPayload::Integer(-42)),
        ev(EventPayload::Float(FloatBits { bits: 2.5f64.to_bits() })),
        ev(EventPayload::String("hello".to_string())),
        ev(EventPayload::Timestamp(Timestamp {
            epoch_seconds: 1700000000,
            nanosecond: 250,
            offset_seconds: 3600,
        })),
    ];
    let doc = IonReader::read_document(&events).unwrap();
    let list = doc.as_list().unwrap();
    assert_eq!(list.len(), 6);
    assert!(list.at(0).unwrap().is_type(IonType::Null));
    assert_eq!(list.at(1).unwrap().as_bool(), Some(true));
    assert_eq!(list.at(2).unwrap().as_int(), Some(-42));
    assert_eq!(list.at(3).unwrap().as_float().map(|f| f64::from_bits(f.bits)), Some(2.5));
    assert_eq!(list.at(4).unwrap().as_str(), Some("hello"));
    let ts = list.at(5).unwrap().as_timestamp().unwrap();
    assert_eq!(ts.epoch_seconds, 1700000000);
    assert_eq!(ts.nanosecond, 250);
    assert_eq!(ts.offset_seconds, 3600);
    assert!(list.at(6).is_none());
}

#[test]
fn annotations_are_preserved_verbatim() {
    let events = vec![aev(&["tag", "tag", "other"], EventPayload::Integer(1))];
    let doc = IonReader::read_document(&events).unwrap();
    let v = doc.as_list().unwrap().at(0).unwrap();
    let expected: Vec<String> =
        vec!["tag".to_string(), "tag".to_string(), "other".to_string()];
    assert_eq!(v.annotations(), &expected);
    assert!(v.has_annotation("tag"));
    assert!(v.has_annotation("other"));
    assert!(!v.has_annotation("absent"));
}

#[test]
fn nested_containers_build_in_order() {
    let events = vec![
        ev(EventPayload::ListStart),
        ev(EventPayload::Integer(1)),
        ev(EventPayload::ListStart),
        ev(EventPayload::Integer(2)),
        ev(EventPayload::ListEnd),
        ev(EventPayload::ListEnd),
    ];
    let doc = IonReader::read_document(&events).unwrap();
    let outer = doc.as_list().unwrap().at(0).unwrap().as_list().unwrap();
    assert_eq!(outer.len(), 2);
    assert_eq!(outer.at(0).unwrap().as_int(), Some(1));
    let inner = outer.at(1).unwrap().as_list().unwrap();
    assert_eq!(inner.len(), 1);
    assert_eq!(inner.at(0).unwrap().as_int(), Some(2));
}

#[test]
fn decimal_event_becomes_float_value() {
    let bits = FloatBits { bits: 0.125f64.to_bits() };
    let events = vec![ev(EventPayload::Decimal(bits))];
    let doc = IonReader::read_document(&events).unwrap();
    let v = doc.as_list().unwrap().at(0).unwrap();
    assert!(v.is_type(IonType::Float));
    assert_eq!(v.as_float().map(|f| f64::from_bits(f.bits)), Some(0.125));
}

#[test]
fn duplicate_field_names_keep_last_value() {
    let events = vec![
        ev(EventPayload::StructStart),
        fev("a", EventPayload::Integer(1)),
        fev("b", EventPayload::Integer(2)),
        fev("a", EventPayload::Integer(3)),
        ev(EventPayload::StructEnd),
    ];
    let doc = IonReader::read_document(&events).unwrap();
    let st = doc.as_list().unwrap().at(0).unwrap().as_struct().unwrap();
    assert_eq!(st.iter_fields().len(), 2);
    assert_eq!(st.field("a").unwrap().as_int(), Some(3));
    assert_eq!(st.field("b").unwrap().as_int(), Some(2));
    assert!(st.field("c").is_none());
}

#[test]
fn unsupported_tag_fails_fast_with_its_name() {
    for (kind, name) in [
        (UnsupportedKind::SExpr, "SExpr"),
        (UnsupportedKind::Blob, "Blob"),
        (UnsupportedKind::Clob, "Clob"),
        (UnsupportedKind::Symbol, "Symbol"),
        (UnsupportedKind::Datagram, "Datagram"),
    ] {
        let events = vec![ev(EventPayload::Unsupported(kind))];
        let err = IonReader::read_document(&events).unwrap_err();
        assert_eq!(err.ty, IonErrorType::TypeNotSupported(name.to_string()));
        assert!(err.scopes.is_empty());
    }
}

#[test]
fn unsupported_tag_inside_container_fails_whole_build() {
    let events = vec![
        ev(EventPayload::ListStart),
        ev(EventPayload::Integer(7)),
        ev(EventPayload::Unsupported(UnsupportedKind::Symbol)),
        ev(EventPayload::ListEnd),
    ];
    let err = IonReader::read_document(&events).unwrap_err();
    assert_eq!(err.ty, IonErrorType::TypeNotSupported("Symbol".to_string()));
}

#[test]
fn truncated_stream_is_a_parse_error() {
    let events = vec![ev(EventPayload::ListStart), ev(EventPayload::Integer(1))];
    let err = IonReader::read_document(&events).unwrap_err();
    assert!(matches!(err.ty, IonErrorType::ParseError(_)));
}

#[test]
fn stray_container_end_is_a_parse_error() {
    let events = vec![ev(EventPayload::ListEnd)];
    let err = IonReader::read_document(&events).unwrap_err();
    assert!(matches!(err.ty, IonErrorType::ParseError(_)));
}

#[test]
fn record_member_without_field_name_is_invalid() {
    let events = vec![
        ev(EventPayload::StructStart),
        ev(EventPayload::Integer(1)),
        ev(EventPayload::StructEnd),
    ];
    let err = IonReader::read_document(&events).unwrap_err();
    assert!(matches!(err.ty, IonErrorType::InvalidValue(_)));
}

#[test]
fn integer_widens_to_exact_double() {
    for i in [
        0i64,
        1,
        -1,
        3,
        -3,
        42,
        1023,
        -65536,
        i64::MAX,
        i64::MIN,
        9007199254740993,  // one above 2^53: rounds to even
        9007199254740995,  // ties away to the even neighbour above
        18014398509481983,  // 2^54 - 1: rounds up to 2^54
        -9007199254740993,
        1234567890123456789,
        -987654321987654321,
    ] {
        let v = IonValue::Integer(i, Vec::new());
        let got = v.as_float().unwrap().bits;
        assert_eq!(got, (i as f64).to_bits(), "widening {i}");
    }
}

#[test]
fn float_value_keeps_its_exact_bits() {
    for x in [0.0f64, -0.0, 1.5, -2.25, f64::INFINITY, f64::MIN_POSITIVE] {
        let v = IonValue::Float(FloatBits { bits: x.to_bits() }, Vec::new());
        assert_eq!(v.as_float().unwrap().bits, x.to_bits());
    }
    assert_eq!(IonValue::String("x".to_string(), Vec::new()).as_float(), None);
}
