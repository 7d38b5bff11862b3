use electrolyte::{
    DecoderEvent, EventPayload, FloatBits, IonDeserialize, IonError, IonErrorType, IonReader,
    IonType, IonValue, IonWalker, Timestamp,
};

fn wev(payload: EventPayload) -> DecoderEvent {
    DecoderEvent { field_name: None, annotations: Vec::new(), payload }
}

fn wfev(name: &str, payload: EventPayload) -> DecoderEvent {
    DecoderEvent { field_name: Some(name.to_string()), annotations: Vec::new(), payload }
}

fn two_records() -> IonValue {
    // [{"name": "x", "count": 3}, {"name": "y", "count": -1}]
    let events = vec![
        wev(EventPayload::StructStart),
        wfev("name", EventPayload::String("x".to_string())),
        wfev("count", EventPayload::Integer(3)),
        wev(EventPayload::StructEnd),
        wev(EventPayload::StructStart),
        wfev("name", EventPayload::String("y".to_string())),
        wfev("count", EventPayload::Integer(-1)),
        wev(EventPayload::StructEnd),
    ];
    IonReader::read_document(&events).unwrap()
}

#[test]
fn two_records_scenario_walks_counts_and_reports_paths() {
    let doc = two_records();
    let root = IonWalker::new(&doc);
    let list = root.as_list().unwrap();
    assert_eq!(list.len(), 2);

    let w0 = IonWalker::new(list.at(0).unwrap());
    assert_eq!(w0.get_integer("count").unwrap(), 3);
    assert_eq!(w0.get_string("name").unwrap(), "x");

    let elem1 = list.at(1).unwrap();
    let w1 = IonWalker::with_scopes(elem1, vec!["<index 1>".to_string()]);
    assert_eq!(w1.get_integer("count").unwrap(), -1);

    let err = w1.get_integer("missing").unwrap_err();
    assert_eq!(err.ty, IonErrorType::MissingField("missing".to_string()));
    assert_eq!(err.scopes, vec!["<index 1>".to_string(), "missing".to_string()]);

    let err0 = w0.get_integer("missing").unwrap_err();
    assert_eq!(err0.scopes, vec!["missing".to_string()]);
}

#[test]
fn nested_wrong_type_reports_full_path() {
    // {a: {b: "x"}} queried for an integer at a.b
    let events = vec![
        wev(EventPayload::StructStart),
        wfev("a", EventPayload::StructStart),
        wfev("b", EventPayload::String("x".to_string())),
        wev(EventPayload::StructEnd),
        wev(EventPayload::StructEnd),
    ];
    let doc = IonReader::read_document(&events).unwrap();
    let root_list = doc.as_list().unwrap();
    let outer = IonWalker::new(root_list.at(0).unwrap());
    let record = outer.as_struct().unwrap();
    let a_value = record.field("a").unwrap();
    let wa = IonWalker::with_scopes(a_value, outer.clone_scopes_with("a"));
    let err = wa.get_integer("b").unwrap_err();
    assert_eq!(
        err.ty,
        IonErrorType::WrongType { found: IonType::String, expected: IonType::Integer }
    );
    assert_eq!(err.scopes, vec!["a".to_string(), "b".to_string()]);

    let err2 = wa.get_integer("missing").unwrap_err();
    assert_eq!(err2.ty, IonErrorType::MissingField("missing".to_string()));
    assert_eq!(err2.scopes, vec!["a".to_string(), "missing".to_string()]);
}

#[test]
fn get_field_wrong_type_extends_path_with_field_name() {
    let doc = two_records();
    let list = doc.as_list().unwrap();
    let w = IonWalker::new(list.at(0).unwrap());
    let err = w.get_integer("name").unwrap_err();
    assert_eq!(
        err.ty,
        IonErrorType::WrongType { found: IonType::String, expected: IonType::Integer }
    );
    assert_eq!(err.scopes, vec!["name".to_string()]);
}

#[test]
fn walker_narrowing_is_strict_for_floats() {
    let v = IonValue::Integer(5, Vec::new());
    let w = IonWalker::new(&v);
    let err = w.as_float().unwrap_err();
    assert_eq!(
        err.ty,
        IonErrorType::WrongType { found: IonType::Integer, expected: IonType::Float }
    );
    // the value model's probing accessor widens instead
    assert_eq!(v.as_float().map(|f| f64::from_bits(f.bits)), Some(5.0));
}

#[test]
fn walker_scalar_accessors_narrow_by_tag() {
    let b = IonValue::Boolean(true, Vec::new());
    let s = IonValue::String("txt".to_string(), Vec::new());
    let t = IonValue::Timestamp(
        Timestamp { epoch_seconds: 5, nanosecond: 6, offset_seconds: 7 },
        Vec::new(),
    );
    let blob = IonValue::Blob(vec![1, 2, 3], Vec::new());
    let null = IonValue::Null(Vec::new());
    assert!(IonWalker::new(&b).as_boolean().unwrap());
    assert_eq!(IonWalker::new(&s).as_string().unwrap(), "txt");
    assert_eq!(IonWalker::new(&t).as_timestamp().unwrap().epoch_seconds, 5);
    assert_eq!(IonWalker::new(&blob).as_blob().unwrap(), &[1u8, 2, 3][..]);
    assert!(IonWalker::new(&null).as_null().is_ok());
    assert!(IonWalker::new(&b).as_string().is_err());
    assert!(IonWalker::new(&s).as_list().is_err());
}

#[test]
fn sized_sequence_returns_some_only_for_exact_length() {
    let events = vec![
        wev(EventPayload::ListStart),
        wev(EventPayload::Integer(1)),
        wev(EventPayload::Integer(2)),
        wev(EventPayload::Integer(3)),
        wev(EventPayload::ListEnd),
    ];
    let doc = IonReader::read_document(&events).unwrap();
    let v = doc.as_list().unwrap().at(0).unwrap();
    assert!(v.as_list_sized::<3>().is_some());
    assert_eq!(v.as_list_sized::<3>().unwrap().len(), 3);
    assert!(v.as_list_sized::<2>().is_none());
    assert!(v.as_list_sized::<4>().is_none());
    assert!(v.as_list_sized::<0>().is_none());
    let not_list = IonValue::Integer(9, Vec::new());
    assert!(not_list.as_list_sized::<0>().is_none());
}

#[test]
fn annotation_membership_ignores_position() {
    let make = |anns: &[&str]| {
        IonValue::Integer(0, anns.iter().map(|a| a.to_string()).collect())
    };
    assert!(make(&["x", "y", "z"]).has_annotation("x"));
    assert!(make(&["y", "x", "z"]).has_annotation("x"));
    assert!(make(&["y", "z", "x"]).has_annotation("x"));
    assert!(!make(&[]).has_annotation("x"));
    assert!(!make(&["y", "z"]).has_annotation("x"));
}

#[test]
fn deserialize_builtin_integers() {
    let v = IonValue::Integer(300, Vec::new());
    let w = IonWalker::new(&v);
    assert_eq!(w.as_type::<i64>().unwrap(), 300);
    assert_eq!(w.as_type::<i32>().unwrap(), 300);
    assert_eq!(IonWalker::deserialize::<i64>(&v).unwrap(), 300);
    let scoped: Result<i64, _> =
        IonWalker::deserialize_with_scopes(&IonValue::Null(Vec::new()), &vec!["s".to_string()]);
    assert_eq!(scoped.unwrap_err().scopes, vec!["s".to_string()]);
    let big = IonValue::Integer((1i64 << 40) + 5, Vec::new());
    assert_eq!(IonWalker::new(&big).as_type::<i32>().unwrap(), 5);
    let f = IonValue::Float(FloatBits { bits: 1.5f64.to_bits() }, Vec::new());
    assert_eq!(
        IonWalker::new(&f).as_type::<FloatBits>().unwrap().bits,
        1.5f64.to_bits()
    );
    assert!(IonWalker::new(&f).as_type::<i64>().is_err());
}

#[test]
fn get_type_descends_with_extended_path() {
    let doc = two_records();
    let list = doc.as_list().unwrap();
    let w = IonWalker::new(list.at(0).unwrap());
    assert_eq!(w.get_type::<i64>("count").unwrap(), 3);
    let err = w.get_type::<i64>("name").unwrap_err();
    assert_eq!(err.scopes, vec!["name".to_string()]);
}

#[test]
fn into_map_of_converts_every_field() {
    let doc = two_records();
    let list = doc.as_list().unwrap();
    let st = list.at(1).unwrap().as_struct().unwrap();
    let err = st
        .into_map_of::<i64>(Some(vec!["root".to_string()]))
        .unwrap_err();
    // the "name" field is a string, so conversion fails there
    assert_eq!(
        err.ty,
        IonErrorType::WrongType { found: IonType::String, expected: IonType::Integer }
    );
    assert_eq!(err.scopes, vec!["root".to_string(), "name".to_string()]);

    let events = vec![
        wev(EventPayload::StructStart),
        wfev("x", EventPayload::Integer(1)),
        wfev("y", EventPayload::Integer(2)),
        wev(EventPayload::StructEnd),
    ];
    let doc2 = IonReader::read_document(&events).unwrap();
    let lst = doc2.as_list().unwrap();
    let st2 = lst.at(0).unwrap().as_struct().unwrap();
    let map = st2.into_map_of::<i64>(None).unwrap();
    assert_eq!(map.len(), 2);
    assert!(map.contains(&("x".to_string(), 1)));
    assert!(map.contains(&("y".to_string(), 2)));
}

#[test]
fn error_constructor_and_walker_error_carry_scopes() {
    let v = IonValue::Null(Vec::new());
    let w = IonWalker::with_scopes(&v, vec!["p".to_string()]);
    let err = w.error(IonErrorType::InvalidValue("bad".to_string()));
    assert_eq!(err.scopes, vec!["p".to_string()]);

    let direct = IonError::new(
        IonErrorType::IndexOutOfBounds { tried: 9, bounds: (0, 3) },
        Vec::new(),
    );
    assert_eq!(direct.ty, IonErrorType::IndexOutOfBounds { tried: 9, bounds: (0, 3) });
    let sized = IonError::new(IonErrorType::WrongSize { found: 2, expected: 3 }, Vec::new());
    assert!(matches!(sized.ty, IonErrorType::WrongSize { found: 2, expected: 3 }));
    let io = IonError::new(IonErrorType::IoError("gone".to_string()), Vec::new());
    assert!(matches!(io.ty, IonErrorType::IoError(_)));
    let ann = IonError::new(
        IonErrorType::MissingAnnotation { expected: vec!["a".to_string()] },
        Vec::new(),
    );
    assert!(matches!(ann.ty, IonErrorType::MissingAnnotation { .. }));
}

#[test]
fn get_accessors_cover_every_kind() {
    let events = vec![
        wev(EventPayload::StructStart),
        wfev("nul", EventPayload::Null),
        wfev("flag", EventPayload::Boolean(false)),
        wfev("f", EventPayload::Float(FloatBits { bits: 4.0f64.to_bits() })),
        wfev("ts", EventPayload::Timestamp(Timestamp {
            epoch_seconds: 1,
            nanosecond: 2,
            offset_seconds: 3,
        })),
        wfev("inner", EventPayload::StructStart),
        wev(EventPayload::StructEnd),
        wfev("items", EventPayload::ListStart),
        wev(EventPayload::Integer(11)),
        wev(EventPayload::ListEnd),
        wev(EventPayload::StructEnd),
    ];
    let doc = IonReader::read_document(&events).unwrap();
    let lst = doc.as_list().unwrap();
    let w = IonWalker::new(lst.at(0).unwrap());
    assert!(w.get_null("nul").is_ok());
    assert!(!w.get_boolean("flag").unwrap());
    assert_eq!(w.get_float("f").map(|f| f64::from_bits(f.bits)).unwrap(), 4.0);
    assert_eq!(w.get_timestamp("ts").unwrap().nanosecond, 2);
    assert_eq!(w.get_struct("inner").unwrap().iter_fields().len(), 0);
    let items = w.get_list("items").unwrap();
    assert_eq!(items.len(), 1);
    assert!(w.get_blob("nul").is_err());
    assert!(w.get_string("flag").is_err());
}

#[test]
fn list_index_and_iter_agree() {
    let doc = two_records();
    let list = doc.as_list().unwrap();
    assert!(list.index(0).is_type(IonType::Struct));
    assert_eq!(list.iter().len(), 2);
    for item in list.iter() {
        assert!(item.is_type(IonType::Struct));
    }
}
