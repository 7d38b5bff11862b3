//! The tree builder: recursive-descent construction of the value tree
//! from the decoder's event stream.  The intended result is defined by a
//! specification-level parser over the same events; the builder is proved
//! to return exactly that result.  A failed build yields no tree, and the
//! first failure is the one reported.

use vstd::prelude::*;
use crate::error::{ErrorTypeView, IonError, IonErrorType, IonResult};
use crate::events::{DecoderEvent, EventPayload, EventView, PayloadView};
use crate::types::{anns_view, clone_string_vec, fields_view, lemma_fields_view_index,
    lemma_fields_view_push, lemma_fields_view_update, lemma_lookup_some_iff, lemma_seq_view_index,
    lemma_seq_view_push, lookup, seq_view, unique_keys, value_representable, value_view,
    value_wf, IonList, IonStruct, IonValue, ValueView};

verus! {

/// Inserts `(name, value)` into a record's pair sequence: when the name is
/// already present its first occurrence takes the new value (so the last
/// write wins), otherwise the pair is appended.
pub open spec fn fields_insert(
    fields: Seq<(Seq<char>, ValueView)>,
    name: Seq<char>,
    value: ValueView,
) -> Seq<(Seq<char>, ValueView)>
    decreases fields,
{
    if fields.len() == 0 {
        seq![(name, value)]
    } else if fields[0].0 == name {
        seq![(name, value)] + fields.subrange(1, fields.len() as int)
    } else {
        seq![fields[0]] + fields_insert(fields.subrange(1, fields.len() as int), name, value)
    }
}

/// Parses the single value that starts at `pos`: a scalar event maps
/// directly to its variant, a decimal event maps to a float, a container
/// start opens a nested scope, a container end or an exhausted stream is a
/// decode-level failure, and an unsupported tag fails immediately with
/// that tag's name.  Returns the value and the position just past it.
pub open spec fn parse_value(s: Seq<DecoderEvent>, pos: int) -> Result<
    (ValueView, int),
    ErrorTypeView,
>
    decreases s.len() - pos, 0int,
{
    if pos < 0 || pos >= s.len() {
        Err(ErrorTypeView::ParseError("unexpected end of the event stream"@))
    } else {
        let anns = anns_view(s[pos].annotations);
        match s[pos].payload {
            EventPayload::Null => Ok((ValueView::Null(anns), pos + 1)),
            EventPayload::Boolean(b) => Ok((ValueView::Boolean(b, anns), pos + 1)),
            EventPayload::Integer(i) => Ok((ValueView::Integer(i, anns), pos + 1)),
            EventPayload::Float(f) => Ok((ValueView::Float(f, anns), pos + 1)),
            EventPayload::Decimal(f) => Ok((ValueView::Float(f, anns), pos + 1)),
            EventPayload::String(st) => Ok((ValueView::String(st@, anns), pos + 1)),
            EventPayload::Timestamp(t) => Ok((ValueView::Timestamp(t, anns), pos + 1)),
            EventPayload::ListStart => match parse_list_items(s, pos + 1) {
                Ok((items, p)) => Ok((ValueView::List(items, anns), p)),
                Err(e) => Err(e),
            },
            EventPayload::StructStart => match parse_struct_items(s, pos + 1, Seq::empty()) {
                Ok((fields, p)) => Ok((ValueView::Struct(fields, anns), p)),
                Err(e) => Err(e),
            },
            EventPayload::ListEnd => Err(ErrorTypeView::ParseError(
                "container end where a value was expected"@)),
            EventPayload::StructEnd => Err(ErrorTypeView::ParseError(
                "container end where a value was expected"@)),
            EventPayload::Unsupported(k) => Err(ErrorTypeView::TypeNotSupported(k.name_spec())),
        }
    }
}

/// Parses list elements from `pos` up to the matching list end.  A parse
/// step always consumes at least one event; the clamp on the returned
/// position makes that visible to the termination checker.
pub open spec fn parse_list_items(s: Seq<DecoderEvent>, pos: int) -> Result<
    (Seq<ValueView>, int),
    ErrorTypeView,
>
    decreases s.len() - pos, 1int,
{
    if pos < 0 || pos >= s.len() {
        Err(ErrorTypeView::ParseError("unexpected end of the event stream"@))
    } else if s[pos].payload is ListEnd {
        Ok((Seq::empty(), pos + 1))
    } else {
        match parse_value(s, pos) {
            Err(e) => Err(e),
            Ok((v, p2)) => {
                let p3 = if pos < p2 <= s.len() {
                    p2
                } else {
                    pos + 1
                };
                match parse_list_items(s, p3) {
                    Err(e) => Err(e),
                    Ok((rest, p4)) => Ok((seq![v] + rest, p4)),
                }
            },
        }
    }
}

/// Parses record fields from `pos` up to the matching record end,
/// accumulating (name, value) pairs with last-write-wins insertion.
pub open spec fn parse_struct_items(
    s: Seq<DecoderEvent>,
    pos: int,
    acc: Seq<(Seq<char>, ValueView)>,
) -> Result<(Seq<(Seq<char>, ValueView)>, int), ErrorTypeView>
    decreases s.len() - pos, 1int,
{
    if pos < 0 || pos >= s.len() {
        Err(ErrorTypeView::ParseError("unexpected end of the event stream"@))
    } else if s[pos].payload is StructEnd {
        Ok((acc, pos + 1))
    } else if s[pos].payload is ListEnd {
        Err(ErrorTypeView::ParseError("container end where a value was expected"@))
    } else {
        match s[pos].field_name {
            Option::None => Err(ErrorTypeView::InvalidValue(
                "value inside a record carries no field name"@)),
            Option::Some(name) => match parse_value(s, pos) {
                Err(e) => Err(e),
                Ok((v, p2)) => {
                    let p3 = if pos < p2 <= s.len() {
                        p2
                    } else {
                        pos + 1
                    };
                    parse_struct_items(s, p3, fields_insert(acc, name@, v))
                },
            },
        }
    }
}

/// Parses the values of the whole document, which ends with the stream.
pub open spec fn parse_top_items(s: Seq<DecoderEvent>, pos: int) -> Result<
    (Seq<ValueView>, int),
    ErrorTypeView,
>
    decreases s.len() - pos, 1int,
{
    if pos < 0 || pos >= s.len() {
        Ok((Seq::empty(), pos))
    } else {
        match parse_value(s, pos) {
            Err(e) => Err(e),
            Ok((v, p2)) => {
                let p3 = if pos < p2 <= s.len() {
                    p2
                } else {
                    pos + 1
                };
                match parse_top_items(s, p3) {
                    Err(e) => Err(e),
                    Ok((rest, p4)) => Ok((seq![v] + rest, p4)),
                }
            },
        }
    }
}

/// What building a document from `s` yields: the document's values as one
/// top-level unannotated sequence, or the first failure met.
pub open spec fn parse_document(s: Seq<DecoderEvent>) -> Result<ValueView, ErrorTypeView> {
    match parse_top_items(s, 0) {
        Ok((items, _)) => Ok(ValueView::List(items, Seq::empty())),
        Err(e) => Err(e),
    }
}

/// Replaces the value of `name`'s first occurrence in `fv`, when `i` is
/// that occurrence, with the effect `fields_insert` describes.
proof fn lemma_fields_insert_at(
    fv: Seq<(Seq<char>, ValueView)>,
    i: int,
    name: Seq<char>,
    value: ValueView,
)
    requires
        0 <= i < fv.len(),
        fv[i].0 == name,
        forall|j: int| 0 <= j < i ==> (#[trigger] fv[j]).0 != name,
    ensures
        fields_insert(fv, name, value) =~= fv.update(i, (name, value)),
    decreases fv.len(),
{
    if i == 0 {
        assert(fields_insert(fv, name, value) =~= fv.update(0, (name, value)));
    } else {
        let rest = fv.subrange(1, fv.len() as int);
        assert(forall|j: int| 0 <= j < i - 1 ==> (#[trigger] rest[j]).0 != name);
        lemma_fields_insert_at(rest, i - 1, name, value);
        assert(fields_insert(fv, name, value) =~= fv.update(i, (name, value)));
    }
}

/// Appends `(name, value)` when `name` occurs nowhere in `fv`, with the
/// effect `fields_insert` describes.
proof fn lemma_fields_insert_absent(
    fv: Seq<(Seq<char>, ValueView)>,
    name: Seq<char>,
    value: ValueView,
)
    requires
        forall|j: int| 0 <= j < fv.len() ==> (#[trigger] fv[j]).0 != name,
    ensures
        fields_insert(fv, name, value) =~= fv.push((name, value)),
    decreases fv.len(),
{
    if fv.len() > 0 {
        let rest = fv.subrange(1, fv.len() as int);
        lemma_fields_insert_absent(rest, name, value);
        assert(fields_insert(fv, name, value) =~= fv.push((name, value)));
    }
}

/// Inserts `(name, value)` into a record's field pairs: an existing entry
/// of that name takes the new value, otherwise the pair is appended.
fn insert_field(fields: &mut Vec<(String, IonValue)>, name: String, value: IonValue)
    ensures
        fields_view(final(fields)@) == fields_insert(fields_view(old(fields)@), name@, value@),
{
    let n = fields.len();
    proof {
        lemma_fields_view_index(fields@);
    }
    let mut k: usize = 0;
    while k < n
        invariant
            fields@ == old(fields)@,
            n == fields.len(),
            k <= n,
            forall|j: int| 0 <= j < fields@.len() ==> fields_view(fields@)[j] == (
                (#[trigger] fields@[j]).0@,
                value_view(fields@[j].1),
            ),
            fields_view(fields@).len() == n,
            forall|j: int| 0 <= j < k ==> (#[trigger] fields_view(fields@)[j]).0 != name@,
        decreases n - k,
    {
        if fields[k].0 == name {
            let ghost old_fields = fields@;
            let ghost pair = (name, value);
            fields.set(k, (name, value));
            proof {
                lemma_fields_view_index(old_fields);
                lemma_fields_insert_at(fields_view(old_fields), k as int, old_fields[k as int].0@,
                    value_view(pair.1));
                lemma_fields_view_update(old_fields, k as int, pair);
                assert(fields_view(old_fields).update(k as int, (pair.0@, value_view(pair.1)))
                    =~= fields_view(old_fields).update(k as int, (
                    old_fields[k as int].0@,
                    value_view(pair.1),
                )));
                assert(fields_view(fields@) == fields_insert(fields_view(old(fields)@), pair.0@,
                    value_view(pair.1)));
            }
            return ;
        }
        k = k + 1;
    }
    let ghost old_fields = fields@;
    let ghost pair = (name, value);
    fields.push((name, value));
    proof {
        lemma_fields_view_index(old_fields);
        lemma_fields_insert_absent(fields_view(old_fields), pair.0@, value_view(pair.1));
        lemma_fields_view_push(old_fields, pair);
        assert(fields_view(fields@) == fields_insert(fields_view(old(fields)@), pair.0@,
            value_view(pair.1)));
    }
}

/// The tree builder: assembles an owned value tree out of a decoder's
/// flattened event stream.
pub struct IonReader;

impl IonReader {
    /// Builds the whole document: every top-level value in order, handed
    /// back as one unannotated sequence value — or the first failure,
    /// with nothing built.
    pub fn read_document(events: &Vec<DecoderEvent>) -> (r: IonResult<IonValue>)
        ensures
            match r {
                Ok(v) => parse_document(events@) == Ok::<ValueView, ErrorTypeView>(v@),
                Err(e) => {
                    &&& parse_document(events@) matches Err(et) && e@.ty == et
                    &&& e@.scopes == Seq::<Seq<char>>::empty()
                },
            },
    {
        let ghost s = events@;
        let mut items: Vec<IonValue> = Vec::new();
        let mut cur: usize = 0;
        while cur < events.len()
            invariant
                s == events@,
                cur <= events.len(),
                parse_top_items(s, 0) == (match parse_top_items(s, cur as int) {
                    Ok((rest, p)) => Ok::<(Seq<ValueView>, int), ErrorTypeView>((
                        seq_view(items@) + rest,
                        p,
                    )),
                    Err(e) => Err(e),
                }),
            decreases events.len() - cur,
        {
            match Self::read_value(events, cur) {
                Err(e) => {
                    return Err(e);
                },
                Ok((v, p2)) => {
                    proof {
                        lemma_seq_view_push(items@, v);
                        assert(seq_view(items@) + (seq![v@] + (match parse_top_items(s, p2 as int) {
                            Ok((rest, _)) => rest,
                            Err(_) => Seq::empty(),
                        })) =~= (seq_view(items@) + seq![v@]) + (match parse_top_items(s,
                            p2 as int) {
                            Ok((rest, _)) => rest,
                            Err(_) => Seq::empty(),
                        }));
                    }
                    items.push(v);
                    cur = p2;
                },
            }
        }
        let anns: Vec<String> = Vec::new();
        proof {
            assert(seq_view(items@) + Seq::<ValueView>::empty() =~= seq_view(items@));
            assert(anns_view(anns) =~= Seq::<Seq<char>>::empty());
        }
        Ok(IonValue::List(IonList { items }, anns))
    }

    /// Builds the single value that starts at `pos`, returning it with
    /// the position just past it.
    pub fn read_value(events: &Vec<DecoderEvent>, pos: usize) -> (r: Result<
        (IonValue, usize),
        IonError,
    >)
        ensures
            match r {
                Ok(p) => {
                    &&& parse_value(events@, pos as int) == Ok::<(ValueView, int), ErrorTypeView>((
                        p.0@,
                        p.1 as int,
                    ))
                    &&& pos < p.1 <= events.len()
                },
                Err(e) => {
                    &&& parse_value(events@, pos as int) matches Err(et) && e@.ty == et
                    &&& e@.scopes == Seq::<Seq<char>>::empty()
                },
            },
        decreases events.len() - pos, 0int,
    {
        if pos >= events.len() {
            return Err(IonError::new(
                IonErrorType::ParseError("unexpected end of the event stream".to_string()),
                Vec::new(),
            ));
        }
        let ev = &events[pos];
        match &ev.payload {
            EventPayload::Null => {
                let anns = clone_string_vec(&ev.annotations);
                Ok((IonValue::Null(anns), pos + 1))
            },
            EventPayload::Boolean(b) => {
                let anns = clone_string_vec(&ev.annotations);
                Ok((IonValue::Boolean(*b, anns), pos + 1))
            },
            EventPayload::Integer(i) => {
                let anns = clone_string_vec(&ev.annotations);
                Ok((IonValue::Integer(*i, anns), pos + 1))
            },
            EventPayload::Float(f) => {
                let anns = clone_string_vec(&ev.annotations);
                Ok((IonValue::Float(*f, anns), pos + 1))
            },
            EventPayload::Decimal(f) => {
                let anns = clone_string_vec(&ev.annotations);
                Ok((IonValue::Float(*f, anns), pos + 1))
            },
            EventPayload::String(st) => {
                let anns = clone_string_vec(&ev.annotations);
                Ok((IonValue::String(st.clone(), anns), pos + 1))
            },
            EventPayload::Timestamp(t) => {
                let anns = clone_string_vec(&ev.annotations);
                Ok((IonValue::Timestamp(*t, anns), pos + 1))
            },
            EventPayload::ListStart => {
                let anns = clone_string_vec(&ev.annotations);
                match Self::read_list(events, pos + 1) {
                    Ok((l, p)) => Ok((IonValue::List(l, anns), p)),
                    Err(e) => Err(e),
                }
            },
            EventPayload::StructStart => {
                let anns = clone_string_vec(&ev.annotations);
                match Self::read_struct(events, pos + 1) {
                    Ok((st, p)) => Ok((IonValue::Struct(st, anns), p)),
                    Err(e) => Err(e),
                }
            },
            EventPayload::ListEnd => Err(IonError::new(
                IonErrorType::ParseError("container end where a value was expected".to_string()),
                Vec::new(),
            )),
            EventPayload::StructEnd => Err(IonError::new(
                IonErrorType::ParseError("container end where a value was expected".to_string()),
                Vec::new(),
            )),
            EventPayload::Unsupported(k) => Err(IonError::new(
                IonErrorType::TypeNotSupported(k.name()),
                Vec::new(),
            )),
        }
    }

    /// Builds list elements from `pos` up to the matching list end.
    fn read_list(events: &Vec<DecoderEvent>, pos: usize) -> (r: Result<(IonList, usize), IonError>)
        requires
            pos <= events.len(),
        ensures
            match r {
                Ok(p) => {
                    &&& parse_list_items(events@, pos as int) == Ok::<
                        (Seq<ValueView>, int),
                        ErrorTypeView,
                    >((p.0@, p.1 as int))
                    &&& pos < p.1 <= events.len()
                },
                Err(e) => {
                    &&& parse_list_items(events@, pos as int) matches Err(et) && e@.ty == et
                    &&& e@.scopes == Seq::<Seq<char>>::empty()
                },
            },
        decreases events.len() - pos, 1int,
    {
        let ghost s = events@;
        let mut items: Vec<IonValue> = Vec::new();
        let mut cur: usize = pos;
        loop
            invariant
                s == events@,
                pos <= cur <= events.len(),
                parse_list_items(s, pos as int) == (match parse_list_items(s, cur as int) {
                    Ok((rest, p)) => Ok::<(Seq<ValueView>, int), ErrorTypeView>((
                        seq_view(items@) + rest,
                        p,
                    )),
                    Err(e) => Err(e),
                }),
            decreases events.len() - cur,
        {
            if cur >= events.len() {
                return Err(IonError::new(
                    IonErrorType::ParseError("unexpected end of the event stream".to_string()),
                    Vec::new(),
                ));
            }
            if let EventPayload::ListEnd = &events[cur].payload {
                proof {
                    assert(seq_view(items@) + Seq::<ValueView>::empty() =~= seq_view(items@));
                }
                return Ok((IonList { items }, cur + 1));
            }
            match Self::read_value(events, cur) {
                Err(e) => {
                    return Err(e);
                },
                Ok((v, p2)) => {
                    proof {
                        lemma_seq_view_push(items@, v);
                        assert(seq_view(items@) + (seq![v@] + (match parse_list_items(s,
                            p2 as int) {
                            Ok((rest, _)) => rest,
                            Err(_) => Seq::empty(),
                        })) =~= (seq_view(items@) + seq![v@]) + (match parse_list_items(s,
                            p2 as int) {
                            Ok((rest, _)) => rest,
                            Err(_) => Seq::empty(),
                        }));
                    }
                    items.push(v);
                    cur = p2;
                },
            }
        }
    }

    /// Builds record fields from `pos` up to the matching record end,
    /// inserting each (field name, value) pair as it arrives: a repeated
    /// name keeps one entry, and the last occurrence's value wins.
    fn read_struct(events: &Vec<DecoderEvent>, pos: usize) -> (r: Result<
        (IonStruct, usize),
        IonError,
    >)
        requires
            pos <= events.len(),
        ensures
            match r {
                Ok(p) => {
                    &&& parse_struct_items(events@, pos as int, Seq::empty()) == Ok::<
                        (Seq<(Seq<char>, ValueView)>, int),
                        ErrorTypeView,
                    >((p.0@, p.1 as int))
                    &&& pos < p.1 <= events.len()
                },
                Err(e) => {
                    &&& parse_struct_items(events@, pos as int, Seq::empty()) matches Err(et)
                        && e@.ty == et
                    &&& e@.scopes == Seq::<Seq<char>>::empty()
                },
            },
        decreases events.len() - pos, 1int,
    {
        let ghost s = events@;
        let mut fields: Vec<(String, IonValue)> = Vec::new();
        let mut cur: usize = pos;
        proof {
            assert(fields_view(fields@) =~= Seq::<(Seq<char>, ValueView)>::empty());
        }
        loop
            invariant
                s == events@,
                pos <= cur <= events.len(),
                parse_struct_items(s, pos as int, Seq::empty()) == parse_struct_items(s,
                    cur as int, fields_view(fields@)),
            decreases events.len() - cur,
        {
            if cur >= events.len() {
                return Err(IonError::new(
                    IonErrorType::ParseError("unexpected end of the event stream".to_string()),
                    Vec::new(),
                ));
            }
            if let EventPayload::StructEnd = &events[cur].payload {
                return Ok((IonStruct { fields }, cur + 1));
            }
            if let EventPayload::ListEnd = &events[cur].payload {
                return Err(IonError::new(
                    IonErrorType::ParseError(
                        "container end where a value was expected".to_string()),
                    Vec::new(),
                ));
            }
            let name = match &events[cur].field_name {
                Some(name) => name.clone(),
                None => {
                    return Err(IonError::new(
                        IonErrorType::InvalidValue(
                            "value inside a record carries no field name".to_string()),
                        Vec::new(),
                    ));
                },
            };
            match Self::read_value(events, cur) {
                Err(e) => {
                    return Err(e);
                },
                Ok((v, p2)) => {
                    insert_field(&mut fields, name, v);
                    cur = p2;
                },
            }
        }
    }
}


/// The last write wins: after inserting `(name, value)`, looking `name`
/// up finds `value`, and every other name finds what it found before.
pub proof fn lemma_fields_insert_lookup(
    fields: Seq<(Seq<char>, ValueView)>,
    name: Seq<char>,
    value: ValueView,
    q: Seq<char>,
)
    ensures
        lookup(fields_insert(fields, name, value), q) == if q == name {
            Some(value)
        } else {
            lookup(fields, q)
        },
    decreases fields.len(),
{
    let ins = fields_insert(fields, name, value);
    if fields.len() == 0 {
        assert(ins.subrange(1, ins.len() as int) =~= Seq::<(Seq<char>, ValueView)>::empty());
        assert(ins[0] == (name, value));
        if q == name {
            assert(lookup(ins, q) == Some(value));
        } else {
            assert(lookup(ins.subrange(1, ins.len() as int), q) is None);
        }
    } else {
        let rest = fields.subrange(1, fields.len() as int);
        if fields[0].0 == name {
            assert(ins.subrange(1, ins.len() as int) =~= rest);
            assert(ins[0] == (name, value));
            if q == name {
                assert(lookup(ins, q) == Some(value));
            } else {
                assert(lookup(ins, q) == lookup(rest, q));
                assert(lookup(fields, q) == lookup(rest, q));
            }
        } else {
            lemma_fields_insert_lookup(rest, name, value, q);
            assert(ins.subrange(1, ins.len() as int) =~= fields_insert(rest, name, value));
            assert(ins[0] == fields[0]);
            if q == fields[0].0 {
                assert(lookup(ins, q) == Some(fields[0].1));
                assert(lookup(fields, q) == Some(fields[0].1));
            } else {
                assert(lookup(ins, q) == lookup(fields_insert(rest, name, value), q));
                assert(lookup(fields, q) == lookup(rest, q));
            }
        }
    }
}

/// Inserting grows a record by one entry exactly when the name was absent:
/// the field count always equals the number of distinct names written.
pub proof fn lemma_fields_insert_len(
    fields: Seq<(Seq<char>, ValueView)>,
    name: Seq<char>,
    value: ValueView,
)
    ensures
        fields_insert(fields, name, value).len() == if lookup(fields, name) is Some {
            fields.len()
        } else {
            fields.len() + 1
        },
    decreases fields.len(),
{
    if fields.len() > 0 && fields[0].0 != name {
        lemma_fields_insert_lookup(fields, name, value, name);
        lemma_fields_insert_len(fields.subrange(1, fields.len() as int), name, value);
    }
}

/// One value per name: insertion preserves the uniqueness of field names.
pub proof fn lemma_fields_insert_unique(
    fields: Seq<(Seq<char>, ValueView)>,
    name: Seq<char>,
    value: ValueView,
)
    requires
        unique_keys(fields),
    ensures
        unique_keys(fields_insert(fields, name, value)),
    decreases fields.len(),
{
    let ins = fields_insert(fields, name, value);
    if fields.len() == 0 {
    } else {
        let rest = fields.subrange(1, fields.len() as int);
        assert(unique_keys(rest)) by {
            assert forall|i: int, j: int| 0 <= i < j < rest.len() implies (#[trigger] rest[i]).0
                != (#[trigger] rest[j]).0 by {
                assert(fields[i + 1].0 != fields[j + 1].0);
            }
        }
        if fields[0].0 == name {
            assert forall|i: int, j: int| 0 <= i < j < ins.len() implies (#[trigger] ins[i]).0 != (
            #[trigger] ins[j]).0 by {
                if i > 0 {
                    assert(fields[i].0 != fields[j].0);
                } else {
                    assert(ins[j] == fields[j]);
                    assert(fields[0].0 != fields[j].0);
                }
            }
        } else {
            lemma_fields_insert_unique(rest, name, value);
            let insr = fields_insert(rest, name, value);
            assert forall|j: int| 0 <= j < insr.len() implies (#[trigger] insr[j]).0 != fields[0].0
            by {
                lemma_fields_insert_lookup(rest, name, value, insr[j].0);
                lemma_lookup_some_iff(insr, insr[j].0);
                if insr[j].0 == name {
                } else {
                    lemma_lookup_some_iff(rest, insr[j].0);
                    if lookup(rest, insr[j].0) is Some {
                        let i = choose|i: int|
                            0 <= i < rest.len() && (#[trigger] rest[i]).0 == insr[j].0;
                        assert(fields[i + 1].0 == insr[j].0);
                        assert(fields[0].0 != fields[i + 1].0);
                    } else {
                        assert(!(lookup(insr, insr[j].0) is Some));
                        assert(false);
                    }
                }
            }
            assert forall|i: int, j: int| 0 <= i < j < ins.len() implies (#[trigger] ins[i]).0 != (
            #[trigger] ins[j]).0 by {
                if i > 0 {
                    assert(ins[i] == insr[i - 1] && ins[j] == insr[j - 1]);
                }
            }
        }
    }
}

/// Insertion never stores a value that was not written.
proof fn lemma_fields_insert_values_wf(
    fields: Seq<(Seq<char>, ValueView)>,
    name: Seq<char>,
    value: ValueView,
)
    requires
        forall|i: int| 0 <= i < fields.len() ==> value_wf((#[trigger] fields[i]).1),
        value_wf(value),
    ensures
        forall|i: int|
            0 <= i < fields_insert(fields, name, value).len() ==> value_wf(
                (#[trigger] fields_insert(fields, name, value)[i]).1),
    decreases fields.len(),
{
    let ins = fields_insert(fields, name, value);
    if fields.len() == 0 {
    } else {
        let rest = fields.subrange(1, fields.len() as int);
        if fields[0].0 == name {
            assert forall|i: int| 0 <= i < ins.len() implies value_wf((#[trigger] ins[i]).1) by {
                if i > 0 {
                    assert(ins[i] == fields[i]);
                }
            }
        } else {
            lemma_fields_insert_values_wf(rest, name, value);
            assert forall|i: int| 0 <= i < ins.len() implies value_wf((#[trigger] ins[i]).1) by {
                if i > 0 {
                    assert(ins[i] == fields_insert(rest, name, value)[i - 1]);
                }
            }
        }
    }
}

/// Whatever the event stream, every value the parser hands back is well
/// formed: each record in it holds exactly one value per field name.
pub proof fn lemma_parse_value_wf(s: Seq<DecoderEvent>, pos: int)
    ensures
        parse_value(s, pos) matches Ok(p) ==> value_wf(p.0),
    decreases s.len() - pos, 0int,
{
    if 0 <= pos < s.len() {
        match s[pos].payload {
            EventPayload::ListStart => {
                lemma_parse_list_items_wf(s, pos + 1);
            },
            EventPayload::StructStart => {
                lemma_parse_struct_items_wf(s, pos + 1, Seq::empty());
            },
            _ => {},
        }
    }
}

/// As `lemma_parse_value_wf`, for the elements of a list scope.
proof fn lemma_parse_list_items_wf(s: Seq<DecoderEvent>, pos: int)
    ensures
        parse_list_items(s, pos) matches Ok(p) ==> forall|i: int|
            0 <= i < p.0.len() ==> value_wf(#[trigger] p.0[i]),
    decreases s.len() - pos, 1int,
{
    if 0 <= pos < s.len() && !(s[pos].payload is ListEnd) {
        lemma_parse_value_wf(s, pos);
        match parse_value(s, pos) {
            Ok((v, p2)) => {
                let p3 = if pos < p2 <= s.len() {
                    p2
                } else {
                    pos + 1
                };
                lemma_parse_list_items_wf(s, p3);
            },
            Err(_) => {},
        }
    }
}

/// As `lemma_parse_value_wf`, for the fields of a record scope.
proof fn lemma_parse_struct_items_wf(
    s: Seq<DecoderEvent>,
    pos: int,
    acc: Seq<(Seq<char>, ValueView)>,
)
    requires
        unique_keys(acc),
        forall|i: int| 0 <= i < acc.len() ==> value_wf((#[trigger] acc[i]).1),
    ensures
        parse_struct_items(s, pos, acc) matches Ok(p) ==> unique_keys(p.0) && forall|i: int|
            0 <= i < p.0.len() ==> value_wf((#[trigger] p.0[i]).1),
    decreases s.len() - pos, 1int,
{
    if 0 <= pos < s.len() && !(s[pos].payload is StructEnd) && !(s[pos].payload is ListEnd) {
        match s[pos].field_name {
            Option::Some(name) => {
                lemma_parse_value_wf(s, pos);
                match parse_value(s, pos) {
                    Ok((v, p2)) => {
                        let p3 = if pos < p2 <= s.len() {
                            p2
                        } else {
                            pos + 1
                        };
                        lemma_fields_insert_unique(acc, name@, v);
                        lemma_fields_insert_values_wf(acc, name@, v);
                        lemma_parse_struct_items_wf(s, p3, fields_insert(acc, name@, v));
                    },
                    Err(_) => {},
                }
            },
            Option::None => {},
        }
    }
}

/// As `lemma_parse_value_wf`, for the document's top-level values.
proof fn lemma_parse_top_items_wf(s: Seq<DecoderEvent>, pos: int)
    ensures
        parse_top_items(s, pos) matches Ok(p) ==> forall|i: int|
            0 <= i < p.0.len() ==> value_wf(#[trigger] p.0[i]),
    decreases s.len() - pos, 1int,
{
    if 0 <= pos < s.len() {
        lemma_parse_value_wf(s, pos);
        match parse_value(s, pos) {
            Ok((v, p2)) => {
                let p3 = if pos < p2 <= s.len() {
                    p2
                } else {
                    pos + 1
                };
                lemma_parse_top_items_wf(s, p3);
            },
            Err(_) => {},
        }
    }
}

/// Every tree the builder returns is well formed: each record anywhere in
/// it maps every field name to exactly one value, however many times the
/// decoder repeated the name.
pub proof fn lemma_built_tree_wf(s: Seq<DecoderEvent>)
    ensures
        parse_document(s) matches Ok(v) ==> value_wf(v),
{
    lemma_parse_top_items_wf(s, 0);
}

/// Meeting an event with an unsupported tag fails at once, with an
/// unsupported-type error carrying that tag's name.
pub proof fn lemma_unsupported_fail_fast(s: Seq<DecoderEvent>, pos: int)
    requires
        0 <= pos < s.len(),
        s[pos].payload is Unsupported,
    ensures
        parse_value(s, pos) == Err::<(ValueView, int), ErrorTypeView>(
            ErrorTypeView::TypeNotSupported(s[pos].payload->Unsupported_0.name_spec()),
        ),
{
}


/// A container-end event: it carries no field name and no annotations.
pub open spec fn end_event(payload: PayloadView) -> EventView {
    EventView { field_name: Option::None, annotations: Seq::empty(), payload }
}

/// The canonical event stream that denotes the value `v`, its first event
/// carrying the field name `name`.
pub open spec fn events_of_value(v: ValueView, name: Option<Seq<char>>) -> Seq<EventView>
    decreases v, 0int,
{
    match v {
        ValueView::Null(a) => seq![
            EventView { field_name: name, annotations: a, payload: PayloadView::Null },
        ],
        ValueView::Boolean(b, a) => seq![
            EventView { field_name: name, annotations: a, payload: PayloadView::Boolean(b) },
        ],
        ValueView::Integer(i, a) => seq![
            EventView { field_name: name, annotations: a, payload: PayloadView::Integer(i) },
        ],
        ValueView::Float(f, a) => seq![
            EventView { field_name: name, annotations: a, payload: PayloadView::Float(f) },
        ],
        ValueView::Timestamp(t, a) => seq![
            EventView { field_name: name, annotations: a, payload: PayloadView::Timestamp(t) },
        ],
        ValueView::Blob(_, a) => seq![],
        ValueView::String(st, a) => seq![
            EventView { field_name: name, annotations: a, payload: PayloadView::String(st) },
        ],
        ValueView::List(items, a) => seq![
            EventView { field_name: name, annotations: a, payload: PayloadView::ListStart },
        ] + events_of_values(items) + seq![end_event(PayloadView::ListEnd)],
        ValueView::Struct(fields, a) => seq![
            EventView { field_name: name, annotations: a, payload: PayloadView::StructStart },
        ] + events_of_fields(fields) + seq![end_event(PayloadView::StructEnd)],
    }
}

/// The canonical event stream of a run of values: a list's elements, or
/// the document's top-level values.
pub open spec fn events_of_values(items: Seq<ValueView>) -> Seq<EventView>
    decreases items, 1int,
{
    if items.len() == 0 {
        Seq::empty()
    } else {
        events_of_value(items[0], Option::None) + events_of_values(
            items.subrange(1, items.len() as int))
    }
}

/// The canonical event stream of a record's fields, each value's first
/// event carrying its field name.
pub open spec fn events_of_fields(fields: Seq<(Seq<char>, ValueView)>) -> Seq<EventView>
    decreases fields, 1int,
{
    if fields.len() == 0 {
        Seq::empty()
    } else {
        events_of_value(fields[0].1, Option::Some(fields[0].0)) + events_of_fields(
            fields.subrange(1, fields.len() as int))
    }
}

/// A representable value's events begin with one event that carries the
/// value's field name and is no container end.
proof fn lemma_events_of_value_shape(v: ValueView, name: Option<Seq<char>>)
    requires
        value_representable(v),
    ensures
        events_of_value(v, name).len() >= 1,
        events_of_value(v, name)[0].field_name == name,
        !(events_of_value(v, name)[0].payload is ListEnd),
        !(events_of_value(v, name)[0].payload is StructEnd),
{
}

/// Rebuilding the single value `v` from its own events, wherever they
/// stand in a stream, reproduces `v` exactly and stops just past them.
pub proof fn lemma_parse_of_value_events(
    s: Seq<DecoderEvent>,
    pos: int,
    v: ValueView,
    name: Option<Seq<char>>,
)
    requires
        value_wf(v),
        value_representable(v),
        0 <= pos,
        pos + events_of_value(v, name).len() <= s.len(),
        forall|k: int|
            0 <= k < events_of_value(v, name).len() ==> (#[trigger] s[pos + k])@ == events_of_value(
                v, name)[k],
    ensures
        parse_value(s, pos) == Ok::<(ValueView, int), ErrorTypeView>((
            v,
            pos + events_of_value(v, name).len(),
        )),
    decreases v, 0int,
{
    let evs = events_of_value(v, name);
    assert(s[pos + 0]@ == evs[0]);
    assert(anns_view(s[pos].annotations) == s[pos]@.annotations);
    match v {
        ValueView::List(items, a) => {
            let inner = events_of_values(items);
            assert(evs[0].payload is ListStart);
            assert forall|i: int| 0 <= i < items.len() implies value_wf(#[trigger] items[i])
                && value_representable(items[i]) by {}
            assert forall|k: int| 0 <= k < inner.len() implies (#[trigger] s[pos + 1 + k])@
                == inner[k] by {
                assert(s[pos + (1 + k)]@ == evs[1 + k]);
                assert(evs[1 + k] == inner[k]);
            }
            assert(s[pos + (1 + inner.len() as int)]@ == evs[1 + inner.len() as int]);
            assert(evs[1 + inner.len() as int] == end_event(PayloadView::ListEnd));
            lemma_parse_of_values_events(s, pos + 1, items);
        },
        ValueView::Struct(fields, a) => {
            let inner = events_of_fields(fields);
            assert(evs[0].payload is StructStart);
            assert forall|k: int| 0 <= k < inner.len() implies (#[trigger] s[pos + 1 + k])@
                == inner[k] by {
                assert(s[pos + (1 + k)]@ == evs[1 + k]);
                assert(evs[1 + k] == inner[k]);
            }
            assert(s[pos + (1 + inner.len() as int)]@ == evs[1 + inner.len() as int]);
            assert(evs[1 + inner.len() as int] == end_event(PayloadView::StructEnd));
            lemma_parse_of_fields_events(s, pos + 1, fields, Seq::empty());
            assert(Seq::empty() + fields =~= fields);
        },
        _ => {},
    }
}

/// Rebuilding a run of values from their events, closed by a list end,
/// reproduces the run exactly.
proof fn lemma_parse_of_values_events(s: Seq<DecoderEvent>, pos: int, items: Seq<ValueView>)
    requires
        forall|i: int|
            0 <= i < items.len() ==> value_wf(#[trigger] items[i]) && value_representable(
                items[i]),
        0 <= pos,
        pos + events_of_values(items).len() + 1 <= s.len(),
        forall|k: int|
            0 <= k < events_of_values(items).len() ==> (#[trigger] s[pos + k])@
                == events_of_values(items)[k],
        s[pos + events_of_values(items).len()]@ == end_event(PayloadView::ListEnd),
    ensures
        parse_list_items(s, pos) == Ok::<(Seq<ValueView>, int), ErrorTypeView>((
            items,
            pos + events_of_values(items).len() + 1,
        )),
    decreases items, 1int,
{
    let evs = events_of_values(items);
    if items.len() == 0 {
        assert(s[pos + 0]@ == end_event(PayloadView::ListEnd));
        assert(s[pos].payload is ListEnd);
        assert(Seq::<ValueView>::empty() =~= items);
    } else {
        let head = items[0];
        let rest = items.subrange(1, items.len() as int);
        let evs0 = events_of_value(head, Option::None);
        let evsr = events_of_values(rest);
        lemma_events_of_value_shape(head, Option::None);
        assert forall|k: int| 0 <= k < evs0.len() implies (#[trigger] s[pos + k])@ == evs0[k] by {
            assert(s[pos + k]@ == evs[k]);
            assert(evs[k] == evs0[k]);
        }
        assert(s[pos + 0]@ == evs0[0]);
        assert(!(s[pos].payload is ListEnd));
        lemma_parse_of_value_events(s, pos, head, Option::None);
        let p2 = pos + evs0.len();
        assert forall|k: int| 0 <= k < evsr.len() implies (#[trigger] s[p2 + k])@ == evsr[k] by {
            assert(s[pos + (evs0.len() + k)]@ == evs[evs0.len() + k]);
            assert(evs[evs0.len() + k] == evsr[k]);
        }
        assert(s[p2 + evsr.len()]@ == end_event(PayloadView::ListEnd)) by {
            assert(pos + evs.len() == p2 + evsr.len());
        }
        lemma_parse_of_values_events(s, p2, rest);
        assert(seq![head] + rest =~= items);
    }
}

/// Rebuilding a record's fields from their events, closed by a record
/// end, extends what was already collected by exactly those fields.
proof fn lemma_parse_of_fields_events(
    s: Seq<DecoderEvent>,
    pos: int,
    fields: Seq<(Seq<char>, ValueView)>,
    acc: Seq<(Seq<char>, ValueView)>,
)
    requires
        forall|i: int|
            0 <= i < fields.len() ==> value_wf((#[trigger] fields[i]).1) && value_representable(
                fields[i].1),
        unique_keys(acc + fields),
        0 <= pos,
        pos + events_of_fields(fields).len() + 1 <= s.len(),
        forall|k: int|
            0 <= k < events_of_fields(fields).len() ==> (#[trigger] s[pos + k])@
                == events_of_fields(fields)[k],
        s[pos + events_of_fields(fields).len()]@ == end_event(PayloadView::StructEnd),
    ensures
        parse_struct_items(s, pos, acc) == Ok::<(Seq<(Seq<char>, ValueView)>, int), ErrorTypeView>((
            acc + fields,
            pos + events_of_fields(fields).len() + 1,
        )),
    decreases fields, 1int,
{
    let evs = events_of_fields(fields);
    if fields.len() == 0 {
        assert(s[pos + 0]@ == end_event(PayloadView::StructEnd));
        assert(s[pos].payload is StructEnd);
        assert(acc + fields =~= acc);
    } else {
        let k0 = fields[0].0;
        let v0 = fields[0].1;
        let rest = fields.subrange(1, fields.len() as int);
        let evs0 = events_of_value(v0, Option::Some(k0));
        let evsr = events_of_fields(rest);
        lemma_events_of_value_shape(v0, Option::Some(k0));
        assert forall|k: int| 0 <= k < evs0.len() implies (#[trigger] s[pos + k])@ == evs0[k] by {
            assert(s[pos + k]@ == evs[k]);
            assert(evs[k] == evs0[k]);
        }
        assert(s[pos + 0]@ == evs0[0]);
        assert(!(s[pos].payload is StructEnd) && !(s[pos].payload is ListEnd));
        assert(s[pos]@.field_name == Option::Some(k0));
        let nm = s[pos].field_name->0;
        assert(s[pos].field_name is Some && nm@ == k0);
        lemma_parse_of_value_events(s, pos, v0, Option::Some(k0));
        let p2 = pos + evs0.len();
        assert forall|j: int| 0 <= j < acc.len() implies (#[trigger] acc[j]).0 != k0 by {
            assert((acc + fields)[j] == acc[j]);
            assert((acc + fields)[acc.len() as int] == fields[0]);
        }
        lemma_fields_insert_absent(acc, k0, v0);
        assert(fields_insert(acc, k0, v0) == acc.push((k0, v0)));
        assert(acc.push((k0, v0)) + rest =~= acc + fields);
        assert forall|k: int| 0 <= k < evsr.len() implies (#[trigger] s[p2 + k])@ == evsr[k] by {
            assert(s[pos + (evs0.len() + k)]@ == evs[evs0.len() + k]);
            assert(evs[evs0.len() + k] == evsr[k]);
        }
        assert(s[p2 + evsr.len()]@ == end_event(PayloadView::StructEnd)) by {
            assert(pos + evs.len() == p2 + evsr.len());
        }
        lemma_parse_of_fields_events(s, p2, rest, acc.push((k0, v0)));
    }
}

/// Rebuilding the document's top-level values from their events, closed
/// by the end of the stream, reproduces the run exactly.
proof fn lemma_parse_of_top_events(s: Seq<DecoderEvent>, pos: int, items: Seq<ValueView>)
    requires
        forall|i: int|
            0 <= i < items.len() ==> value_wf(#[trigger] items[i]) && value_representable(
                items[i]),
        0 <= pos,
        pos + events_of_values(items).len() == s.len(),
        forall|k: int|
            0 <= k < events_of_values(items).len() ==> (#[trigger] s[pos + k])@
                == events_of_values(items)[k],
    ensures
        parse_top_items(s, pos) == Ok::<(Seq<ValueView>, int), ErrorTypeView>((
            items,
            s.len() as int,
        )),
    decreases items, 1int,
{
    let evs = events_of_values(items);
    if items.len() == 0 {
        assert(Seq::<ValueView>::empty() =~= items);
    } else {
        let head = items[0];
        let rest = items.subrange(1, items.len() as int);
        let evs0 = events_of_value(head, Option::None);
        let evsr = events_of_values(rest);
        lemma_events_of_value_shape(head, Option::None);
        assert forall|k: int| 0 <= k < evs0.len() implies (#[trigger] s[pos + k])@ == evs0[k] by {
            assert(s[pos + k]@ == evs[k]);
            assert(evs[k] == evs0[k]);
        }
        lemma_parse_of_value_events(s, pos, head, Option::None);
        let p2 = pos + evs0.len();
        assert forall|k: int| 0 <= k < evsr.len() implies (#[trigger] s[p2 + k])@ == evsr[k] by {
            assert(s[pos + (evs0.len() + k)]@ == evs[evs0.len() + k]);
            assert(evs[evs0.len() + k] == evsr[k]);
        }
        lemma_parse_of_top_events(s, p2, rest);
        assert(seq![head] + rest =~= items);
    }
}

/// Round-trip identity: building a document from the canonical event
/// stream of any well-formed, representable values reproduces exactly
/// those values — every scalar leaf and every annotation list as the
/// decoder supplied them, with no coercion anywhere.
pub proof fn lemma_document_round_trip(s: Seq<DecoderEvent>, items: Seq<ValueView>)
    requires
        forall|i: int|
            0 <= i < items.len() ==> value_wf(#[trigger] items[i]) && value_representable(
                items[i]),
        s.len() == events_of_values(items).len(),
        forall|k: int| 0 <= k < s.len() ==> (#[trigger] s[k])@ == events_of_values(items)[k],
    ensures
        parse_document(s) == Ok::<ValueView, ErrorTypeView>(ValueView::List(items, Seq::empty())),
{
    assert forall|k: int| 0 <= k < events_of_values(items).len() implies (#[trigger] s[0 + k])@
        == events_of_values(items)[k] by {
        assert(s[k]@ == events_of_values(items)[k]);
    }
    lemma_parse_of_top_events(s, 0, items);
}


/// A successful parse consumes at least one event and never passes the
/// end of the stream.
proof fn lemma_parse_value_advances(s: Seq<DecoderEvent>, pos: int)
    ensures
        parse_value(s, pos) matches Ok(p) ==> pos < p.1 <= s.len(),
    decreases s.len() - pos, 0int,
{
    if 0 <= pos < s.len() {
        match s[pos].payload {
            EventPayload::ListStart => {
                lemma_parse_list_items_advances(s, pos + 1);
            },
            EventPayload::StructStart => {
                lemma_parse_struct_items_advances(s, pos + 1, Seq::empty());
            },
            _ => {},
        }
    }
}

/// As `lemma_parse_value_advances`, for a list scope.
proof fn lemma_parse_list_items_advances(s: Seq<DecoderEvent>, pos: int)
    ensures
        parse_list_items(s, pos) matches Ok(p) ==> pos < p.1 <= s.len(),
    decreases s.len() - pos, 1int,
{
    if 0 <= pos < s.len() && !(s[pos].payload is ListEnd) {
        lemma_parse_value_advances(s, pos);
        match parse_value(s, pos) {
            Ok((v, p2)) => {
                let p3 = if pos < p2 <= s.len() {
                    p2
                } else {
                    pos + 1
                };
                lemma_parse_list_items_advances(s, p3);
            },
            Err(_) => {},
        }
    }
}

/// As `lemma_parse_value_advances`, for a record scope.
proof fn lemma_parse_struct_items_advances(
    s: Seq<DecoderEvent>,
    pos: int,
    acc: Seq<(Seq<char>, ValueView)>,
)
    ensures
        parse_struct_items(s, pos, acc) matches Ok(p) ==> pos < p.1 <= s.len(),
    decreases s.len() - pos, 1int,
{
    if 0 <= pos < s.len() && !(s[pos].payload is StructEnd) && !(s[pos].payload is ListEnd) {
        match s[pos].field_name {
            Option::Some(name) => {
                lemma_parse_value_advances(s, pos);
                match parse_value(s, pos) {
                    Ok((v, p2)) => {
                        let p3 = if pos < p2 <= s.len() {
                            p2
                        } else {
                            pos + 1
                        };
                        lemma_parse_struct_items_advances(s, p3, fields_insert(acc, name@, v));
                    },
                    Err(_) => {},
                }
            },
            Option::None => {},
        }
    }
}

/// A successful top-level parse consumes the whole stream.
proof fn lemma_parse_top_items_advances(s: Seq<DecoderEvent>, pos: int)
    requires
        0 <= pos <= s.len(),
    ensures
        parse_top_items(s, pos) matches Ok(p) ==> p.1 == s.len(),
    decreases s.len() - pos, 1int,
{
    if pos < s.len() {
        lemma_parse_value_advances(s, pos);
        match parse_value(s, pos) {
            Ok((v, p2)) => {
                let p3 = if pos < p2 <= s.len() {
                    p2
                } else {
                    pos + 1
                };
                lemma_parse_top_items_advances(s, p3);
            },
            Err(_) => {},
        }
    }
}

/// A value parse that succeeds met no unsupported-tagged event anywhere
/// in what it consumed.
proof fn lemma_parse_value_no_unsupported(s: Seq<DecoderEvent>, pos: int)
    ensures
        parse_value(s, pos) matches Ok(p) ==> forall|i: int|
            pos <= i < p.1 ==> !((#[trigger] s[i]).payload is Unsupported),
    decreases s.len() - pos, 0int,
{
    if 0 <= pos < s.len() {
        match s[pos].payload {
            EventPayload::ListStart => {
                lemma_parse_list_items_no_unsupported(s, pos + 1);
            },
            EventPayload::StructStart => {
                lemma_parse_struct_items_no_unsupported(s, pos + 1, Seq::empty());
            },
            _ => {},
        }
    }
}

/// As `lemma_parse_value_no_unsupported`, for a list scope.
proof fn lemma_parse_list_items_no_unsupported(s: Seq<DecoderEvent>, pos: int)
    ensures
        parse_list_items(s, pos) matches Ok(p) ==> forall|i: int|
            pos <= i < p.1 ==> !((#[trigger] s[i]).payload is Unsupported),
    decreases s.len() - pos, 1int,
{
    if 0 <= pos < s.len() && !(s[pos].payload is ListEnd) {
        lemma_parse_value_advances(s, pos);
        lemma_parse_value_no_unsupported(s, pos);
        match parse_value(s, pos) {
            Ok((v, p2)) => {
                let p3 = if pos < p2 <= s.len() {
                    p2
                } else {
                    pos + 1
                };
                lemma_parse_list_items_no_unsupported(s, p3);
            },
            Err(_) => {},
        }
    }
}

/// As `lemma_parse_value_no_unsupported`, for a record scope.
proof fn lemma_parse_struct_items_no_unsupported(
    s: Seq<DecoderEvent>,
    pos: int,
    acc: Seq<(Seq<char>, ValueView)>,
)
    ensures
        parse_struct_items(s, pos, acc) matches Ok(p) ==> forall|i: int|
            pos <= i < p.1 ==> !((#[trigger] s[i]).payload is Unsupported),
    decreases s.len() - pos, 1int,
{
    if 0 <= pos < s.len() && !(s[pos].payload is StructEnd) && !(s[pos].payload is ListEnd) {
        match s[pos].field_name {
            Option::Some(name) => {
                lemma_parse_value_advances(s, pos);
                lemma_parse_value_no_unsupported(s, pos);
                match parse_value(s, pos) {
                    Ok((v, p2)) => {
                        let p3 = if pos < p2 <= s.len() {
                            p2
                        } else {
                            pos + 1
                        };
                        lemma_parse_struct_items_no_unsupported(s, p3, fields_insert(
                            acc, name@, v));
                    },
                    Err(_) => {},
                }
            },
            Option::None => {},
        }
    }
}

/// As `lemma_parse_value_no_unsupported`, for the document's top level.
proof fn lemma_parse_top_items_no_unsupported(s: Seq<DecoderEvent>, pos: int)
    ensures
        parse_top_items(s, pos) matches Ok(p) ==> forall|i: int|
            pos <= i < p.1 ==> !((#[trigger] s[i]).payload is Unsupported),
    decreases s.len() - pos, 1int,
{
    if 0 <= pos < s.len() {
        lemma_parse_value_advances(s, pos);
        lemma_parse_value_no_unsupported(s, pos);
        match parse_value(s, pos) {
            Ok((v, p2)) => {
                let p3 = if pos < p2 <= s.len() {
                    p2
                } else {
                    pos + 1
                };
                lemma_parse_top_items_no_unsupported(s, p3);
            },
            Err(_) => {},
        }
    }
}

/// No partial tree: a document that yields a tree at all met no
/// unsupported-tagged event anywhere in its stream — meeting one always
/// aborts the whole build.
pub proof fn lemma_no_tree_past_unsupported(s: Seq<DecoderEvent>)
    ensures
        parse_document(s) is Ok ==> forall|i: int|
            0 <= i < s.len() ==> !((#[trigger] s[i]).payload is Unsupported),
{
    lemma_parse_top_items_advances(s, 0);
    lemma_parse_top_items_no_unsupported(s, 0);
}

} // verus!
