//! The value tree data model: a closed tagged union of annotated values,
//! with `Record` (field-named) and `Sequence` (ordered) containers, and the
//! "soft" probing accessors that narrow a value without raising errors.

use vstd::prelude::*;
use crate::double::{double_bits_of_int, int_to_double_bits, FloatBits};

verus! {

/// An ordered, possibly-empty list of annotation strings attached to a
/// value.  Order is the decode order; duplicates are allowed.
pub type Annotations = Vec<String>;

/// A value-less enumeration mirroring the `IonValue` variants, used for
/// cheap type comparisons and for "expected vs found" error payloads.
#[derive(Clone, Copy, Debug, PartialEq, Eq, Structural)]
pub enum IonType {
    Null,
    Boolean,
    Integer,
    Float,
    Timestamp,
    String,
    Blob,
    List,
    Struct,
}

/// A date-time with a fixed offset from UTC, held as plain integers so the
/// model can compare and carry it without an external date-time library:
/// seconds since the Unix epoch (of the instant, in UTC), the sub-second
/// nanoseconds, and the local offset in seconds east of UTC.
#[derive(Clone, Copy, Debug, PartialEq, Eq, Structural)]
pub struct Timestamp {
    pub epoch_seconds: i64,
    pub nanosecond: u32,
    pub offset_seconds: i32,
}

impl Timestamp {
    /// A timestamp is well formed when its nanosecond part names a real
    /// sub-second instant and its offset is less than a full day.
    pub open spec fn well_formed(self) -> bool {
        self.nanosecond < 1_000_000_000 && -86_400 < self.offset_seconds < 86_400
    }
}

/// The mathematical shape of one value in the tree: the payloads as
/// sequences and plain values, each variant paired with its annotation
/// list.  A record is a sequence of (field name, value) pairs whose names
/// are unique.
#[verifier::ext_equal]
pub enum ValueView {
    Null(Seq<Seq<char>>),
    Boolean(bool, Seq<Seq<char>>),
    Integer(i64, Seq<Seq<char>>),
    Float(FloatBits, Seq<Seq<char>>),
    Timestamp(Timestamp, Seq<Seq<char>>),
    Blob(Seq<u8>, Seq<Seq<char>>),
    String(Seq<char>, Seq<Seq<char>>),
    List(Seq<ValueView>, Seq<Seq<char>>),
    Struct(Seq<(Seq<char>, ValueView)>, Seq<Seq<char>>),
}

/// The views of a list of annotation strings.
pub open spec fn anns_view(anns: Vec<String>) -> Seq<Seq<char>> {
    anns@.map_values(|s: String| s@)
}

/// The type tag of a value view.
pub open spec fn tag_of(v: ValueView) -> IonType {
    match v {
        ValueView::Null(_) => IonType::Null,
        ValueView::Boolean(_, _) => IonType::Boolean,
        ValueView::Integer(_, _) => IonType::Integer,
        ValueView::Float(_, _) => IonType::Float,
        ValueView::Timestamp(_, _) => IonType::Timestamp,
        ValueView::Blob(_, _) => IonType::Blob,
        ValueView::String(_, _) => IonType::String,
        ValueView::List(_, _) => IonType::List,
        ValueView::Struct(_, _) => IonType::Struct,
    }
}

/// The annotation list of a value view.
pub open spec fn anns_of(v: ValueView) -> Seq<Seq<char>> {
    match v {
        ValueView::Null(a) => a,
        ValueView::Boolean(_, a) => a,
        ValueView::Integer(_, a) => a,
        ValueView::Float(_, a) => a,
        ValueView::Timestamp(_, a) => a,
        ValueView::Blob(_, a) => a,
        ValueView::String(_, a) => a,
        ValueView::List(_, a) => a,
        ValueView::Struct(_, a) => a,
    }
}

/// A value in the decoded data tree, with its annotations.
#[derive(Debug, PartialEq)]
pub enum IonValue {
    Null(Annotations),
    Boolean(bool, Annotations),
    Integer(i64, Annotations),
    Float(FloatBits, Annotations),
    Timestamp(Timestamp, Annotations),
    Blob(Vec<u8>, Annotations),
    String(String, Annotations),
    List(IonList, Annotations),
    Struct(IonStruct, Annotations),
}

/// An Ion list. Thin wrapper over a vec of `IonValue`s.
#[derive(Debug, PartialEq)]
pub struct IonList {
    pub items: Vec<IonValue>,
}

/// An Ion struct: a mapping of unique field names to values, stored as
/// name/value pairs.
#[derive(Debug, PartialEq)]
pub struct IonStruct {
    pub fields: Vec<(String, IonValue)>,
}

/// The view of one value.
pub open spec fn value_view(v: IonValue) -> ValueView
    decreases v,
{
    match v {
        IonValue::Null(a) => ValueView::Null(anns_view(a)),
        IonValue::Boolean(b, a) => ValueView::Boolean(b, anns_view(a)),
        IonValue::Integer(i, a) => ValueView::Integer(i, anns_view(a)),
        IonValue::Float(f, a) => ValueView::Float(f, anns_view(a)),
        IonValue::Timestamp(t, a) => ValueView::Timestamp(t, anns_view(a)),
        IonValue::Blob(b, a) => ValueView::Blob(b@, anns_view(a)),
        IonValue::String(s, a) => ValueView::String(s@, anns_view(a)),
        IonValue::List(l, a) => ValueView::List(seq_view(l.items@), anns_view(a)),
        IonValue::Struct(s, a) => ValueView::Struct(fields_view(s.fields@), anns_view(a)),
    }
}

/// The views of a sequence of values, in order.
pub open spec fn seq_view(items: Seq<IonValue>) -> Seq<ValueView>
    decreases items,
{
    if items.len() == 0 {
        Seq::empty()
    } else {
        seq![value_view(items[0])] + seq_view(items.subrange(1, items.len() as int))
    }
}

/// The views of a sequence of (field name, value) pairs, in order.
pub open spec fn fields_view(fields: Seq<(String, IonValue)>) -> Seq<(Seq<char>, ValueView)>
    decreases fields,
{
    if fields.len() == 0 {
        Seq::empty()
    } else {
        seq![(fields[0].0@, value_view(fields[0].1))] + fields_view(
            fields.subrange(1, fields.len() as int))
    }
}

/// `seq_view` maps the sequence pointwise.
pub proof fn lemma_seq_view_index(items: Seq<IonValue>)
    ensures
        seq_view(items).len() == items.len(),
        forall|i: int| 0 <= i < items.len() ==> seq_view(items)[i] == value_view(#[trigger] items[i]),
    decreases items,
{
    if items.len() > 0 {
        let rest = items.subrange(1, items.len() as int);
        lemma_seq_view_index(rest);
        assert forall|i: int| 0 <= i < items.len() implies seq_view(items)[i] == value_view(
            #[trigger] items[i]) by {
            if i > 0 {
                assert(rest[i - 1] == items[i]);
            }
        }
    }
}

/// `fields_view` maps the pair sequence pointwise.
pub proof fn lemma_fields_view_index(fields: Seq<(String, IonValue)>)
    ensures
        fields_view(fields).len() == fields.len(),
        forall|i: int| 0 <= i < fields.len() ==> fields_view(fields)[i] == (
            (#[trigger] fields[i]).0@,
            value_view(fields[i].1),
        ),
    decreases fields,
{
    if fields.len() > 0 {
        let rest = fields.subrange(1, fields.len() as int);
        lemma_fields_view_index(rest);
        assert forall|i: int| 0 <= i < fields.len() implies fields_view(fields)[i] == (
            (#[trigger] fields[i]).0@,
            value_view(fields[i].1),
        ) by {
            if i > 0 {
                assert(rest[i - 1] == fields[i]);
            }
        }
    }
}

/// Appending a value appends its view.
pub proof fn lemma_seq_view_push(items: Seq<IonValue>, v: IonValue)
    ensures
        seq_view(items.push(v)) =~= seq_view(items) + seq![value_view(v)],
{
    lemma_seq_view_index(items);
    lemma_seq_view_index(items.push(v));
    assert forall|i: int| 0 <= i < items.len() + 1 implies seq_view(items.push(v))[i] == (seq_view(
        items) + seq![value_view(v)])[i] by {
        assert(seq_view(items.push(v))[i] == value_view(items.push(v)[i]));
        if i < items.len() {
            assert(items.push(v)[i] == items[i]);
        } else {
            assert(items.push(v)[i] == v);
        }
    }
}

/// Replacing a pair replaces its view.
pub proof fn lemma_fields_view_update(
    fields: Seq<(String, IonValue)>,
    i: int,
    pair: (String, IonValue),
)
    requires
        0 <= i < fields.len(),
    ensures
        fields_view(fields.update(i, pair)) =~= fields_view(fields).update(
            i,
            (pair.0@, value_view(pair.1)),
        ),
{
    lemma_fields_view_index(fields);
    lemma_fields_view_index(fields.update(i, pair));
    assert forall|j: int| 0 <= j < fields.len() implies fields_view(fields.update(i, pair))[j]
        == fields_view(fields).update(i, (pair.0@, value_view(pair.1)))[j] by {
        if j == i {
            assert(fields.update(i, pair)[j] == pair);
        } else {
            assert(fields.update(i, pair)[j] == fields[j]);
        }
    }
}

/// Appending a pair appends its view.
pub proof fn lemma_fields_view_push(fields: Seq<(String, IonValue)>, pair: (String, IonValue))
    ensures
        fields_view(fields.push(pair)) =~= fields_view(fields).push((pair.0@, value_view(pair.1))),
{
    lemma_fields_view_index(fields);
    lemma_fields_view_index(fields.push(pair));
    assert forall|j: int| 0 <= j < fields.len() + 1 implies fields_view(fields.push(pair))[j]
        == fields_view(fields).push((pair.0@, value_view(pair.1)))[j] by {
        if j < fields.len() {
            assert(fields.push(pair)[j] == fields[j]);
        } else {
            assert(fields.push(pair)[j] == pair);
        }
    }
}

impl View for IonValue {
    type V = ValueView;

    open spec fn view(&self) -> ValueView {
        value_view(*self)
    }
}

impl View for IonList {
    type V = Seq<ValueView>;

    open spec fn view(&self) -> Seq<ValueView> {
        seq_view(self.items@)
    }
}

impl View for IonStruct {
    type V = Seq<(Seq<char>, ValueView)>;

    open spec fn view(&self) -> Seq<(Seq<char>, ValueView)> {
        fields_view(self.fields@)
    }
}

/// First-match lookup of a field name in a record's pair sequence.
pub open spec fn lookup(fields: Seq<(Seq<char>, ValueView)>, name: Seq<char>) -> Option<ValueView>
    decreases fields,
{
    if fields.len() == 0 {
        Option::None
    } else if fields[0].0 == name {
        Option::Some(fields[0].1)
    } else {
        lookup(fields.subrange(1, fields.len() as int), name)
    }
}

/// A value view is well formed when every record anywhere in it maps each
/// field name to exactly one value.
pub open spec fn value_wf(v: ValueView) -> bool
    decreases v,
{
    match v {
        ValueView::List(items, _) => forall|i: int|
            0 <= i < items.len() ==> value_wf(#[trigger] items[i]),
        ValueView::Struct(fields, _) => unique_keys(fields) && forall|i: int|
            0 <= i < fields.len() ==> value_wf((#[trigger] fields[i]).1),
        _ => true,
    }
}

/// A value the tree builder could have produced: the builder never
/// materializes a blob, so a representable value holds none anywhere.
pub open spec fn value_representable(v: ValueView) -> bool
    decreases v,
{
    match v {
        ValueView::Blob(_, _) => false,
        ValueView::List(items, _) => forall|i: int|
            0 <= i < items.len() ==> value_representable(#[trigger] items[i]),
        ValueView::Struct(fields, _) => forall|i: int|
            0 <= i < fields.len() ==> value_representable((#[trigger] fields[i]).1),
        _ => true,
    }
}

/// A name looks up to a value exactly when some pair carries it.
pub proof fn lemma_lookup_some_iff(fields: Seq<(Seq<char>, ValueView)>, name: Seq<char>)
    ensures
        (lookup(fields, name) is Some) <==> exists|i: int|
            0 <= i < fields.len() && (#[trigger] fields[i]).0 == name,
    decreases fields.len(),
{
    if fields.len() > 0 {
        let rest = fields.subrange(1, fields.len() as int);
        lemma_lookup_some_iff(rest, name);
        if fields[0].0 == name {
        } else {
            if lookup(fields, name) is Some {
                let i = choose|i: int| 0 <= i < rest.len() && (#[trigger] rest[i]).0 == name;
                assert(fields[i + 1].0 == name);
            }
            if exists|i: int| 0 <= i < fields.len() && (#[trigger] fields[i]).0 == name {
                let i = choose|i: int| 0 <= i < fields.len() && (#[trigger] fields[i]).0 == name;
                assert(rest[i - 1].0 == name);
            }
        }
    }
}

/// Annotation membership looks only at which names occur, never at their
/// positions: two annotation lists holding the same names with the same
/// multiplicities, in any orders, agree on every membership test — and an
/// empty annotation list matches no name.
pub proof fn lemma_annotation_membership_order_independent(
    a1: Seq<Seq<char>>,
    a2: Seq<Seq<char>>,
    name: Seq<char>,
)
    requires
        a1.to_multiset() == a2.to_multiset(),
    ensures
        a1.contains(name) == a2.contains(name),
        !Seq::<Seq<char>>::empty().contains(name),
{
    broadcast use vstd::seq_lib::group_to_multiset_ensures;

    assert(a1.contains(name) <==> a1.to_multiset().count(name) > 0);
    assert(a2.contains(name) <==> a2.to_multiset().count(name) > 0);
}

/// No two pairs of a record's field sequence share a name.
pub open spec fn unique_keys(fields: Seq<(Seq<char>, ValueView)>) -> bool {
    forall|i: int, j: int| 0 <= i < j < fields.len() ==> (#[trigger] fields[i]).0 != (
        #[trigger] fields[j]).0
}

impl IonValue {
    /// Returns the IonType of this value
    pub fn ty(&self) -> (t: IonType)
        ensures
            t == tag_of(self@),
    {
        match self {
            IonValue::Null(_) => IonType::Null,
            IonValue::Boolean(_, _) => IonType::Boolean,
            IonValue::Integer(_, _) => IonType::Integer,
            IonValue::Float(_, _) => IonType::Float,
            IonValue::Timestamp(_, _) => IonType::Timestamp,
            IonValue::String(_, _) => IonType::String,
            IonValue::Blob(_, _) => IonType::Blob,
            IonValue::List(_, _) => IonType::List,
            IonValue::Struct(_, _) => IonType::Struct,
        }
    }

    /// Checks if the value is of the given type.
    pub fn is_type(&self, t: IonType) -> (r: bool)
        ensures
            r == (tag_of(self@) == t),
    {
        self.ty() == t
    }

    /// Attempts to retrieve a reference to an `IonStruct`.
    /// Returns `None` if the value is of a different type.
    pub fn as_struct(&self) -> (r: Option<&IonStruct>)
        ensures
            self@ is Struct ==> (r matches Some(st) && st@ == self@->Struct_0),
            !(self@ is Struct) ==> r is None,
    {
        if let IonValue::Struct(st, _) = self {
            Some(st)
        } else {
            None
        }
    }

    /// Attempts to retrieve a reference to an `IonList`.
    /// Returns `None` if the value is of a different type.
    pub fn as_list(&self) -> (r: Option<&IonList>)
        ensures
            self@ is List ==> (r matches Some(l) && l@ == self@->List_0),
            !(self@ is List) ==> r is None,
    {
        if let IonValue::List(l, _) = self {
            Some(l)
        } else {
            None
        }
    }

    /// Attempts to retrieve a reference to a list of exactly `N` values.
    /// Returns `None` if the value is of a different type or a list of a
    /// different size.
    pub fn as_list_sized<const N: usize>(&self) -> (r: Option<&IonList>)
        ensures
            r matches Some(l) <==> self@ is List && self@->List_0.len() == N && (r matches Some(l)
                && l@ == self@->List_0),
            r is None <==> !(self@ is List && self@->List_0.len() == N),
    {
        if let IonValue::List(l, _) = self {
            if l.len() == N {
                return Some(l);
            }
        }
        None
    }

    /// Attempts to retrieve a boolean value. Returns `None` if the value is of a different type.
    pub fn as_bool(&self) -> (r: Option<bool>)
        ensures
            self@ is Boolean ==> r == Some(self@->Boolean_0),
            !(self@ is Boolean) ==> r is None,
    {
        if let IonValue::Boolean(b, _) = self {
            Some(*b)
        } else {
            None
        }
    }

    /// Attempts to retrieve an integer value. Returns `None` if the value is of a different type.
    pub fn as_int(&self) -> (r: Option<i64>)
        ensures
            self@ is Integer ==> r == Some(self@->Integer_0),
            !(self@ is Integer) ==> r is None,
    {
        if let IonValue::Integer(i, _) = self {
            Some(*i)
        } else {
            None
        }
    }

    /// Attempts to retrieve a float value, as its bit pattern.  An integer
    /// value is widened to the nearest double — the model's only implicit
    /// numeric coercion.  Returns `None` for every other type.
    pub fn as_float(&self) -> (r: Option<FloatBits>)
        ensures
            self@ is Float ==> r == Some(self@->Float_0),
            self@ is Integer ==> (r matches Some(f) && f.bits == double_bits_of_int(
                self@->Integer_0)),
            !(self@ is Float) && !(self@ is Integer) ==> r is None,
    {
        match self {
            IonValue::Float(f, _) => Some(*f),
            IonValue::Integer(i, _) => Some(int_to_double_bits(*i)),
            _ => None,
        }
    }

    /// Attempts to retrieve a string value. Returns `None` if the value is of a different type.
    pub fn as_str(&self) -> (r: Option<&str>)
        ensures
            self@ is String ==> (r matches Some(s) && s@ == self@->String_0),
            !(self@ is String) ==> r is None,
    {
        if let IonValue::String(s, _) = self {
            Some(s.as_str())
        } else {
            None
        }
    }

    /// Attempts to retrieve a timestamp value. Returns `None` if the value is of a different type.
    pub fn as_timestamp(&self) -> (r: Option<&Timestamp>)
        ensures
            self@ is Timestamp ==> (r matches Some(t) && *t == self@->Timestamp_0),
            !(self@ is Timestamp) ==> r is None,
    {
        if let IonValue::Timestamp(t, _) = self {
            Some(t)
        } else {
            None
        }
    }

    /// Returns a reference to this value's annotations.
    pub fn annotations(&self) -> (r: &Annotations)
        ensures
            anns_view(*r) == anns_of(self@),
    {
        match self {
            IonValue::Null(a) => a,
            IonValue::Boolean(_, a) => a,
            IonValue::Integer(_, a) => a,
            IonValue::Float(_, a) => a,
            IonValue::Timestamp(_, a) => a,
            IonValue::Blob(_, a) => a,
            IonValue::String(_, a) => a,
            IonValue::List(_, a) => a,
            IonValue::Struct(_, a) => a,
        }
    }

    /// Returns true if the value carries an annotation with the given
    /// name, at any position of its annotation list.
    pub fn has_annotation(&self, annotation: &str) -> (r: bool)
        ensures
            r == anns_of(self@).contains(annotation@),
    {
        has_annotation_in(self.annotations(), annotation)
    }
}

/// Element-wise copy of a list of strings.
pub fn clone_string_vec(v: &Vec<String>) -> (r: Vec<String>)
    ensures
        r@ == v@,
{
    let mut r: Vec<String> = Vec::new();
    let n = v.len();
    let mut k: usize = 0;
    while k < n
        invariant
            n == v.len(),
            k <= n,
            r@ == v@.subrange(0, k as int),
        decreases n - k,
    {
        r.push(v[k].clone());
        proof {
            assert(r@ =~= v@.subrange(0, k + 1 as int));
        }
        k = k + 1;
    }
    proof {
        assert(v@.subrange(0, n as int) =~= v@);
    }
    r
}

/// Returns true if `anns` holds `annotation`, at any position.
pub fn has_annotation_in(anns: &Annotations, annotation: &str) -> (r: bool)
    ensures
        r == anns_view(*anns).contains(annotation@),
{
    let target = annotation.to_string();
    let n = anns.len();
    let mut k: usize = 0;
    while k < n
        invariant
            n == anns.len(),
            k <= n,
            target@ == annotation@,
            forall|i: int| 0 <= i < k ==> anns_view(*anns)[i] != annotation@,
        decreases n - k,
    {
        if anns[k] == target {
            assert(anns_view(*anns)[k as int] == annotation@);
            return true;
        }
        k = k + 1;
    }
    assert(!anns_view(*anns).contains(annotation@)) by {
        if anns_view(*anns).contains(annotation@) {
            let i = choose|i: int| 0 <= i < anns_view(*anns).len() && anns_view(*anns)[i]
                == annotation@;
            assert(anns_view(*anns)[i] != annotation@);
        }
    }
    false
}

impl IonList {
    /// Returns the length of the underlying list.
    pub fn len(&self) -> (n: usize)
        ensures
            n == self@.len(),
    {
        proof {
            lemma_seq_view_index(self.items@);
        }
        self.items.len()
    }

    /// Returns the `IonValue` at the given index if it is in bounds, `None` otherwise.
    /// Use `index` for access that treats going out of bounds as a caller fault.
    pub fn at(&self, idx: usize) -> (r: Option<&IonValue>)
        ensures
            idx < self@.len() ==> (r matches Some(v) && v@ == self@[idx as int]),
            idx >= self@.len() ==> r is None,
    {
        proof {
            lemma_seq_view_index(self.items@);
        }
        if idx < self.items.len() {
            Some(&self.items[idx])
        } else {
            None
        }
    }

    /// Positional access whose bounds are the caller's contract: calling
    /// it out of bounds is a programming error, not a recoverable absence.
    pub fn index(&self, idx: usize) -> (r: &IonValue)
        requires
            idx < self@.len(),
        ensures
            r@ == self@[idx as int],
    {
        proof {
            lemma_seq_view_index(self.items@);
        }
        &self.items[idx]
    }

    /// Returns the list's values in stored order.
    pub fn iter(&self) -> (r: &Vec<IonValue>)
        ensures
            r@.len() == self@.len(),
            forall|i: int| 0 <= i < self@.len() ==> (#[trigger] r@[i])@ == self@[i],
    {
        proof {
            lemma_seq_view_index(self.items@);
        }
        &self.items
    }
}

impl IonStruct {
    /// Create a new `IonStruct` from the given field pairs.  Field names
    /// must be unique: a record never holds a name twice.
    pub fn new(fields: Vec<(String, IonValue)>) -> (r: Self)
        requires
            unique_keys(fields_view(fields@)),
        ensures
            r@ == fields_view(fields@),
    {
        IonStruct { fields }
    }

    /// Create a new `IonStruct` with no fields.
    pub fn new_empty() -> (r: Self)
        ensures
            r@ == Seq::<(Seq<char>, ValueView)>::empty(),
    {
        IonStruct { fields: Vec::new() }
    }

    /// Attempts to retrieve a field with the given name. Returns `None` if the field is not present.
    pub fn field(&self, name: &str) -> (r: Option<&IonValue>)
        ensures
            match r {
                Some(v) => lookup(self@, name@) == Some(v@),
                None => lookup(self@, name@) is None,
            },
    {
        let target = name.to_string();
        let n = self.fields.len();
        proof {
            lemma_fields_view_index(self.fields@);
        }
        proof {
            assert(self@.subrange(0, n as int) =~= self@);
        }
        let mut k: usize = 0;
        while k < n
            invariant
                n == self.fields.len(),
                k <= n,
                target@ == name@,
                self@ == fields_view(self.fields@),
                self@.len() == n,
                forall|i: int| 0 <= i < self.fields@.len() ==> self@[i] == (
                    (#[trigger] self.fields@[i]).0@,
                    value_view(self.fields@[i].1),
                ),
                lookup(self@, name@) == lookup(self@.subrange(k as int, n as int), name@),
            decreases n - k,
        {
            proof {
                lemma_fields_view_index(self.fields@);
            }
            let pair = &self.fields[k];
            if pair.0 == target {
                assert(self@.subrange(k as int, n as int)[0] == self@[k as int]);
                return Some(&pair.1);
            }
            proof {
                assert(self@.subrange(k as int, n as int).subrange(1, (n - k) as int) =~= self@
                    .subrange(k as int + 1, n as int));
            }
            k = k + 1;
        }
        proof {
            assert(self@.subrange(n as int, n as int).len() == 0);
        }
        None
    }

    /// Returns the struct's (field name, value) pairs.  The pair order
    /// carries no meaning: a record is an unordered mapping.
    pub fn iter_fields(&self) -> (r: &Vec<(String, IonValue)>)
        ensures
            fields_view(r@) == self@,
    {
        &self.fields
    }
}

} // verus!
