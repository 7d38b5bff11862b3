//! The scoped walker: a cheap cursor over one value of the tree that knows
//! its own access path, offers checked type-narrowing accessors, and
//! extends the path whenever it descends into a child, so that every
//! failure reports the fully-qualified position.

use vstd::prelude::*;
use crate::double::FloatBits;
use crate::error::{ErrorTypeView, ErrorView, IonError, IonErrorType, IonResult};
use crate::traits::IonDeserialize;
use crate::types::{anns_of, anns_view, clone_string_vec, lookup, tag_of, Annotations, IonList,
    IonStruct, IonType, IonValue, Timestamp, ValueView};

verus! {

/// The error a narrowing accessor reports when the value at `scopes` has
/// tag `found` where `expected` was required.
pub open spec fn wrong_type_at(found: IonType, expected: IonType, scopes: Seq<Seq<char>>)
    -> ErrorView {
    ErrorView { ty: ErrorTypeView::WrongType { found, expected }, scopes }
}

/// The error a field accessor reports when the record at `scopes`' parent
/// has no field called `name`.
pub open spec fn missing_field_at(name: Seq<char>, scopes: Seq<Seq<char>>) -> ErrorView {
    ErrorView { ty: ErrorTypeView::MissingField(name), scopes }
}

/// A navigation cursor over one value of a tree, together with the scope
/// path that leads to it.  Descending produces a new walker with an
/// extended path; the walker itself never changes, so sibling descents
/// cannot interfere.
pub struct IonWalker<'d> {
    pub data: &'d IonValue,
    pub scopes: Vec<String>,
}

impl<'d> IonWalker<'d> {
    /// The view of the value this walker sits on.
    pub open spec fn value_spec(&self) -> ValueView {
        self.data@
    }

    /// The views of the scope labels traversed from the root to here.
    pub open spec fn scopes_view(&self) -> Seq<Seq<char>> {
        anns_view(self.scopes)
    }

    /// Construct an IonWalker around the given reference, with no scopes.
    pub fn new(data: &'d IonValue) -> (r: Self)
        ensures
            r.value_spec() == data@,
            r.scopes_view() == Seq::<Seq<char>>::empty(),
    {
        let r = IonWalker { data, scopes: Vec::new() };
        proof {
            assert(r.scopes_view() =~= Seq::<Seq<char>>::empty());
        }
        r
    }

    /// Construct an IonWalker around the given reference, with the given scopes.
    pub fn with_scopes(data: &'d IonValue, scopes: Vec<String>) -> (r: Self)
        ensures
            r.value_spec() == data@,
            r.scopes_view() == anns_view(scopes),
    {
        IonWalker { data, scopes }
    }

    /// Returns a copy of this IonWalker with an added scope
    pub fn clone_with_scope(&self, scope: &str) -> (r: Self)
        ensures
            r.value_spec() == self.value_spec(),
            r.scopes_view() == self.scopes_view().push(scope@),
    {
        IonWalker { data: self.data, scopes: self.clone_scopes_with(scope) }
    }

    /// Returns a copy of this IonWalker's scopes
    pub fn clone_scopes(&self) -> (r: Vec<String>)
        ensures
            anns_view(r) == self.scopes_view(),
    {
        clone_string_vec(&self.scopes)
    }

    /// Returns a copy of this IonWalker's scopes with an extra scope added
    pub fn clone_scopes_with(&self, scope: &str) -> (r: Vec<String>)
        ensures
            anns_view(r) == self.scopes_view().push(scope@),
    {
        let mut r = clone_string_vec(&self.scopes);
        r.push(scope.to_string());
        proof {
            assert(anns_view(r) =~= self.scopes_view().push(scope@));
        }
        r
    }

    /// Convenience function to create an IonError with a copy of this IonWalker's scopes
    pub fn error(&self, error: IonErrorType) -> (r: IonError)
        ensures
            r@ == (ErrorView { ty: error@, scopes: self.scopes_view() }),
    {
        IonError::new(error, self.clone_scopes())
    }

    /// Convenience function for deserializing values that are IonDeserialize
    pub fn deserialize<T: IonDeserialize>(data: &IonValue) -> (r: IonResult<T>)
        ensures
            match r {
                Ok(v) => T::from_value_spec(data@, Seq::empty()) == Ok::<T, ErrorView>(v),
                Err(e) => T::from_value_spec(data@, Seq::empty()) matches Err(ev) && e@ == ev,
            },
    {
        T::deserialize(&IonWalker::new(data))
    }

    /// Convenience function for deserializing values that are IonDeserialize
    pub fn deserialize_with_scopes<T: IonDeserialize>(data: &IonValue, scopes: &Vec<String>) -> (r:
        IonResult<T>)
        ensures
            match r {
                Ok(v) => T::from_value_spec(data@, anns_view(*scopes)) == Ok::<T, ErrorView>(v),
                Err(e) => T::from_value_spec(data@, anns_view(*scopes)) matches Err(ev) && e@ == ev,
            },
    {
        T::deserialize(&IonWalker::with_scopes(data, clone_string_vec(scopes)))
    }

    /// Returns the list of annotations for the current value.
    pub fn annotations(&self) -> (r: &Annotations)
        ensures
            anns_view(*r) == anns_of(self.value_spec()),
    {
        self.data.annotations()
    }

    /// Returns true if the current value has an annotation with the given value.
    pub fn has_annotation(&self, ann: &str) -> (r: bool)
        ensures
            r == anns_of(self.value_spec()).contains(ann@),
    {
        self.data.has_annotation(ann)
    }

    /// Attempt to read the current value as a Struct
    pub fn as_struct(&self) -> (r: IonResult<&IonStruct>)
        ensures
            self.value_spec() is Struct ==> (r matches Ok(st) && st@ == self.value_spec()
                ->Struct_0),
            !(self.value_spec() is Struct) ==> (r matches Err(e) && e@ == wrong_type_at(
                tag_of(self.value_spec()), IonType::Struct, self.scopes_view())),
    {
        if let IonValue::Struct(st, _) = self.data {
            Ok(st)
        } else {
            Err(self.error(IonErrorType::WrongType {
                found: self.data.ty(),
                expected: IonType::Struct,
            }))
        }
    }

    /// Attempt to read the current value as a List
    pub fn as_list(&self) -> (r: IonResult<&IonList>)
        ensures
            self.value_spec() is List ==> (r matches Ok(l) && l@ == self.value_spec()->List_0),
            !(self.value_spec() is List) ==> (r matches Err(e) && e@ == wrong_type_at(
                tag_of(self.value_spec()), IonType::List, self.scopes_view())),
    {
        if let IonValue::List(l, _) = self.data {
            Ok(l)
        } else {
            Err(self.error(IonErrorType::WrongType {
                found: self.data.ty(),
                expected: IonType::List,
            }))
        }
    }

    /// Attempt to read the current value as a Null
    pub fn as_null(&self) -> (r: IonResult<()>)
        ensures
            self.value_spec() is Null ==> r is Ok,
            !(self.value_spec() is Null) ==> (r matches Err(e) && e@ == wrong_type_at(
                tag_of(self.value_spec()), IonType::Null, self.scopes_view())),
    {
        if let IonValue::Null(_) = self.data {
            Ok(())
        } else {
            Err(self.error(IonErrorType::WrongType {
                found: self.data.ty(),
                expected: IonType::Null,
            }))
        }
    }

    /// Attempt to read the current value as a Boolean
    pub fn as_boolean(&self) -> (r: IonResult<bool>)
        ensures
            self.value_spec() is Boolean ==> r == Ok::<bool, IonError>(self.value_spec()
                ->Boolean_0),
            !(self.value_spec() is Boolean) ==> (r matches Err(e) && e@ == wrong_type_at(
                tag_of(self.value_spec()), IonType::Boolean, self.scopes_view())),
    {
        if let IonValue::Boolean(b, _) = self.data {
            Ok(*b)
        } else {
            Err(self.error(IonErrorType::WrongType {
                found: self.data.ty(),
                expected: IonType::Boolean,
            }))
        }
    }

    /// Attempt to read the current value as an Integer
    pub fn as_integer(&self) -> (r: IonResult<i64>)
        ensures
            self.value_spec() is Integer ==> r == Ok::<i64, IonError>(self.value_spec()
                ->Integer_0),
            !(self.value_spec() is Integer) ==> (r matches Err(e) && e@ == wrong_type_at(
                tag_of(self.value_spec()), IonType::Integer, self.scopes_view())),
    {
        if let IonValue::Integer(i, _) = self.data {
            Ok(*i)
        } else {
            Err(self.error(IonErrorType::WrongType {
                found: self.data.ty(),
                expected: IonType::Integer,
            }))
        }
    }

    /// Attempt to read the current value as a Float.  Unlike the value
    /// model's probing accessor, this narrows strictly: an Integer is a
    /// wrong-type failure here.
    pub fn as_float(&self) -> (r: IonResult<FloatBits>)
        ensures
            self.value_spec() is Float ==> r == Ok::<FloatBits, IonError>(self.value_spec()
                ->Float_0),
            !(self.value_spec() is Float) ==> (r matches Err(e) && e@ == wrong_type_at(
                tag_of(self.value_spec()), IonType::Float, self.scopes_view())),
    {
        if let IonValue::Float(f, _) = self.data {
            Ok(*f)
        } else {
            Err(self.error(IonErrorType::WrongType {
                found: self.data.ty(),
                expected: IonType::Float,
            }))
        }
    }

    /// Attempt to read the current value as a String
    pub fn as_string(&self) -> (r: IonResult<&str>)
        ensures
            self.value_spec() is String ==> (r matches Ok(s) && s@ == self.value_spec()
                ->String_0),
            !(self.value_spec() is String) ==> (r matches Err(e) && e@ == wrong_type_at(
                tag_of(self.value_spec()), IonType::String, self.scopes_view())),
    {
        if let IonValue::String(s, _) = self.data {
            Ok(s.as_str())
        } else {
            Err(self.error(IonErrorType::WrongType {
                found: self.data.ty(),
                expected: IonType::String,
            }))
        }
    }

    /// Attempt to read the current value as a Blob
    pub fn as_blob(&self) -> (r: IonResult<&[u8]>)
        ensures
            self.value_spec() is Blob ==> (r matches Ok(b) && b@ == self.value_spec()->Blob_0),
            !(self.value_spec() is Blob) ==> (r matches Err(e) && e@ == wrong_type_at(
                tag_of(self.value_spec()), IonType::Blob, self.scopes_view())),
    {
        if let IonValue::Blob(b, _) = self.data {
            Ok(b.as_slice())
        } else {
            Err(self.error(IonErrorType::WrongType {
                found: self.data.ty(),
                expected: IonType::Blob,
            }))
        }
    }

    /// Attempt to read the current value as a Timestamp
    pub fn as_timestamp(&self) -> (r: IonResult<&Timestamp>)
        ensures
            self.value_spec() is Timestamp ==> (r matches Ok(t) && *t == self.value_spec()
                ->Timestamp_0),
            !(self.value_spec() is Timestamp) ==> (r matches Err(e) && e@ == wrong_type_at(
                tag_of(self.value_spec()), IonType::Timestamp, self.scopes_view())),
    {
        if let IonValue::Timestamp(t, _) = self.data {
            Ok(t)
        } else {
            Err(self.error(IonErrorType::WrongType {
                found: self.data.ty(),
                expected: IonType::Timestamp,
            }))
        }
    }

    /// What a field accessor finds for `name` under this walker: the
    /// current value must be a record, and the field must be present; the
    /// reported path is extended with the field's name before narrowing.
    pub open spec fn field_outcome(&self, name: Seq<char>) -> Result<ValueView, ErrorView> {
        if !(self.value_spec() is Struct) {
            Err(wrong_type_at(tag_of(self.value_spec()), IonType::Struct, self.scopes_view()))
        } else {
            match lookup(self.value_spec()->Struct_0, name) {
                Option::Some(v) => Ok(v),
                Option::None => Err(missing_field_at(name, self.scopes_view().push(name))),
            }
        }
    }

    /// Looks the named field up in the current record, handing back the
    /// child value, or the failure that `field_outcome` describes.
    fn field_value(&self, field_name: &str) -> (r: IonResult<&'d IonValue>)
        ensures
            match r {
                Ok(v) => self.field_outcome(field_name@) == Ok::<ValueView, ErrorView>(v@),
                Err(e) => self.field_outcome(field_name@) matches Err(ev) && e@ == ev,
            },
    {
        let st = match self.as_struct_ref() {
            Ok(st) => st,
            Err(e) => {
                return Err(e);
            },
        };
        match st.field(field_name) {
            Some(v) => Ok(v),
            None => Err(IonError::new(
                IonErrorType::MissingField(field_name.to_string()),
                self.clone_scopes_with(field_name),
            )),
        }
    }

    /// As `as_struct`, but with the struct borrowed for the tree's
    /// lifetime rather than the walker's.
    fn as_struct_ref(&self) -> (r: IonResult<&'d IonStruct>)
        ensures
            self.value_spec() is Struct ==> (r matches Ok(st) && st@ == self.value_spec()
                ->Struct_0),
            !(self.value_spec() is Struct) ==> (r matches Err(e) && e@ == wrong_type_at(
                tag_of(self.value_spec()), IonType::Struct, self.scopes_view())),
    {
        if let IonValue::Struct(st, _) = self.data {
            Ok(st)
        } else {
            Err(self.error(IonErrorType::WrongType {
                found: self.data.ty(),
                expected: IonType::Struct,
            }))
        }
    }

    /// Attempt to read the named field as a Struct. Assumes current value is an `IonStruct`.
    pub fn get_struct(&self, field_name: &str) -> (r: IonResult<&IonStruct>)
        ensures
            match r {
                Ok(st) => self.field_outcome(field_name@) matches Ok(v) && v is Struct && st@ == v
                    ->Struct_0,
                Err(e) => match self.field_outcome(field_name@) {
                    Ok(v) => !(v is Struct) && e@ == wrong_type_at(tag_of(v), IonType::Struct,
                        self.scopes_view().push(field_name@)),
                    Err(ev) => e@ == ev,
                },
            },
    {
        match self.field_value(field_name) {
            Err(e) => Err(e),
            Ok(val) => match val {
                IonValue::Struct(st, _) => Ok(st),
                _ => Err(IonError::new(
                    IonErrorType::WrongType { found: val.ty(), expected: IonType::Struct },
                    self.clone_scopes_with(field_name),
                )),
            },
        }
    }

    /// Attempt to read the named field as a List. Assumes current value is an `IonStruct`.
    pub fn get_list(&self, field_name: &str) -> (r: IonResult<&IonList>)
        ensures
            match r {
                Ok(l) => self.field_outcome(field_name@) matches Ok(v) && v is List && l@ == v
                    ->List_0,
                Err(e) => match self.field_outcome(field_name@) {
                    Ok(v) => !(v is List) && e@ == wrong_type_at(tag_of(v), IonType::List,
                        self.scopes_view().push(field_name@)),
                    Err(ev) => e@ == ev,
                },
            },
    {
        match self.field_value(field_name) {
            Err(e) => Err(e),
            Ok(val) => match val {
                IonValue::List(l, _) => Ok(l),
                _ => Err(IonError::new(
                    IonErrorType::WrongType { found: val.ty(), expected: IonType::List },
                    self.clone_scopes_with(field_name),
                )),
            },
        }
    }

    /// Attempt to read the named field as a Null. Assumes current value is an `IonStruct`.
    pub fn get_null(&self, field_name: &str) -> (r: IonResult<()>)
        ensures
            match r {
                Ok(_) => self.field_outcome(field_name@) matches Ok(v) && v is Null,
                Err(e) => match self.field_outcome(field_name@) {
                    Ok(v) => !(v is Null) && e@ == wrong_type_at(tag_of(v), IonType::Null,
                        self.scopes_view().push(field_name@)),
                    Err(ev) => e@ == ev,
                },
            },
    {
        match self.field_value(field_name) {
            Err(e) => Err(e),
            Ok(val) => match val {
                IonValue::Null(_) => Ok(()),
                _ => Err(IonError::new(
                    IonErrorType::WrongType { found: val.ty(), expected: IonType::Null },
                    self.clone_scopes_with(field_name),
                )),
            },
        }
    }

    /// Attempt to read the named field as a Boolean. Assumes current value is an `IonStruct`.
    pub fn get_boolean(&self, field_name: &str) -> (r: IonResult<bool>)
        ensures
            match r {
                Ok(b) => self.field_outcome(field_name@) matches Ok(v) && v is Boolean && b == v
                    ->Boolean_0,
                Err(e) => match self.field_outcome(field_name@) {
                    Ok(v) => !(v is Boolean) && e@ == wrong_type_at(tag_of(v), IonType::Boolean,
                        self.scopes_view().push(field_name@)),
                    Err(ev) => e@ == ev,
                },
            },
    {
        match self.field_value(field_name) {
            Err(e) => Err(e),
            Ok(val) => match val {
                IonValue::Boolean(b, _) => Ok(*b),
                _ => Err(IonError::new(
                    IonErrorType::WrongType { found: val.ty(), expected: IonType::Boolean },
                    self.clone_scopes_with(field_name),
                )),
            },
        }
    }

    /// Attempt to read the named field as an Integer. Assumes current value is an `IonStruct`.
    pub fn get_integer(&self, field_name: &str) -> (r: IonResult<i64>)
        ensures
            match r {
                Ok(i) => self.field_outcome(field_name@) matches Ok(v) && v is Integer && i == v
                    ->Integer_0,
                Err(e) => match self.field_outcome(field_name@) {
                    Ok(v) => !(v is Integer) && e@ == wrong_type_at(tag_of(v), IonType::Integer,
                        self.scopes_view().push(field_name@)),
                    Err(ev) => e@ == ev,
                },
            },
    {
        match self.field_value(field_name) {
            Err(e) => Err(e),
            Ok(val) => match val {
                IonValue::Integer(i, _) => Ok(*i),
                _ => Err(IonError::new(
                    IonErrorType::WrongType { found: val.ty(), expected: IonType::Integer },
                    self.clone_scopes_with(field_name),
                )),
            },
        }
    }

    /// Attempt to read the named field as a Float. Assumes current value is an `IonStruct`.
    pub fn get_float(&self, field_name: &str) -> (r: IonResult<FloatBits>)
        ensures
            match r {
                Ok(f) => self.field_outcome(field_name@) matches Ok(v) && v is Float && f == v
                    ->Float_0,
                Err(e) => match self.field_outcome(field_name@) {
                    Ok(v) => !(v is Float) && e@ == wrong_type_at(tag_of(v), IonType::Float,
                        self.scopes_view().push(field_name@)),
                    Err(ev) => e@ == ev,
                },
            },
    {
        match self.field_value(field_name) {
            Err(e) => Err(e),
            Ok(val) => match val {
                IonValue::Float(f, _) => Ok(*f),
                _ => Err(IonError::new(
                    IonErrorType::WrongType { found: val.ty(), expected: IonType::Float },
                    self.clone_scopes_with(field_name),
                )),
            },
        }
    }

    /// Attempt to read the named field as a String. Assumes current value is an `IonStruct`.
    pub fn get_string(&self, field_name: &str) -> (r: IonResult<&str>)
        ensures
            match r {
                Ok(s) => self.field_outcome(field_name@) matches Ok(v) && v is String && s@ == v
                    ->String_0,
                Err(e) => match self.field_outcome(field_name@) {
                    Ok(v) => !(v is String) && e@ == wrong_type_at(tag_of(v), IonType::String,
                        self.scopes_view().push(field_name@)),
                    Err(ev) => e@ == ev,
                },
            },
    {
        match self.field_value(field_name) {
            Err(e) => Err(e),
            Ok(val) => match val {
                IonValue::String(s, _) => Ok(s.as_str()),
                _ => Err(IonError::new(
                    IonErrorType::WrongType { found: val.ty(), expected: IonType::String },
                    self.clone_scopes_with(field_name),
                )),
            },
        }
    }

    /// Attempt to read the named field as a Blob. Assumes current value is an `IonStruct`.
    pub fn get_blob(&self, field_name: &str) -> (r: IonResult<&[u8]>)
        ensures
            match r {
                Ok(b) => self.field_outcome(field_name@) matches Ok(v) && v is Blob && b@ == v
                    ->Blob_0,
                Err(e) => match self.field_outcome(field_name@) {
                    Ok(v) => !(v is Blob) && e@ == wrong_type_at(tag_of(v), IonType::Blob,
                        self.scopes_view().push(field_name@)),
                    Err(ev) => e@ == ev,
                },
            },
    {
        match self.field_value(field_name) {
            Err(e) => Err(e),
            Ok(val) => match val {
                IonValue::Blob(b, _) => Ok(b.as_slice()),
                _ => Err(IonError::new(
                    IonErrorType::WrongType { found: val.ty(), expected: IonType::Blob },
                    self.clone_scopes_with(field_name),
                )),
            },
        }
    }

    /// Attempt to read the named field as a Timestamp. Assumes current value is an `IonStruct`.
    pub fn get_timestamp(&self, field_name: &str) -> (r: IonResult<&Timestamp>)
        ensures
            match r {
                Ok(t) => self.field_outcome(field_name@) matches Ok(v) && v is Timestamp && *t == v
                    ->Timestamp_0,
                Err(e) => match self.field_outcome(field_name@) {
                    Ok(v) => !(v is Timestamp) && e@ == wrong_type_at(tag_of(v),
                        IonType::Timestamp, self.scopes_view().push(field_name@)),
                    Err(ev) => e@ == ev,
                },
            },
    {
        match self.field_value(field_name) {
            Err(e) => Err(e),
            Ok(val) => match val {
                IonValue::Timestamp(t, _) => Ok(t),
                _ => Err(IonError::new(
                    IonErrorType::WrongType { found: val.ty(), expected: IonType::Timestamp },
                    self.clone_scopes_with(field_name),
                )),
            },
        }
    }

    /// Generic version of the as_X method that works for any type which is `IonDeserialize`.
    pub fn as_type<T: IonDeserialize>(&self) -> (r: IonResult<T>)
        ensures
            match r {
                Ok(v) => T::from_value_spec(self.value_spec(), self.scopes_view())
                    == Ok::<T, ErrorView>(v),
                Err(e) => T::from_value_spec(self.value_spec(), self.scopes_view())
                    matches Err(ev) && e@ == ev,
            },
    {
        T::deserialize(self)
    }

    /// Generic version of the get_X method that works for any type which is `IonDeserialize`.
    pub fn get_type<T: IonDeserialize>(&self, field_name: &str) -> (r: IonResult<T>)
        ensures
            match r {
                Ok(t) => self.field_outcome(field_name@) matches Ok(v) && T::from_value_spec(v,
                    self.scopes_view().push(field_name@)) == Ok::<T, ErrorView>(t),
                Err(e) => match self.field_outcome(field_name@) {
                    Ok(v) => T::from_value_spec(v, self.scopes_view().push(field_name@))
                        matches Err(ev) && e@ == ev,
                    Err(ev) => e@ == ev,
                },
            },
    {
        match self.field_value(field_name) {
            Err(e) => Err(e),
            Ok(val) => T::deserialize(&IonWalker {
                data: val,
                scopes: self.clone_scopes_with(field_name),
            }),
        }
    }
}

} // verus!
