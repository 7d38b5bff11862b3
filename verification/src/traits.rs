//! The deserialization protocol: a type is deserializable when it can
//! produce an instance of itself from a walker positioned at the value
//! that should become that instance, or fail with a path-qualified error.
//! Each implementor also states, as a specification, exactly what a value
//! and scope path yield, so that the generic accessors have exact
//! contracts.

use vstd::prelude::*;
use crate::double::FloatBits;
use crate::error::{ErrorTypeView, ErrorView, IonResult};
use crate::types::{anns_view, clone_string_vec, lemma_fields_view_index, tag_of, value_view,
    IonStruct, IonType, ValueView};
use crate::walker::IonWalker;

verus! {

pub trait IonDeserialize: Sized {
    /// What deserializing `Self` from the value `v` reached by the scope
    /// path `scopes` yields: the instance, or the error reported.
    spec fn from_value_spec(v: ValueView, scopes: Seq<Seq<char>>) -> Result<Self, ErrorView>;

    /// Produce an instance of `Self` from the walker's current value, or
    /// fail with an error carrying the walker's path.
    fn deserialize<'d>(walker: &IonWalker<'d>) -> (r: IonResult<Self>)
        ensures
            match r {
                Ok(v) => Self::from_value_spec(walker.value_spec(), walker.scopes_view())
                    == Ok::<Self, ErrorView>(v),
                Err(e) => Self::from_value_spec(walker.value_spec(), walker.scopes_view())
                    matches Err(ev) && e@ == ev,
            },
    ;
}

/// What converting every field of a record to `T` yields, in stored
/// order: the (name, instance) pairs, or the first field's failure, whose
/// error path is the given scope path extended with that field's name.
pub open spec fn map_fields_spec<T: IonDeserialize>(
    fields: Seq<(Seq<char>, ValueView)>,
    scopes: Seq<Seq<char>>,
) -> Result<Seq<(Seq<char>, T)>, ErrorView>
    decreases fields,
{
    if fields.len() == 0 {
        Ok(Seq::empty())
    } else {
        match T::from_value_spec(fields[0].1, scopes.push(fields[0].0)) {
            Err(e) => Err(e),
            Ok(t) => match map_fields_spec::<T>(fields.subrange(1, fields.len() as int), scopes) {
                Err(e) => Err(e),
                Ok(rest) => Ok(seq![(fields[0].0, t)] + rest),
            },
        }
    }
}

/// The scope path that `into_map_of` starts from.
pub open spec fn scopes_opt_view(scopes: Option<Vec<String>>) -> Seq<Seq<char>> {
    match scopes {
        Option::Some(s) => anns_view(s),
        Option::None => Seq::empty(),
    }
}

impl IonStruct {
    /// Attempt to convert all fields to the given `IonDeserialize` type.
    /// Fails on the first field whose value is not a `T`, with the error
    /// path extended by that field's name.
    pub fn into_map_of<T: IonDeserialize>(&self, scopes: Option<Vec<String>>) -> (r: IonResult<
        Vec<(String, T)>,
    >)
        ensures
            match r {
                Ok(m) => map_fields_spec::<T>(self@, scopes_opt_view(scopes)) == Ok::<
                    Seq<(Seq<char>, T)>,
                    ErrorView,
                >(m@.map_values(|p: (String, T)| (p.0@, p.1))),
                Err(e) => map_fields_spec::<T>(self@, scopes_opt_view(scopes)) matches Err(ev)
                    && e@ == ev,
            },
    {
        let ghost sc = scopes_opt_view(scopes);
        let base_scopes = match &scopes {
            Some(s) => clone_string_vec(s),
            None => Vec::new(),
        };
        proof {
            assert(anns_view(base_scopes) =~= sc);
        }
        let mut out: Vec<(String, T)> = Vec::new();
        let n = self.fields.len();
        proof {
            lemma_fields_view_index(self.fields@);
            assert(self@.subrange(0, n as int) =~= self@);
            assert(out@.map_values(|p: (String, T)| (p.0@, p.1)) =~= Seq::<(Seq<char>, T)>::empty());
        }
        let mut k: usize = 0;
        while k < n
            invariant
                n == self.fields.len(),
                k <= n,
                sc == scopes_opt_view(scopes),
                anns_view(base_scopes) == sc,
                self@.len() == n,
                forall|i: int| 0 <= i < self.fields@.len() ==> self@[i] == (
                    (#[trigger] self.fields@[i]).0@,
                    value_view(self.fields@[i].1),
                ),
                map_fields_spec::<T>(self@, sc) == (match map_fields_spec::<T>(self@.subrange(
                    k as int, n as int), sc) {
                    Ok(rest) => Ok::<Seq<(Seq<char>, T)>, ErrorView>(out@.map_values(
                        |p: (String, T)| (p.0@, p.1)) + rest),
                    Err(e) => Err(e),
                }),
            decreases n - k,
        {
            let pair = &self.fields[k];
            let mut child_scopes = clone_string_vec(&base_scopes);
            child_scopes.push(pair.0.clone());
            proof {
                assert(anns_view(child_scopes) =~= sc.push(pair.0@));
                assert(self@.subrange(k as int, n as int)[0] == self@[k as int]);
            }
            match IonWalker::deserialize_with_scopes::<T>(&pair.1, &child_scopes) {
                Err(e) => {
                    proof {
                        assert(T::from_value_spec(value_view(self.fields@[k as int].1), sc.push(
                            self@[k as int].0)) matches Err(ev) && e@ == ev);
                        assert(map_fields_spec::<T>(self@.subrange(k as int, n as int), sc)
                            matches Err(ev) && e@ == ev);
                        assert(map_fields_spec::<T>(self@, sc) matches Err(ev) && e@ == ev);
                    }
                    return Err(e);
                },
                Ok(t) => {
                    let ghost old_out = out@;
                    out.push((pair.0.clone(), t));
                    proof {
                        let f = |p: (String, T)| (p.0@, p.1);
                        assert(out@.map_values(f) =~= old_out.map_values(f).push((pair.0@, t)));
                        assert(self@.subrange(k as int, n as int).subrange(1, (n - k) as int)
                            =~= self@.subrange(k as int + 1, n as int));
                        assert(old_out.map_values(f) + (seq![(self@[k as int].0, t)] + (
                        match map_fields_spec::<T>(self@.subrange(k as int + 1, n as int), sc) {
                            Ok(rest) => rest,
                            Err(_) => Seq::empty(),
                        })) =~= (old_out.map_values(f).push((pair.0@, t))) + (
                        match map_fields_spec::<T>(self@.subrange(k as int + 1, n as int), sc) {
                            Ok(rest) => rest,
                            Err(_) => Seq::empty(),
                        }));
                    }
                    k = k + 1;
                },
            }
        }
        proof {
            assert(self@.subrange(n as int, n as int).len() == 0);
            assert(out@.map_values(|p: (String, T)| (p.0@, p.1)) + Seq::<(Seq<char>, T)>::empty()
                =~= out@.map_values(|p: (String, T)| (p.0@, p.1)));
        }
        Ok(out)
    }
}

impl IonDeserialize for i64 {
    open spec fn from_value_spec(v: ValueView, scopes: Seq<Seq<char>>) -> Result<i64, ErrorView> {
        match v {
            ValueView::Integer(i, _) => Ok(i),
            _ => Err(ErrorView {
                ty: ErrorTypeView::WrongType { found: tag_of(v), expected: IonType::Integer },
                scopes,
            }),
        }
    }

    fn deserialize<'d>(walker: &IonWalker<'d>) -> (r: IonResult<i64>) {
        walker.as_integer()
    }
}

impl IonDeserialize for i32 {
    open spec fn from_value_spec(v: ValueView, scopes: Seq<Seq<char>>) -> Result<i32, ErrorView> {
        match v {
            ValueView::Integer(i, _) => Ok(i as i32),
            _ => Err(ErrorView {
                ty: ErrorTypeView::WrongType { found: tag_of(v), expected: IonType::Integer },
                scopes,
            }),
        }
    }

    fn deserialize<'d>(walker: &IonWalker<'d>) -> (r: IonResult<i32>) {
        match walker.as_integer() {
            Ok(i) => Ok(#[verifier::truncate] (i as i32)),
            Err(e) => Err(e),
        }
    }
}

impl IonDeserialize for FloatBits {
    open spec fn from_value_spec(v: ValueView, scopes: Seq<Seq<char>>) -> Result<
        FloatBits,
        ErrorView,
    > {
        match v {
            ValueView::Float(f, _) => Ok(f),
            _ => Err(ErrorView {
                ty: ErrorTypeView::WrongType { found: tag_of(v), expected: IonType::Float },
                scopes,
            }),
        }
    }

    fn deserialize<'d>(walker: &IonWalker<'d>) -> (r: IonResult<FloatBits>) {
        walker.as_float()
    }
}

} // verus!
