//! Structured data: what a codec reads a blob into, and writes a blob from.

use crate::error::{viewed, DecodeError};
use vstd::prelude::*;

verus! {

/// Equality of string slices: std's `PartialEq` for `str` compares the contents.
pub assume_specification[ <str as PartialEq>::eq ](a: &str, b: &str) -> (same: bool)
    ensures
        same == (a@ == b@),
;

/// A structured datum, as a codec for a format such as JSON or YAML holds it.
#[derive(Debug, PartialEq)]
pub enum Value {
    /// The absent value.
    Null,
    /// A truth value.
    Bool(bool),
    /// A whole number.
    Integer(i128),
    /// A number with a fraction, as the bit pattern of its double-precision form.
    Real(u64),
    /// A text.
    Text(String),
    /// A sequence of data.
    List(Vec<Value>),
    /// Named fields, in the order in which they were written.
    Record(Vec<(String, Value)>),
}

/// The mathematical form of a [`Value`].
pub enum ValueView {
    Null,
    Bool(bool),
    Integer(int),
    Real(u64),
    Text(Seq<char>),
    List(Seq<ValueView>),
    Record(Seq<(Seq<char>, ValueView)>),
}

impl View for Value {
    type V = ValueView;

    open spec fn view(&self) -> ValueView
        decreases self,
    {
        match self {
            Value::Null => ValueView::Null,
            Value::Bool(b) => ValueView::Bool(*b),
            Value::Integer(n) => ValueView::Integer(*n as int),
            Value::Real(bits) => ValueView::Real(*bits),
            Value::Text(s) => ValueView::Text(s@),
            Value::List(items) => ValueView::List(
                Seq::new(
                    items.len() as nat,
                    |i: int|
                        if 0 <= i < items.len() {
                            items[i]@
                        } else {
                            ValueView::Null
                        },
                ),
            ),
            Value::Record(fields) => ValueView::Record(
                Seq::new(
                    fields.len() as nat,
                    |i: int|
                        if 0 <= i < fields.len() {
                            (fields[i].0@, fields[i].1@)
                        } else {
                            (Seq::empty(), ValueView::Null)
                        },
                ),
            ),
        }
    }
}

impl Clone for Value {
    fn clone(&self) -> (copy: Value)
        ensures
            copy@ == self@,
    {
        self.copy()
    }
}

/// Whether the field at index `i` of `fields` goes by `name`.
pub open spec fn named(fields: Seq<(Seq<char>, ValueView)>, name: Seq<char>, i: int) -> bool {
    0 <= i < fields.len() && fields[i].0 == name
}

/// What a record holds under a name.
pub enum Held {
    /// No field goes by the name.
    Absent,
    /// One field goes by the name, with this datum.
    Once(ValueView),
    /// Two fields or more go by the name.
    Repeated,
}

/// What the fields of a record hold under `name`.
pub open spec fn held(fields: Seq<(Seq<char>, ValueView)>, name: Seq<char>) -> Held {
    if forall|i: int| !named(fields, name, i) {
        Held::Absent
    } else if exists|i: int, j: int| i != j && named(fields, name, i) && named(fields, name, j) {
        Held::Repeated
    } else {
        Held::Once(fields[choose|i: int| named(fields, name, i)].1)
    }
}

/// A record holds a name once where one field goes by it and no other does.
pub proof fn lemma_held_once(fields: Seq<(Seq<char>, ValueView)>, name: Seq<char>, at: int)
    requires
        named(fields, name, at),
        forall|i: int| named(fields, name, i) ==> i == at,
    ensures
        held(fields, name) == Held::Once(fields[at].1),
{
    let chosen = choose|i: int| named(fields, name, i);
    assert(named(fields, name, chosen));
}

/// A field added to a record under one name leaves what the record holds under any other name.
pub proof fn lemma_held_despite(
    fields: Seq<(Seq<char>, ValueView)>,
    at: int,
    extra: (Seq<char>, ValueView),
    name: Seq<char>,
)
    requires
        0 <= at <= fields.len(),
        extra.0 != name,
    ensures
        held(fields.insert(at, extra), name) == held(fields, name),
{
    let more = fields.insert(at, extra);
    // Where a field of the shorter record stands in the longer one, and the other way round.
    let up = |i: int| if i < at { i } else { i + 1 };
    let down = |i: int| if i < at { i } else { i - 1 };
    assert forall|i: int| named(fields, name, i) implies named(more, name, up(i)) by {}
    assert forall|i: int| named(more, name, i) implies named(fields, name, down(i)) by {}
    if forall|i: int| !named(fields, name, i) {
        assert forall|i: int| !named(more, name, i) by {
            if named(more, name, i) {
                assert(named(fields, name, down(i)));
            }
        }
    } else if exists|i: int, j: int| i != j && named(fields, name, i) && named(fields, name, j) {
        let (i, j) = choose|i: int, j: int|
            i != j && named(fields, name, i) && named(fields, name, j);
        assert(named(more, name, up(i)) && named(more, name, up(j)) && up(i) != up(j));
    } else {
        let i = choose|i: int| named(fields, name, i);
        assert(named(more, name, up(i)));
        assert forall|j: int| named(more, name, j) implies j == up(i) by {
            assert(named(fields, name, down(j)));
            if down(j) != i {
                assert(named(fields, name, i));
            }
        }
        assert forall|j: int| named(fields, name, j) implies j == i by {}
        lemma_held_once(fields, name, i);
        lemma_held_once(more, name, up(i));
    }
}

/// What a record holds under a name, as a reference into the record.
pub enum Lookup<'a> {
    /// No field goes by the name.
    Absent,
    /// One field goes by the name, with this datum.
    Once(&'a Value),
    /// Two fields or more go by the name.
    Repeated,
}

impl<'a> View for Lookup<'a> {
    type V = Held;

    open spec fn view(&self) -> Held {
        match self {
            Lookup::Absent => Held::Absent,
            Lookup::Once(datum) => Held::Once(datum@),
            Lookup::Repeated => Held::Repeated,
        }
    }
}

impl ValueView {
    /// What the datum holds under `name`: the fields of a record are searched, and any other
    /// datum holds nothing.
    pub open spec fn field(self, name: Seq<char>) -> Held {
        match self {
            ValueView::Record(fields) => held(fields, name),
            _ => Held::Absent,
        }
    }

    /// The datum of a field that a record must hold exactly once.
    pub open spec fn required(self, name: &'static str) -> Result<ValueView, DecodeError> {
        match self {
            ValueView::Record(fields) => match held(fields, name@) {
                Held::Absent => Err(DecodeError::MissingField(name)),
                Held::Once(datum) => Ok(datum),
                Held::Repeated => Err(DecodeError::DuplicateField(name)),
            },
            _ => Err(DecodeError::Mismatch),
        }
    }

    /// The datum of a field that a record may hold once, or leave out.
    pub open spec fn optional(self, name: &'static str) -> Result<Option<ValueView>, DecodeError> {
        match self {
            ValueView::Record(fields) => match held(fields, name@) {
                Held::Absent => Ok(None),
                Held::Once(datum) => Ok(Some(datum)),
                Held::Repeated => Err(DecodeError::DuplicateField(name)),
            },
            _ => Err(DecodeError::Mismatch),
        }
    }
}

impl Value {
    /// The view of a list holds the views of its items, in order.
    pub proof fn lemma_list_view(items: Vec<Value>)
        ensures
            Value::List(items)@ matches ValueView::List(seen) && seen.len() == items.len()
                && forall|k: int| 0 <= k < items.len() ==> seen[k] == (#[trigger] items[k])@,
    {
        reveal_with_fuel(<Value as View>::view, 2);
    }

    /// The view of a record holds the views of its fields, name and datum, in order.
    pub proof fn lemma_record_view(fields: Vec<(String, Value)>)
        ensures
            Value::Record(fields)@ matches ValueView::Record(seen) && seen.len() == fields.len()
                && forall|k: int|
                0 <= k < fields.len() ==> seen[k] == ((#[trigger] fields[k]).0@, fields[k].1@),
    {
        reveal_with_fuel(<Value as View>::view, 2);
    }
}

impl Value {
    /// A copy of the datum, with a copy of whatever it holds.
    pub fn copy(&self) -> (copy: Value)
        ensures
            copy@ == self@,
        decreases self,
    {
        match self {
            Value::Null => Value::Null,
            Value::Bool(b) => Value::Bool(*b),
            Value::Integer(n) => Value::Integer(*n),
            Value::Real(bits) => Value::Real(*bits),
            Value::Text(text) => Value::Text(text.clone()),
            Value::List(items) => {
                let mut copies: Vec<Value> = Vec::new();
                let mut i: usize = 0;
                while i < items.len()
                    invariant
                        i <= items.len(),
                        *self == Value::List(*items),
                        copies.len() == i,
                        forall|k: int| 0 <= k < i ==> (#[trigger] copies[k])@ == items[k]@,
                    decreases items.len() - i,
                {
                    assert(decreases_to!(self->List_0 => self->List_0[i as int]));
                    copies.push(items[i].copy());
                    i += 1;
                }
                proof {
                    Value::lemma_list_view(*items);
                    Value::lemma_list_view(copies);
                    assert(Value::List(copies)@->List_0 =~= self@->List_0);
                }
                Value::List(copies)
            },
            Value::Record(fields) => {
                let mut copies: Vec<(String, Value)> = Vec::new();
                let mut i: usize = 0;
                while i < fields.len()
                    invariant
                        i <= fields.len(),
                        *self == Value::Record(*fields),
                        copies.len() == i,
                        forall|k: int|
                            0 <= k < i ==> (#[trigger] copies[k]).0@ == fields[k].0@
                                && copies[k].1@ == fields[k].1@,
                    decreases fields.len() - i,
                {
                    assert(decreases_to!(self->Record_0 => self->Record_0[i as int]));
                    copies.push((fields[i].0.clone(), fields[i].1.copy()));
                    i += 1;
                }
                proof {
                    Value::lemma_record_view(*fields);
                    Value::lemma_record_view(copies);
                    assert(Value::Record(copies)@->Record_0 =~= self@->Record_0);
                }
                Value::Record(copies)
            },
        }
    }

    /// Looks a name up among the fields of a record.
    pub fn field<'a>(&'a self, name: &str) -> (found: Lookup<'a>)
        ensures
            found@ == self@.field(name@),
    {
        match self {
            Value::Record(fields) => {
                let ghost seen = self@->Record_0;
                proof {
                    Value::lemma_record_view(*fields);
                }
                let mut hit: Option<usize> = None;
                let mut i: usize = 0;
                while i < fields.len()
                    invariant
                        i <= fields.len(),
                        self@ == ValueView::Record(seen),
                        seen.len() == fields.len(),
                        forall|k: int|
                            0 <= k < fields.len() ==> seen[k] == (
                                (#[trigger] fields[k]).0@,
                                fields[k].1@,
                            ),
                        hit matches Some(h) ==> h < i && named(seen, name@, h as int),
                        forall|k: int|
                            0 <= k < i && hit != Some(k as usize) ==> !named(seen, name@, k),
                    decreases fields.len() - i,
                {
                    if name.eq(fields[i].0.as_str()) {
                        if hit.is_some() {
                            assert(named(seen, name@, i as int));
                            assert(named(seen, name@, hit.unwrap() as int));
                            return Lookup::Repeated;
                        }
                        hit = Some(i);
                    }
                    i += 1;
                }
                match hit {
                    Some(h) => {
                        assert(named(seen, name@, h as int));
                        assert forall|a: int, b: int|
                            named(seen, name@, a) && named(seen, name@, b) implies a == b by {}
                        Lookup::Once(&fields[h].1)
                    },
                    None => Lookup::Absent,
                }
            },
            _ => Lookup::Absent,
        }
    }

    /// The datum of a field that a record must hold exactly once.
    pub fn required<'a>(&'a self, name: &'static str) -> (found: Result<&'a Value, DecodeError>)
        ensures
            viewed(found) == self@.required(name),
    {
        match self {
            Value::Record(_) => match self.field(name) {
                Lookup::Absent => Err(DecodeError::MissingField(name)),
                Lookup::Once(datum) => Ok(datum),
                Lookup::Repeated => Err(DecodeError::DuplicateField(name)),
            },
            _ => Err(DecodeError::Mismatch),
        }
    }

    /// The datum of a field that a record may hold once, or leave out.
    pub fn optional<'a>(&'a self, name: &'static str) -> (found: Result<
        Option<&'a Value>,
        DecodeError,
    >)
        ensures
            found matches Ok(Some(datum)) ==> self@.optional(name) == Ok::<
                Option<ValueView>,
                DecodeError,
            >(Some(datum@)),
            found matches Ok(None) ==> self@.optional(name) == Ok::<
                Option<ValueView>,
                DecodeError,
            >(None),
            found matches Err(e) ==> self@.optional(name) == Err::<
                Option<ValueView>,
                DecodeError,
            >(e),
    {
        match self {
            Value::Record(_) => match self.field(name) {
                Lookup::Absent => Ok(None),
                Lookup::Once(datum) => Ok(Some(datum)),
                Lookup::Repeated => Err(DecodeError::DuplicateField(name)),
            },
            _ => Err(DecodeError::Mismatch),
        }
    }
}

} // verus!
