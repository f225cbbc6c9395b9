//! The runtime data model: the value under test is a scalar, an ordered
//! sequence, or a keyed record whose fields keep their declaration order.

use vstd::prelude::*;

verus! {

/// Mathematical model of a [`Value`]: the same shape over `Seq` instead of
/// `Vec` and `String`.
pub ghost enum ValueV {
    Null,
    Bool(bool),
    Int(i64),
    Str(Seq<char>),
    List(Seq<ValueV>),
    Record(Seq<(Seq<char>, ValueV)>),
}

/// A runtime value under evaluation: a scalar, an ordered sequence, or a
/// keyed record. Record fields keep the order in which they were set.
#[derive(Debug)]
pub enum Value {
    Null,
    Bool(bool),
    Int(i64),
    Str(String),
    List(Vec<Value>),
    Record(Vec<(String, Value)>),
}

/// The model of one runtime value.
pub open spec fn value_view(v: Value) -> ValueV
    decreases v, 0int, 0int,
    via value_view_dec
{
    match v {
        Value::Null => ValueV::Null,
        Value::Bool(b) => ValueV::Bool(b),
        Value::Int(n) => ValueV::Int(n),
        Value::Str(s) => ValueV::Str(s@),
        Value::List(items) => ValueV::List(value_list_view(items@, 0)),
        Value::Record(fields) => ValueV::Record(value_record_view(fields@, 0)),
    }
}

/// The models of the items of a sequence, from position `i` on.
pub open spec fn value_list_view(items: Seq<Value>, i: int) -> Seq<ValueV>
    decreases items, 1int, items.len() - i,
{
    if 0 <= i < items.len() {
        seq![value_view(items[i])] + value_list_view(items, i + 1)
    } else {
        Seq::empty()
    }
}

/// The models of the fields of a record, from position `i` on.
pub open spec fn value_record_view(fields: Seq<(String, Value)>, i: int) -> Seq<(Seq<char>, ValueV)>
    decreases fields, 1int, fields.len() - i,
{
    if 0 <= i < fields.len() {
        seq![(fields[i].0@, value_view(fields[i].1))] + value_record_view(fields, i + 1)
    } else {
        Seq::empty()
    }
}

#[via_fn]
proof fn value_view_dec(v: Value) {
    match v {
        Value::List(items) => {
            assert(decreases_to!(v => items));
            assert(decreases_to!(items => items@));
        },
        Value::Record(fields) => {
            assert(decreases_to!(v => fields));
            assert(decreases_to!(fields => fields@));
        },
        _ => {},
    }
}

impl View for Value {
    type V = ValueV;

    open spec fn view(&self) -> ValueV {
        value_view(*self)
    }
}

/// The indexed list view is the pointwise model of the tail of the sequence.
pub proof fn lemma_list_view(s: Seq<Value>, i: int)
    requires
        0 <= i <= s.len(),
    ensures
        value_list_view(s, i).len() == s.len() - i,
        forall|k: int| 0 <= k < s.len() - i ==> value_list_view(s, i)[k] == value_view(s[i + k]),
    decreases s.len() - i,
{
    if i < s.len() {
        lemma_list_view(s, i + 1);
    }
}

/// The indexed record view is the pointwise model of the tail of the fields.
pub proof fn lemma_record_view(s: Seq<(String, Value)>, i: int)
    requires
        0 <= i <= s.len(),
    ensures
        value_record_view(s, i).len() == s.len() - i,
        forall|k: int| 0 <= k < s.len() - i ==> value_record_view(s, i)[k] == (
            s[i + k].0@,
            value_view(s[i + k].1),
        ),
    decreases s.len() - i,
{
    if i < s.len() {
        lemma_record_view(s, i + 1);
    }
}

/// A value and its model are always the same kind of datum.
pub proof fn lemma_view_kind(v: Value)
    ensures
        (v is Null <==> value_view(v) is Null),
        (v is Bool <==> value_view(v) is Bool),
        (v is Int <==> value_view(v) is Int),
        (v is Str <==> value_view(v) is Str),
        (v is List <==> value_view(v) is List),
        (v is Record <==> value_view(v) is Record),
{
}

impl Clone for Value {
    fn clone(&self) -> (r: Self)
        ensures
            r@ == self@,
        decreases *self,
    {
        match self {
            Value::Null => Value::Null,
            Value::Bool(b) => Value::Bool(*b),
            Value::Int(n) => Value::Int(*n),
            Value::Str(s) => Value::Str(s.clone()),
            Value::List(items) => {
                let mut out: Vec<Value> = Vec::new();
                let mut i: usize = 0;
                while i < items.len()
                    invariant
                        i <= items.len(),
                        out@.len() == i as int,
                        forall|j: int| 0 <= j < i as int ==> value_view(out@[j]) == value_view(
                            items@[j],
                        ),
                    decreases items.len() - i,
                {
                    proof {
                        assert(decreases_to!(*self => *items));
                        assert(decreases_to!(*items => items@));
                        assert(decreases_to!(items@ => items@[i as int]));
                    }
                    let cloned = items[i].clone();
                    out.push(cloned);
                    i = i + 1;
                }
                proof {
                    lemma_list_view(out@, 0);
                    lemma_list_view(items@, 0);
                    assert(value_list_view(out@, 0) =~= value_list_view(items@, 0));
                }
                Value::List(out)
            },
            Value::Record(fields) => {
                let mut out: Vec<(String, Value)> = Vec::new();
                let mut i: usize = 0;
                while i < fields.len()
                    invariant
                        i <= fields.len(),
                        out@.len() == i as int,
                        forall|j: int| 0 <= j < i as int ==> out@[j].0@ == fields@[j].0@
                            && value_view(out@[j].1) == value_view(fields@[j].1),
                    decreases fields.len() - i,
                {
                    proof {
                        assert(decreases_to!(*self => *fields));
                        assert(decreases_to!(*fields => fields@));
                        assert(decreases_to!(fields@ => fields@[i as int]));
                        assert(decreases_to!(fields@[i as int] => fields@[i as int].1));
                    }
                    let entry = &fields[i];
                    let cloned = (entry.0.clone(), entry.1.clone());
                    out.push(cloned);
                    i = i + 1;
                }
                proof {
                    lemma_record_view(out@, 0);
                    lemma_record_view(fields@, 0);
                    assert(value_record_view(out@, 0) =~= value_record_view(fields@, 0));
                }
                Value::Record(out)
            },
        }
    }
}

impl Value {
    /// The string payload, where the value is a string.
    pub fn try_get_str(&self) -> (r: Option<&String>)
        ensures
            match r {
                Some(s) => self@ == ValueV::Str(s@),
                None => !(self@ is Str),
            },
    {
        match self {
            Value::Str(s) => Some(s),
            _ => None,
        }
    }

    /// Structural equality of two values under the model.
    pub fn value_eq(&self, other: &Value) -> (r: bool)
        ensures
            r == (self@ == other@),
        decreases *self,
    {
        proof {
            lemma_view_kind(*self);
            lemma_view_kind(*other);
        }
        match (self, other) {
            (Value::Null, Value::Null) => true,
            (Value::Bool(a), Value::Bool(b)) => a == b,
            (Value::Int(a), Value::Int(b)) => a == b,
            (Value::Str(a), Value::Str(b)) => a.eq(b),
            (Value::List(a), Value::List(b)) => {
                proof {
                    lemma_list_view(a@, 0);
                    lemma_list_view(b@, 0);
                }
                if a.len() != b.len() {
                    return false;
                }
                let mut i: usize = 0;
                while i < a.len()
                    invariant
                        i <= a.len(),
                        a@.len() == b@.len(),
                        value_list_view(a@, 0).len() == a@.len(),
                        value_list_view(b@, 0).len() == b@.len(),
                        forall|j: int| 0 <= j < a@.len() ==> value_list_view(a@, 0)[j]
                            == value_view(a@[j]),
                        forall|j: int| 0 <= j < b@.len() ==> value_list_view(b@, 0)[j]
                            == value_view(b@[j]),
                        forall|j: int| 0 <= j < i as int ==> value_view(a@[j]) == value_view(b@[j]),
                    decreases a.len() - i,
                {
                    proof {
                        assert(decreases_to!(*self => *a));
                        assert(decreases_to!(*a => a@));
                        assert(decreases_to!(a@ => a@[i as int]));
                    }
                    if !a[i].value_eq(&b[i]) {
                        proof {
                            let gi = i as int;
                            assert(value_list_view(a@, 0)[gi] != value_list_view(b@, 0)[gi]);
                        }
                        return false;
                    }
                    i = i + 1;
                }
                proof {
                    assert(value_list_view(a@, 0) =~= value_list_view(b@, 0));
                }
                true
            },
            (Value::Record(a), Value::Record(b)) => {
                proof {
                    lemma_record_view(a@, 0);
                    lemma_record_view(b@, 0);
                }
                if a.len() != b.len() {
                    return false;
                }
                let mut i: usize = 0;
                while i < a.len()
                    invariant
                        i <= a.len(),
                        a@.len() == b@.len(),
                        value_record_view(a@, 0).len() == a@.len(),
                        value_record_view(b@, 0).len() == b@.len(),
                        forall|j: int| 0 <= j < a@.len() ==> value_record_view(a@, 0)[j] == (
                            a@[j].0@,
                            value_view(a@[j].1),
                        ),
                        forall|j: int| 0 <= j < b@.len() ==> value_record_view(b@, 0)[j] == (
                            b@[j].0@,
                            value_view(b@[j].1),
                        ),
                        forall|j: int| 0 <= j < i as int ==> a@[j].0@ == b@[j].0@ && value_view(
                            a@[j].1,
                        ) == value_view(b@[j].1),
                    decreases a.len() - i,
                {
                    proof {
                        assert(decreases_to!(*self => *a));
                        assert(decreases_to!(*a => a@));
                        assert(decreases_to!(a@ => a@[i as int]));
                        assert(decreases_to!(a@[i as int] => a@[i as int].1));
                    }
                    let ka = &a[i].0;
                    let kb = &b[i].0;
                    if !ka.eq(kb) {
                        proof {
                            let gi = i as int;
                            assert(value_record_view(a@, 0)[gi] != value_record_view(b@, 0)[gi]);
                        }
                        return false;
                    }
                    if !a[i].1.value_eq(&b[i].1) {
                        proof {
                            let gi = i as int;
                            assert(value_record_view(a@, 0)[gi] != value_record_view(b@, 0)[gi]);
                        }
                        return false;
                    }
                    i = i + 1;
                }
                proof {
                    assert(value_record_view(a@, 0) =~= value_record_view(b@, 0));
                }
                true
            },
            _ => false,
        }
    }
}

} // verus!
