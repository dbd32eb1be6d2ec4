//! The JSON values that are signed and verified.
//!
//! A value is held as a tree. Its meaning is its [`JsonModel`], in which an
//! object is a map from member names to values: the order in which members
//! were written, and a member that a later one of the same name replaces,
//! are not part of it.

use vstd::prelude::*;

verus! {

/// A JSON value. Numbers are whole: a fraction has no canonical form.
#[derive(Debug, PartialEq, Eq)]
pub enum JsonValue {
    Null,
    Bool(bool),
    /// A number in the signed 64-bit range.
    Integer(i64),
    /// A number in the unsigned 64-bit range.
    Unsigned(u64),
    Text(String),
    Array(Vec<JsonValue>),
    /// The members in the order in which they were written. Of two members
    /// with one name the later one counts.
    Object(Vec<(String, JsonValue)>),
}

/// What a JSON value means.
pub enum JsonModel {
    Null,
    Bool(bool),
    /// A whole number.
    Number(int),
    /// A number that is not whole. No [`JsonValue`] means one; it is here
    /// for the values that other representations of JSON can hold.
    Fraction,
    Text(Seq<char>),
    Array(Seq<JsonModel>),
    Object(Map<Seq<char>, JsonModel>),
}

/// The meaning of the items of an array, in their order.
pub open spec fn array_model(items: Seq<JsonValue>) -> Seq<JsonModel>
    decreases items, 0nat,
{
    Seq::new(
        items.len(),
        |i: int|
            if 0 <= i < items.len() {
                items[i].model()
            } else {
                JsonModel::Null
            },
    )
}

/// The meaning of the members of an object: each name with the value of the
/// last member that carries it.
pub open spec fn object_model(members: Seq<(String, JsonValue)>) -> Map<Seq<char>, JsonModel>
    decreases members, 1nat,
{
    if members.len() == 0 {
        Map::empty()
    } else {
        object_model(members.drop_last()).insert(members.last().0@, members.last().1.model())
    }
}

impl JsonValue {
    /// What this value means.
    pub open spec fn model(&self) -> JsonModel
        decreases self, 0nat,
    {
        match self {
            JsonValue::Null => JsonModel::Null,
            JsonValue::Bool(b) => JsonModel::Bool(*b),
            JsonValue::Integer(n) => JsonModel::Number(*n as int),
            JsonValue::Unsigned(n) => JsonModel::Number(*n as int),
            JsonValue::Text(s) => JsonModel::Text(s@),
            JsonValue::Array(items) => JsonModel::Array(array_model(items@)),
            JsonValue::Object(members) => JsonModel::Object(object_model(members@)),
        }
    }
}

/// A name is bound in an object exactly if some member carries it.
pub proof fn lemma_object_model_domain(members: Seq<(String, JsonValue)>, name: Seq<char>)
    ensures
        object_model(members).contains_key(name) <==> exists|i: int|
            0 <= i < members.len() && (#[trigger] members[i]).0@ == name,
    decreases members.len(),
{
    if members.len() > 0 {
        let front = members.drop_last();
        lemma_object_model_domain(front, name);
        if object_model(members).contains_key(name) {
            if members.last().0@ == name {
                assert(members[members.len() - 1].0@ == name);
            } else {
                let i = choose|i: int| 0 <= i < front.len() && (#[trigger] front[i]).0@ == name;
                assert(members[i].0@ == name);
            }
        }
        if exists|i: int| 0 <= i < members.len() && (#[trigger] members[i]).0@ == name {
            let i = choose|i: int| 0 <= i < members.len() && (#[trigger] members[i]).0@ == name;
            if i < members.len() - 1 {
                assert(front[i].0@ == name);
            }
        }
    }
}

/// The value bound to a name is that of the last member that carries it.
pub proof fn lemma_object_model_last(members: Seq<(String, JsonValue)>, at: int)
    requires
        0 <= at < members.len(),
        forall|j: int| at < j < members.len() ==> (#[trigger] members[j]).0@ != members[at].0@,
    ensures
        object_model(members).contains_key(members[at].0@),
        object_model(members)[members[at].0@] == members[at].1.model(),
    decreases members.len(),
{
    if at < members.len() - 1 {
        let front = members.drop_last();
        assert(members[members.len() - 1].0@ != members[at].0@);
        assert forall|j: int| at < j < front.len() implies (#[trigger] front[j]).0@
            != front[at].0@ by {
            assert(members[j].0@ != members[at].0@);
        }
        lemma_object_model_last(front, at);
    }
}

/// Two lists of members that agree member by member, in name and in meaning,
/// mean the same object.
pub proof fn lemma_object_model_pointwise(
    a: Seq<(String, JsonValue)>,
    b: Seq<(String, JsonValue)>,
)
    requires
        a.len() == b.len(),
        forall|i: int|
            0 <= i < a.len() ==> (#[trigger] a[i]).0@ == b[i].0@ && a[i].1.model()
                == b[i].1.model(),
    ensures
        object_model(a) == object_model(b),
    decreases a.len(),
{
    if a.len() > 0 {
        assert(a[a.len() - 1].0@ == b[a.len() - 1].0@);
        assert forall|i: int| 0 <= i < a.drop_last().len() implies (#[trigger] a.drop_last()[i]).0@
            == b.drop_last()[i].0@ && a.drop_last()[i].1.model() == b.drop_last()[i].1.model() by {
            assert(a[i].0@ == b[i].0@);
        }
        lemma_object_model_pointwise(a.drop_last(), b.drop_last());
    }
}

impl JsonValue {
    /// Whether this value is an object.
    pub fn is_object(&self) -> (r: bool)
        ensures
            r == (self.model() is Object),
    {
        match self {
            JsonValue::Object(_) => true,
            _ => false,
        }
    }

    /// The text that this value holds, if it is a text.
    pub fn as_text(&self) -> (r: Option<&String>)
        ensures
            match self.model() {
                JsonModel::Text(t) => r matches Some(s) && s@ == t,
                _ => r is None,
            },
    {
        match self {
            JsonValue::Text(s) => Some(s),
            _ => None,
        }
    }

    /// The member of this object that is bound to `name`: `None` where this
    /// is no object or the object binds no such name.
    pub fn get(&self, name: &str) -> (r: Option<&JsonValue>)
        ensures
            match self.model() {
                JsonModel::Object(m) => if m.contains_key(name@) {
                    r matches Some(v) && v.model() == m[name@]
                } else {
                    r is None
                },
                _ => r is None,
            },
    {
        match self {
            JsonValue::Object(members) => {
                let wanted: String = name.to_owned();
                let mut i: usize = members.len();
                while i > 0
                    invariant
                        i <= members.len(),
                        wanted@ == name@,
                        self.model() == JsonModel::Object(object_model(members@)),
                        forall|j: int|
                            i <= j < members.len() ==> (#[trigger] members@[j]).0@ != name@,
                    decreases i,
                {
                    i = i - 1;
                    if members[i].0 == wanted {
                        proof {
                            lemma_object_model_last(members@, i as int);
                        }
                        return Some(&members[i].1);
                    }
                }
                proof {
                    lemma_object_model_domain(members@, name@);
                }
                None
            },
            _ => None,
        }
    }
}

impl Clone for JsonValue {
    /// A copy that means the same value.
    fn clone(&self) -> (r: Self)
        ensures
            r.model() == self.model(),
        decreases self,
    {
        match self {
            JsonValue::Null => JsonValue::Null,
            JsonValue::Bool(b) => JsonValue::Bool(*b),
            JsonValue::Integer(n) => JsonValue::Integer(*n),
            JsonValue::Unsigned(n) => JsonValue::Unsigned(*n),
            JsonValue::Text(s) => JsonValue::Text(s.clone()),
            JsonValue::Array(items) => {
                let mut copy: Vec<JsonValue> = Vec::new();
                let mut i: usize = 0;
                while i < items.len()
                    invariant
                        i <= items.len(),
                        copy.len() == i,
                        decreases_to!(*self => *items),
                        forall|j: int| 0 <= j < i ==> (#[trigger] copy@[j]).model() == items@[j].model(),
                    decreases items.len() - i,
                {
                    assert(decreases_to!(*items => items[i as int]));
                    let item = items[i].clone();
                    copy.push(item);
                    i = i + 1;
                }
                assert(array_model(copy@) =~= array_model(items@));
                JsonValue::Array(copy)
            },
            JsonValue::Object(members) => {
                let mut copy: Vec<(String, JsonValue)> = Vec::new();
                let mut i: usize = 0;
                while i < members.len()
                    invariant
                        i <= members.len(),
                        copy.len() == i,
                        decreases_to!(*self => *members),
                        forall|j: int|
                            0 <= j < i ==> (#[trigger] copy@[j]).0@ == members@[j].0@
                                && copy@[j].1.model() == members@[j].1.model(),
                    decreases members.len() - i,
                {
                    assert(decreases_to!(*members => members[i as int]));
                    let name = members[i].0.clone();
                    let value = members[i].1.clone();
                    copy.push((name, value));
                    i = i + 1;
                }
                proof {
                    lemma_object_model_pointwise(copy@, members@);
                }
                JsonValue::Object(copy)
            },
        }
    }
}

impl JsonValue {
    /// A copy of this object without the member bound to `name`. A value
    /// that is no object is copied as it is.
    pub fn without(&self, name: &str) -> (r: JsonValue)
        ensures
            r.model() == match self.model() {
                JsonModel::Object(m) => JsonModel::Object(m.remove(name@)),
                other => other,
            },
    {
        match self {
            JsonValue::Object(members) => {
                let unwanted: String = name.to_owned();
                let mut kept: Vec<(String, JsonValue)> = Vec::new();
                let mut i: usize = 0;
                while i < members.len()
                    invariant
                        i <= members.len(),
                        unwanted@ == name@,
                        object_model(kept@) == object_model(members@.take(i as int)).remove(name@),
                    decreases members.len() - i,
                {
                    proof {
                        assert(members@.take(i + 1).drop_last() =~= members@.take(i as int));
                    }
                    if members[i].0 == unwanted {
                        assert(object_model(members@.take(i + 1)).remove(name@) =~= object_model(
                            members@.take(i as int),
                        ).remove(name@));
                    } else {
                        let member_name = members[i].0.clone();
                        let value = members[i].1.clone();
                        let ghost before = kept@;
                        kept.push((member_name, value));
                        proof {
                            assert(kept@.drop_last() =~= before);
                            assert(object_model(members@.take(i + 1)).remove(name@)
                                =~= object_model(kept@));
                        }
                    }
                    i = i + 1;
                }
                assert(members@.take(members.len() as int) =~= members@);
                JsonValue::Object(kept)
            },
            _ => self.clone(),
        }
    }
}

} // verus!
