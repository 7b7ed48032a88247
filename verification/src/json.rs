//! JSON values.
use crate::text;
use vstd::prelude::*;

verus! {

/// A JSON value.
#[derive(Debug, PartialEq, Eq)]
pub enum Json {
    Null,
    Bool(bool),
    /// A number, as it is written
    Number(String),
    Text(String),
    Array(Vec<Json>),
    /// The members of an object, each with its key
    Object(Vec<(String, Json)>),
}

/// A JSON value, in terms of its text.
pub enum Value {
    Null,
    Bool(bool),
    Number(Seq<char>),
    Text(Seq<char>),
    Array(Seq<Value>),
    Object(Seq<(Seq<char>, Value)>),
}

/// Whether no object in `value`, at any depth, has two members with the same key.
pub open spec fn well_formed(value: Value) -> bool
    decreases value,
{
    match value {
        Value::Array(elements) => forall|i: int|
            0 <= i < elements.len() ==> well_formed(#[trigger] elements[i]),
        Value::Object(members) => {
            &&& forall|i: int, j: int|
                0 <= i < j < members.len() ==> (#[trigger] members[i]).0 != (
                #[trigger] members[j]).0
            &&& forall|i: int| 0 <= i < members.len() ==> well_formed((#[trigger] members[i]).1)
        },
        _ => true,
    }
}

/// The first of the members from position `i` on that has the given key.
pub open spec fn member_from(members: Seq<(Seq<char>, Value)>, key: Seq<char>, i: nat) -> Option<
    Value,
>
    decreases members.len() - i,
{
    if i >= members.len() {
        None
    } else if members[i as int].0 == key {
        Some(members[i as int].1)
    } else {
        member_from(members, key, i + 1)
    }
}

/// The member of an object with the given key. A value of another kind has none.
pub open spec fn member(value: Value, key: Seq<char>) -> Option<Value> {
    match value {
        Value::Object(members) => member_from(members, key, 0),
        _ => None,
    }
}

/// The text of a value that is a text.
pub open spec fn text_in(value: Value) -> Option<Seq<char>> {
    match value {
        Value::Text(s) => Some(s),
        _ => None,
    }
}

/// The texts of a value that is an array of nothing but texts.
pub open spec fn texts_in(value: Value) -> Option<Seq<Seq<char>>> {
    match value {
        Value::Array(elements) => if forall|i: int|
            0 <= i < elements.len() ==> (#[trigger] elements[i]) is Text {
            Some(elements.map_values(|e: Value| e->Text_0))
        } else {
            None
        },
        _ => None,
    }
}

/// An object without members.
pub open spec fn empty_object() -> Value {
    Value::Object(Seq::empty())
}

impl Json {
    /// This value, in terms of its text.
    pub open spec fn value(self) -> Value
        decreases self,
    {
        match self {
            Json::Null => Value::Null,
            Json::Bool(b) => Value::Bool(b),
            Json::Number(n) => Value::Number(n@),
            Json::Text(s) => Value::Text(s@),
            Json::Array(elements) => Value::Array(
                Seq::new(
                    elements@.len(),
                    |i: int|
                        if 0 <= i < elements@.len() {
                            elements@[i].value()
                        } else {
                            Value::Null
                        },
                ),
            ),
            Json::Object(members) => Value::Object(
                Seq::new(
                    members@.len(),
                    |i: int|
                        if 0 <= i < members@.len() {
                            (members@[i].0@, members@[i].1.value())
                        } else {
                            (Seq::empty(), Value::Null)
                        },
                ),
            ),
        }
    }

    /// An object without members.
    pub fn empty_object() -> (r: Self)
        ensures
            r@ == empty_object(),
    {
        let r = Json::Object(Vec::new());
        assert(r@->Object_0 =~= Seq::empty());
        r
    }

    /// The member of an object with the given key.
    pub fn get(&self, key: &str) -> (r: Option<&Json>)
        ensures
            match r {
                Some(value) => member(self@, key@) == Some(value@),
                None => member(self@, key@) is None,
            },
    {
        let members = match self {
            Json::Object(members) => members,
            _ => return None,
        };
        let ghost all = self@->Object_0;
        let mut i: usize = 0;
        while i < members.len()
            invariant
                i <= members@.len(),
                *self == Json::Object(*members),
                all == self@->Object_0,
                member(self@, key@) == member_from(all, key@, i as nat),
            decreases members@.len() - i,
        {
            assert(all[i as int] == (members@[i as int].0@, members@[i as int].1@));
            if text::same(members[i].0.as_str(), key) {
                return Some(&members[i].1);
            }
            i = i + 1;
        }
        None
    }

    /// The text of a value that is a text.
    pub fn as_text(&self) -> (r: Option<&str>)
        ensures
            text::optional(r) == text_in(self@),
    {
        match self {
            Json::Text(s) => Some(s.as_str()),
            _ => None,
        }
    }

    /// The texts of a value that is an array of nothing but texts.
    pub fn as_texts(&self) -> (r: Option<Vec<String>>)
        ensures
            match r {
                Some(strings) => texts_in(self@) == Some(text::texts(strings@)),
                None => texts_in(self@) is None,
            },
    {
        let elements = match self {
            Json::Array(elements) => elements,
            _ => return None,
        };
        let ghost all = self@->Array_0;
        let mut strings: Vec<String> = Vec::new();
        let mut i: usize = 0;
        while i < elements.len()
            invariant
                i <= elements@.len(),
                *self == Json::Array(*elements),
                all == self@->Array_0,
                strings@.len() == i,
                forall|j: int|
                    0 <= j < i ==> (#[trigger] all[j]) is Text && strings@[j]@ == all[j]->Text_0,
            decreases elements@.len() - i,
        {
            assert(all[i as int] == elements@[i as int]@);
            match &elements[i] {
                Json::Text(s) => strings.push(s.clone()),
                _ => return None,
            }
            i = i + 1;
        }
        assert(text::texts(strings@) =~= all.map_values(|e: Value| e->Text_0));
        Some(strings)
    }

    /// Whether this is `null` or an object without members.
    pub fn is_void(&self) -> (r: bool)
        ensures
            r == (self@ == Value::Null || self@ == empty_object()),
    {
        match self {
            Json::Null => true,
            Json::Object(members) => {
                assert(self@->Object_0.len() == members@.len());
                assert(members@.len() == 0 ==> self@->Object_0 =~= Seq::empty());
                members.is_empty()
            },
            _ => false,
        }
    }
}

impl View for Json {
    type V = Value;

    open spec fn view(&self) -> Value {
        self.value()
    }
}

impl Clone for Json {
    fn clone(&self) -> (r: Self)
        ensures
            r@ == self@,
        decreases self,
    {
        match self {
            Json::Null => Json::Null,
            Json::Bool(b) => Json::Bool(*b),
            Json::Number(n) => Json::Number(n.clone()),
            Json::Text(s) => Json::Text(s.clone()),
            Json::Array(elements) => {
                let mut copies: Vec<Json> = Vec::new();
                let mut i: usize = 0;
                while i < elements.len()
                    invariant
                        i <= elements@.len(),
                        copies@.len() == i,
                        *self == Json::Array(*elements),
                        forall|j: int| 0 <= j < i ==> (#[trigger] copies@[j])@ == elements@[j]@,
                    decreases elements@.len() - i,
                {
                    assert(decreases_to!(*self => self->Array_0));
                    assert(decreases_to!(*elements => elements@));
                    assert(decreases_to!(elements@ => elements@[i as int]));
                    copies.push(elements[i].clone());
                    i = i + 1;
                }
                let r = Json::Array(copies);
                assert(r@->Array_0 =~= self@->Array_0);
                r
            },
            Json::Object(members) => {
                let mut copies: Vec<(String, Json)> = Vec::new();
                let mut i: usize = 0;
                while i < members.len()
                    invariant
                        i <= members@.len(),
                        copies@.len() == i,
                        *self == Json::Object(*members),
                        forall|j: int|
                            0 <= j < i ==> (#[trigger] copies@[j]).0@ == members@[j].0@
                                && copies@[j].1@ == members@[j].1@,
                    decreases members@.len() - i,
                {
                    let member = &members[i];
                    assert(decreases_to!(*self => self->Object_0));
                    assert(decreases_to!(*members => members@));
                    assert(decreases_to!(members@ => members@[i as int]));
                    assert(decreases_to!(members@[i as int] => members@[i as int].1));
                    copies.push((member.0.clone(), member.1.clone()));
                    i = i + 1;
                }
                let r = Json::Object(copies);
                assert(r@->Object_0 =~= self@->Object_0);
                r
            },
        }
    }
}

// ---------------------------------------------------------------------------
// Text that spells a value
// ---------------------------------------------------------------------------

/// Whether a text spells a JSON value, as `serde_json` reads it.
pub uninterp spec fn is_json(s: Seq<char>) -> bool;

/// `serde_json::from_str` reads the text as a JSON value, or fails where it
/// spells none. Whether it fails is a function of the text.
#[verifier::external_body]
pub(crate) fn spells_json(s: &str) -> (r: bool)
    ensures
        r == is_json(s@),
{
    serde_json::from_str::<serde_json::Value>(s).is_ok()
}

// ---------------------------------------------------------------------------
// Laws
// ---------------------------------------------------------------------------

proof fn lemma_member_from(members: Seq<(Seq<char>, Value)>, key: Seq<char>, i: nat)
    ensures
        match member_from(members, key, i) {
            Some(value) => exists|k: int|
                i <= k < members.len() && (#[trigger] members[k]).0 == key && members[k].1 == value,
            None => forall|k: int| i <= k < members.len() ==> (#[trigger] members[k]).0 != key,
        },
    decreases members.len() - i,
{
    if i < members.len() {
        if members[i as int].0 == key {
            assert(members[i as int].1 == member_from(members, key, i)->0);
        } else {
            lemma_member_from(members, key, i + 1);
        }
    }
}

/// In a well-formed object, a key leads to the one member that has it, and to
/// nothing where none has it.
pub proof fn law_member_is_the_only_one(
    members: Seq<(Seq<char>, Value)>,
    key: Seq<char>,
    value: Value,
)
    requires
        well_formed(Value::Object(members)),
    ensures
        member(Value::Object(members), key) == Some(value) <==> members.contains((key, value)),
{
    lemma_member_from(members, key, 0);
    if members.contains((key, value)) {
        let k = members.index_of((key, value));
        assert(members[k].0 == key);
        let found = member_from(members, key, 0)->0;
        let j = choose|j: int|
            0 <= j < members.len() && (#[trigger] members[j]).0 == key && members[j].1 == found;
        assert(members[j].0 == members[k].0);
    }
    if member(Value::Object(members), key) == Some(value) {
        let j = choose|j: int|
            0 <= j < members.len() && (#[trigger] members[j]).0 == key && members[j].1 == value;
        assert(members[j] == (key, value));
    }
}

/// A member of a well-formed value is well-formed.
pub proof fn law_member_is_well_formed(value: Value, key: Seq<char>)
    requires
        well_formed(value),
    ensures
        member(value, key) matches Some(found) ==> well_formed(found),
{
    if let Value::Object(members) = value {
        lemma_member_from(members, key, 0);
    }
}

/// The first member with a key is the one that the key leads to.
pub proof fn law_first_member_with_the_key_counts(
    before: Seq<(Seq<char>, Value)>,
    key: Seq<char>,
    value: Value,
    after: Seq<(Seq<char>, Value)>,
)
    requires
        forall|k: int| 0 <= k < before.len() ==> (#[trigger] before[k]).0 != key,
    ensures
        member(Value::Object(before + seq![(key, value)] + after), key) == Some(value),
{
    lemma_first_member(before + seq![(key, value)] + after, key, before.len(), 0);
}

proof fn lemma_first_member(
    members: Seq<(Seq<char>, Value)>,
    key: Seq<char>,
    k: nat,
    i: nat,
)
    requires
        i <= k < members.len(),
        members[k as int].0 == key,
        forall|j: int| 0 <= j < k ==> (#[trigger] members[j]).0 != key,
    ensures
        member_from(members, key, i) == Some(members[k as int].1),
    decreases k - i,
{
    if i < k {
        lemma_first_member(members, key, k, i + 1);
    }
}

/// A key leads to nothing exactly where no member has it, and in a value that
/// is no object.
pub proof fn law_key_leads_to_nothing_iff(value: Value, key: Seq<char>)
    ensures
        member(value, key) is None <==> (value matches Value::Object(members) ==> forall|k: int|
            0 <= k < members.len() ==> (#[trigger] members[k]).0 != key),
{
    if let Value::Object(members) = value {
        lemma_member_from(members, key, 0);
    }
}

/// Only a text has a text, and it is that one.
pub proof fn law_text_in_iff(value: Value, s: Seq<char>)
    ensures
        text_in(value) == Some(s) <==> value == Value::Text(s),
{
}

/// Only an array of texts has texts, and they are those, in their order.
pub proof fn law_texts_in_iff(value: Value, texts: Seq<Seq<char>>)
    ensures
        texts_in(value) == Some(texts) <==> value == Value::Array(
            Seq::new(texts.len(), |i: int| Value::Text(texts[i])),
        ),
{
    let elements = Seq::new(texts.len(), |i: int| Value::Text(texts[i]));
    if texts_in(value) == Some(texts) {
        assert(value->Array_0 =~= elements);
    }
    if value == Value::Array(elements) {
        assert(elements.map_values(|e: Value| e->Text_0) =~= texts);
    }
}

/// A value says all that it holds: what kind it is, and its parts in their
/// order.
pub proof fn law_value_tells_all(json: Json, i: int)
    ensures
        json is Null <==> json@ == Value::Null,
        json matches Json::Bool(b) ==> json@ == Value::Bool(b),
        json matches Json::Number(n) ==> json@ == Value::Number(n@),
        json matches Json::Text(s) ==> json@ == Value::Text(s@),
        json matches Json::Array(elements) ==> (json@ matches Value::Array(values)
            && values.len() == elements@.len() && (0 <= i < elements@.len() ==> values[i]
            == elements@[i]@)),
        json matches Json::Object(members) ==> (json@ matches Value::Object(values)
            && values.len() == members@.len() && (0 <= i < members@.len() ==> values[i] == (
            members@[i].0@,
            members@[i].1@,
        ))),
{
}

} // verus!
