//! JSON values, as settings are kept in them and the control channel speaks
//! them. Numbers are whole.

use crate::text;
use vstd::prelude::*;

verus! {

#[derive(Debug, PartialEq, Eq)]
pub enum Json {
    Null,
    Bool(bool),
    Num(i128),
    Str(String),
    Arr(Vec<Json>),
    /// The entries, in order; of several with one key, the first counts.
    Obj(Vec<(String, Json)>),
}

/// What a JSON value says.
pub enum Value {
    Null,
    Bool(bool),
    Num(int),
    Str(Seq<char>),
    Arr(Seq<Value>),
    Obj(Seq<Entry>),
}

/// What an entry of an object says.
pub struct Entry {
    pub key: Seq<char>,
    pub value: Value,
}

impl View for Json {
    type V = Value;

    open spec fn view(&self) -> Value
        decreases self,
    {
        match self {
            Json::Null => Value::Null,
            Json::Bool(b) => Value::Bool(*b),
            Json::Num(n) => Value::Num(*n as int),
            Json::Str(s) => Value::Str(s@),
            Json::Arr(v) => Value::Arr(
                Seq::new(
                    v@.len(),
                    |i: int|
                        if 0 <= i < v@.len() {
                            v@[i].view()
                        } else {
                            Value::Null
                        },
                ),
            ),
            Json::Obj(v) => Value::Obj(
                Seq::new(
                    v@.len(),
                    |i: int|
                        if 0 <= i < v@.len() {
                            Entry { key: v@[i].0@, value: v@[i].1.view() }
                        } else {
                            Entry { key: Seq::empty(), value: Value::Null }
                        },
                ),
            ),
        }
    }
}

pub open spec fn entry(key: Seq<char>, value: Value) -> Entry {
    Entry { key, value }
}

/// What the elements of an array say.
pub open spec fn values(v: Seq<Json>) -> Seq<Value> {
    v.map_values(|j: Json| j@)
}

/// What the entries of an object say.
pub open spec fn entries(v: Seq<(String, Json)>) -> Seq<Entry> {
    v.map_values(|e: (String, Json)| Entry { key: e.0@, value: e.1@ })
}

/// The first entry with this key, or the number of entries where there is none.
pub open spec fn entry_at(v: Seq<Entry>, key: Seq<char>) -> int
    decreases v.len(),
{
    if v.len() == 0 || v[0].key == key {
        0
    } else {
        1 + entry_at(v.skip(1), key)
    }
}

impl Value {
    /// What an object says under a key.
    pub open spec fn get(self, key: Seq<char>) -> Option<Value> {
        match self {
            Value::Obj(v) => if entry_at(v, key) < v.len() {
                Some(v[entry_at(v, key)].value)
            } else {
                None
            },
            _ => None,
        }
    }

    /// The text under a key.
    pub open spec fn text(self, key: Seq<char>) -> Option<Seq<char>> {
        match self.get(key) {
            Some(Value::Str(s)) => Some(s),
            _ => None,
        }
    }

    /// The truth value under a key.
    pub open spec fn flag(self, key: Seq<char>) -> Option<bool> {
        match self.get(key) {
            Some(Value::Bool(b)) => Some(b),
            _ => None,
        }
    }

    /// The number under a key.
    pub open spec fn number(self, key: Seq<char>) -> Option<int> {
        match self.get(key) {
            Some(Value::Num(n)) => Some(n),
            _ => None,
        }
    }
}

/// An object says what its entries say.
pub proof fn lemma_object(v: Vec<(String, Json)>)
    ensures
        Json::Obj(v)@ == Value::Obj(entries(v@)),
{
    let j = Json::Obj(v);
    assert(j@ is Obj);
    let r = j@->Obj_0;
    assert(r.len() == v@.len());
    assert forall|i: int| 0 <= i < v@.len() implies r[i] == entries(v@)[i] by {
        assert(r[i].key == v@[i].0@);
        assert(r[i].value == v@[i].1@);
    }
    assert(r =~= entries(v@));
}

impl Json {
    pub fn array(v: Vec<Json>) -> (r: Json)
        ensures
            r@ == Value::Arr(values(v@)),
    {
        let r = Json::Arr(v);
        assert(r@->Arr_0 =~= values(v@));
        r
    }

    pub fn object(v: Vec<(String, Json)>) -> (r: Json)
        ensures
            r@ == Value::Obj(entries(v@)),
    {
        proof {
            lemma_object(v);
        }
        Json::Obj(v)
    }

    pub fn text(s: &str) -> (r: Json)
        ensures
            r@ == Value::Str(s@),
    {
        Json::Str(s.to_string())
    }

    /// What stands under a key of an object.
    pub fn get(&self, key: &str) -> (r: Option<&Json>)
        ensures
            match r {
                Some(j) => self@.get(key@) == Some(j@),
                None => self@.get(key@) is None,
            },
    {
        match self {
            Json::Obj(v) => {
                let ghost all = entries(v@);
                proof {
                    lemma_object(*v);
                }
                let mut i: usize = 0;
                assert(all.skip(0) =~= all);
                while i < v.len()
                    invariant
                        i <= v@.len(),
                        all == entries(v@),
                        self@ == Value::Obj(all),
                        entry_at(all, key@) == i + entry_at(all.skip(i as int), key@),
                    decreases v@.len() - i,
                {
                    if text::same(v[i].0.as_str(), key) {
                        return Some(&v[i].1);
                    }
                    assert(all.skip(i as int)[0].key == v@[i as int].0@);
                    assert(all.skip(i as int).skip(1) =~= all.skip(i + 1));
                    i += 1;
                }
                None
            },
            _ => None,
        }
    }

    /// The text under a key.
    pub fn get_str(&self, key: &str) -> (r: Option<&String>)
        ensures
            match r {
                Some(s) => self@.text(key@) == Some(s@),
                None => self@.text(key@) is None,
            },
    {
        match self.get(key) {
            Some(Json::Str(s)) => Some(s),
            _ => None,
        }
    }

    /// The truth value under a key.
    pub fn get_bool(&self, key: &str) -> (r: Option<bool>)
        ensures
            r == self@.flag(key@),
    {
        match self.get(key) {
            Some(Json::Bool(b)) => Some(*b),
            _ => None,
        }
    }

    /// The number under a key.
    pub fn get_num(&self, key: &str) -> (r: Option<i128>)
        ensures
            match r {
                Some(n) => self@.number(key@) == Some(n as int),
                None => self@.number(key@) is None,
            },
    {
        match self.get(key) {
            Some(Json::Num(n)) => Some(*n),
            _ => None,
        }
    }
}

/// Appends an entry to an object under construction.
pub fn put(v: &mut Vec<(String, Json)>, key: &str, value: Json)
    ensures
        entries(final(v)@) == entries(old(v)@).push(entry(key@, value@)),
{
    v.push((key.to_string(), value));
    assert(entries(v@) =~= entries(old(v)@).push(entry(key@, value@)));
}

/// An object without entries, to put them in.
pub fn no_entries() -> (r: Vec<(String, Json)>)
    ensures
        entries(r@) == Seq::<Entry>::empty(),
{
    let r: Vec<(String, Json)> = Vec::new();
    assert(entries(r@) =~= Seq::<Entry>::empty());
    r
}

/// An entry at the end is found where no entry before it has its key.
pub proof fn lemma_entry_push(v: Seq<Entry>, e: Entry, key: Seq<char>)
    ensures
        entry_at(v, key) < v.len() ==> entry_at(v.push(e), key) == entry_at(v, key),
        entry_at(v, key) >= v.len() ==> entry_at(v.push(e), key) == (if e.key == key {
            v.len() as int
        } else {
            v.len() as int + 1
        }),
        0 <= entry_at(v, key) <= v.len(),
    decreases v.len(),
{
    reveal_with_fuel(entry_at, 2);
    if v.len() > 0 && v[0].key != key {
        lemma_entry_push(v.skip(1), e, key);
        assert(v.push(e).skip(1) =~= v.skip(1).push(e));
        assert(v.push(e)[0] == v[0]);
    } else if v.len() == 0 {
        assert(v.push(e)[0] == e);
        assert(v.push(e).skip(1).len() == 0);
    } else {
        assert(v.push(e)[0] == v[0]);
    }
}

}
