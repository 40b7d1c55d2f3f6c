//! JSON values as the client reads them.

use crate::effects::{field_is, lacks};
use crate::text::same_text;
use vstd::prelude::*;

verus! {

/// A JSON value, mathematically. A number is given by its text; an object maps
/// its keys to their values.
pub enum Tree {
    Null,
    Bool(bool),
    Number(Seq<char>),
    Text(Seq<char>),
    Array(Seq<Tree>),
    Object(Map<Seq<char>, Tree>),
}

impl Tree {
    /// The value under a key: there is one only in an object that has the key.
    pub open spec fn member(self, key: Seq<char>) -> Option<Tree> {
        match self {
            Tree::Object(fields) => if fields.contains_key(key) {
                Some(fields[key])
            } else {
                None
            },
            _ => None,
        }
    }

    /// The value under a key, `Null` where there is none.
    pub open spec fn at(self, key: Seq<char>) -> Tree {
        match self.member(key) {
            Some(value) => value,
            None => Tree::Null,
        }
    }

    /// The characters of a text; other values have none.
    pub open spec fn text(self) -> Option<Seq<char>> {
        match self {
            Tree::Text(s) => Some(s),
            _ => None,
        }
    }

    /// The elements of an array; other values have none.
    pub open spec fn items(self) -> Option<Seq<Tree>> {
        match self {
            Tree::Array(items) => Some(items),
            _ => None,
        }
    }
}

/// A JSON value. An object lists its fields in any order; where a key occurs
/// twice, the first field counts.
#[derive(Debug)]
pub enum Json {
    Null,
    Bool(bool),
    Number(String),
    Text(String),
    Array(Vec<Json>),
    Object(Vec<(String, Json)>),
}

/// The first field with the key stands at `i`.
pub open spec fn first_with_key(fields: Seq<(String, Json)>, key: Seq<char>, i: int) -> bool {
    &&& 0 <= i < fields.len()
    &&& fields[i].0@ == key
    &&& forall|j: int| 0 <= j < i ==> (#[trigger] fields[j]).0@ != key
}

/// Some field has the key.
pub open spec fn has_key(fields: Seq<(String, Json)>, key: Seq<char>) -> bool {
    exists|i: int| first_with_key(fields, key, i)
}

/// Where the first field with the key stands.
pub open spec fn key_index(fields: Seq<(String, Json)>, key: Seq<char>) -> int {
    choose|i: int| first_with_key(fields, key, i)
}

impl View for Json {
    type V = Tree;

    open spec fn view(&self) -> Tree {
        self.tree()
    }
}

impl Json {
    /// The value that this one stands for.
    pub open spec fn tree(self) -> Tree
        decreases self,
    {
        match self {
            Json::Null => Tree::Null,
            Json::Bool(b) => Tree::Bool(b),
            Json::Number(n) => Tree::Number(n@),
            Json::Text(s) => Tree::Text(s@),
            Json::Array(items) => Tree::Array(
                Seq::new(
                    items@.len(),
                    |i: int|
                        if 0 <= i < items@.len() {
                            items@[i].tree()
                        } else {
                            Tree::Null
                        },
                ),
            ),
            Json::Object(fields) => Tree::Object(
                Map::new(
                    |key: Seq<char>| has_key(fields@, key),
                    |key: Seq<char>|
                        {
                            let i = key_index(fields@, key);
                            if 0 <= i < fields@.len() {
                                fields@[i].1.tree()
                            } else {
                                Tree::Null
                            }
                        },
                ),
            ),
        }
    }

    /// The value under a key of an object.
    pub fn get(&self, key: &str) -> (found: Option<&Json>)
        ensures
            found is Some <==> self@.member(key@) is Some,
            found is Some ==> self@.member(key@) == Some(found->0@),
            found matches Some(value) ==> field_is(self@, key@, value@),
            found is None <==> lacks(self@, key@),
    {
        match self {
            Json::Object(fields) => {
                let mut i: usize = 0;
                while i < fields.len()
                    invariant
                        i <= fields.len(),
                        *self == Json::Object(*fields),
                        forall|j: int| 0 <= j < i ==> (#[trigger] fields@[j]).0@ != key@,
                    decreases fields.len() - i,
                {
                    if same_text(fields[i].0.as_str(), key) {
                        proof {
                            assert(first_with_key(fields@, key@, i as int));
                            let k = key_index(fields@, key@);
                            assert(first_with_key(fields@, key@, k));
                            assert(k == i) by {
                                if k < i {
                                    assert(fields@[k].0@ != key@);
                                }
                                if i < k {
                                    assert(fields@[i as int].0@ != key@);
                                }
                            }
                        }
                        return Some(&fields[i].1);
                    }
                    i = i + 1;
                }
                assert(!has_key(fields@, key@));
                None
            },
            _ => None,
        }
    }

    /// The characters of a text.
    pub fn as_str(&self) -> (found: Option<&str>)
        ensures
            found is Some <==> self@.text() is Some,
            found is Some ==> self@.text() == Some(found->0@),
            match self {
                Json::Text(s) => found matches Some(text) && text@ == s@,
                _ => found is None,
            },
    {
        match self {
            Json::Text(s) => Some(s.as_str()),
            _ => None,
        }
    }

    /// The elements of an array.
    pub fn as_array(&self) -> (found: Option<&Vec<Json>>)
        ensures
            found is Some <==> self@.items() is Some,
            found is Some ==> {
                &&& self@.items()->0.len() == found->0@.len()
                &&& forall|i: int|
                    0 <= i < found->0@.len() ==> #[trigger] self@.items()->0[i] == found->0@[i]@
            },
            match self {
                Json::Array(items) => found == Some(items),
                _ => found is None,
            },
    {
        match self {
            Json::Array(items) => Some(items),
            _ => None,
        }
    }
}

/// What an optional value stands for: a missing one for `Null`.
pub open spec fn tree_of(value: Option<&Json>) -> Tree {
    match value {
        Some(json) => json@,
        None => Tree::Null,
    }
}

/// Steps from a value, which may be missing, to the value under a key.
pub fn member_of<'a>(value: Option<&'a Json>, key: &str) -> (found: Option<&'a Json>)
    ensures
        tree_of(found) == tree_of(value).at(key@),
        found is Some <==> tree_of(value).member(key@) is Some,
{
    match value {
        Some(json) => json.get(key),
        None => None,
    }
}

/// The characters of a value, which may be missing.
pub fn text_of<'a>(value: Option<&'a Json>) -> (found: Option<&'a str>)
    ensures
        found is Some <==> tree_of(value).text() is Some,
        found is Some ==> tree_of(value).text() == Some(found->0@),
{
    match value {
        Some(json) => json.as_str(),
        None => None,
    }
}

} // verus!
