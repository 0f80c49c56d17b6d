//! A JSON document as plain values, and the lookups the reply
//! interpretation performs on it.

use vstd::prelude::*;

verus! {

/// A JSON value. Numbers keep their textual form: nothing here reads them.
#[derive(Debug)]
pub enum Json {
    Null,
    Bool(bool),
    Number(String),
    Str(String),
    Array(Vec<Json>),
    Object(Vec<(String, Json)>),
}

/// The elements of `j` when it is an array.
pub open spec fn items(j: Json) -> Option<Seq<Json>> {
    match j {
        Json::Array(v) => Some(v@),
        _ => None,
    }
}

/// The text of `j` when it is a string.
pub open spec fn text(j: Json) -> Option<Seq<char>> {
    match j {
        Json::Str(s) => Some(s@),
        _ => None,
    }
}

/// Element `i` of `j` when `j` is an array that long (`Value::get` with an index).
pub open spec fn element(j: Json, i: int) -> Option<Json> {
    match j {
        Json::Array(v) => if 0 <= i < v@.len() {
            Some(v@[i])
        } else {
            None
        },
        _ => None,
    }
}

/// Element `i` of an optional value: absent when the value is.
pub open spec fn element_of(j: Option<Json>, i: int) -> Option<Json> {
    match j {
        Some(v) => element(v, i),
        None => None,
    }
}

/// The text of an optional value.
pub open spec fn text_of(j: Option<Json>) -> Option<Seq<char>> {
    match j {
        Some(v) => text(v),
        None => None,
    }
}

/// The elements of an optional value.
pub open spec fn items_of(j: Option<Json>) -> Option<Seq<Json>> {
    match j {
        Some(v) => items(v),
        None => None,
    }
}

impl Json {
    /// Element `i` when `self` is an array that long.
    pub fn get(&self, i: usize) -> (r: Option<&Json>)
        ensures
            match r {
                Some(x) => element(*self, i as int) == Some(*x),
                None => element(*self, i as int) is None,
            },
    {
        match self {
            Json::Array(v) => {
                if i < v.len() {
                    Some(&v[i])
                } else {
                    None
                }
            },
            _ => None,
        }
    }

    /// The elements when `self` is an array.
    pub fn as_array(&self) -> (r: Option<&Vec<Json>>)
        ensures
            match r {
                Some(v) => items(*self) == Some(v@),
                None => items(*self) is None,
            },
    {
        match self {
            Json::Array(v) => Some(v),
            _ => None,
        }
    }

    /// The text when `self` is a string.
    pub fn as_str(&self) -> (r: Option<&str>)
        ensures
            match r {
                Some(s) => text(*self) == Some(s@),
                None => text(*self) is None,
            },
    {
        match self {
            Json::Str(s) => Some(s.as_str()),
            _ => None,
        }
    }
}

} // verus!
