//! The shape of a parsed configuration document: strings, integers,
//! booleans, arrays and tables. The `toml` crate parses the text; the
//! loader's logic reads only this tree.

use vstd::prelude::*;

verus! {

/// A configuration value. `Other` stands for the value kinds the loader
/// has no use for (floats and dates).
#[derive(Debug, PartialEq)]
pub enum TomlValue {
    String(String),
    Integer(i64),
    Boolean(bool),
    Array(Vec<TomlValue>),
    Table(Vec<(String, TomlValue)>),
    Other,
}

/// The first value under `key` in a table, or `None`.
pub open spec fn table_get(t: Seq<(String, TomlValue)>, key: Seq<char>) -> Option<TomlValue>
    decreases t.len(),
{
    if t.len() == 0 {
        None
    } else if t[0].0@ == key {
        Some(t[0].1)
    } else {
        table_get(t.drop_first(), key)
    }
}

/// The value under `key`, where `m` is a table that has one.
pub open spec fn toml_get(m: TomlValue, key: Seq<char>) -> Option<TomlValue> {
    match m {
        TomlValue::Table(t) => table_get(t@, key),
        _ => None,
    }
}

impl TomlValue {
    /// The value under `key`, where this value is a table that has one.
    pub fn get<'a>(&'a self, key: &str) -> (r: Option<&'a TomlValue>)
        ensures
            r matches Some(x) ==> toml_get(*self, key@) == Some(*x),
            r is None <==> toml_get(*self, key@) is None,
    {
        let t = match self {
            TomlValue::Table(t) => t,
            _ => {
                return None;
            },
        };
        let ghost whole = *self;
        let ghost tm = t@;
        let key_chars = crate::text::chars_of(key);
        let mut i: usize = 0;
        proof {
            assert(tm.skip(0) =~= tm);
        }
        while i < t.len()
            invariant
                i <= tm.len(),
                tm == t@,
                whole == *self,
                whole == TomlValue::Table(*t),
                key_chars@ == key@,
                toml_get(whole, key@) == table_get(tm.skip(i as int), key@),
            decreases tm.len() - i,
        {
            let name = crate::text::chars_of(t[i].0.as_str());
            proof {
                assert(tm.skip(i as int)[0] == tm[i as int]);
                assert(tm.skip(i as int).drop_first() =~= tm.skip(i + 1));
            }
            if crate::text::eq_chars(&name, &key_chars) {
                return Some(&t[i].1);
            }
            i = i + 1;
        }
        proof {
            assert(tm.skip(i as int) =~= Seq::<(String, TomlValue)>::empty());
        }
        None
    }

    /// The text of a string value.
    pub fn as_str(&self) -> (r: Option<&str>)
        ensures
            r matches Some(s) ==> (*self matches TomlValue::String(m) && m@ == s@),
            r is None <==> !(*self is String),
    {
        match self {
            TomlValue::String(s) => Some(s.as_str()),
            _ => None,
        }
    }

    /// The number of an integer value.
    pub fn as_integer(&self) -> (r: Option<i64>)
        ensures
            r matches Some(i) ==> *self == TomlValue::Integer(i),
            r is None <==> !(*self is Integer),
    {
        match self {
            TomlValue::Integer(i) => Some(*i),
            _ => None,
        }
    }

    /// The truth of a boolean value.
    pub fn as_bool(&self) -> (r: Option<bool>)
        ensures
            r matches Some(b) ==> *self == TomlValue::Boolean(b),
            r is None <==> !(*self is Boolean),
    {
        match self {
            TomlValue::Boolean(b) => Some(*b),
            _ => None,
        }
    }

    /// The elements of an array value.
    pub fn as_array<'a>(&'a self) -> (r: Option<&'a Vec<TomlValue>>)
        ensures
            r matches Some(a) ==> *self == TomlValue::Array(*a),
            r is None <==> !(*self is Array),
    {
        match self {
            TomlValue::Array(a) => Some(a),
            _ => None,
        }
    }

    /// Whether this value is a table.
    pub fn is_table(&self) -> (r: bool)
        ensures
            r == (*self is Table),
    {
        match self {
            TomlValue::Table(_) => true,
            _ => false,
        }
    }

    /// A value shaped like this one, for carrying in an error report.
    pub fn deep_clone(&self) -> (r: TomlValue)
        decreases *self,
    {
        match self {
            TomlValue::String(s) => TomlValue::String(s.clone()),
            TomlValue::Integer(i) => TomlValue::Integer(*i),
            TomlValue::Boolean(b) => TomlValue::Boolean(*b),
            TomlValue::Array(a) => {
                let mut out: Vec<TomlValue> = Vec::new();
                let mut i: usize = 0;
                while i < a.len()
                    invariant
                        i <= a@.len(),
                        *self is Array,
                        a == self->Array_0,
                    decreases a@.len() - i,
                {
                    proof {
                        assert(decreases_to!(*self => self->Array_0@[i as int]));
                    }
                    out.push(a[i].deep_clone());
                    i = i + 1;
                }
                TomlValue::Array(out)
            },
            TomlValue::Table(t) => {
                let mut out: Vec<(String, TomlValue)> = Vec::new();
                let mut i: usize = 0;
                while i < t.len()
                    invariant
                        i <= t@.len(),
                        *self is Table,
                        t == self->Table_0,
                    decreases t@.len() - i,
                {
                    proof {
                        assert(decreases_to!(*self => self->Table_0@[i as int].1));
                    }
                    let name = t[i].0.clone();
                    let value = t[i].1.deep_clone();
                    out.push((name, value));
                    i = i + 1;
                }
                TomlValue::Table(out)
            },
            TomlValue::Other => TomlValue::Other,
        }
    }
}

} // verus!
