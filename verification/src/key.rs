//! Sharding-key bindings: the values a predicate equates with a routing
//! column, and the qualified column references they are attached to.

use vstd::prelude::*;

verus! {

/// A qualified column reference.
#[derive(Debug, Clone, PartialEq, Eq)]
pub struct Column {
    /// Table name when fully qualified; can be an alias.
    pub table: Option<String>,
    /// Column name.
    pub name: String,
}

/// Spec-level form of a column reference.
pub struct ColumnModel {
    pub table: Option<Seq<char>>,
    pub name: Seq<char>,
}

impl View for Column {
    type V = ColumnModel;

    open spec fn view(&self) -> ColumnModel {
        ColumnModel {
            table: match self.table {
                Some(t) => Some(t@),
                None => None,
            },
            name: self.name@,
        }
    }
}

/// A value that may route a statement: a constant in string form, a 0-indexed
/// position into the statement's bound-parameter vector, or the sentinel of
/// an `IS NULL` test. The `array` flag marks a value that denotes a set of
/// routing values (`IN` / `= ANY`), not a single one.
#[derive(Debug, Clone, PartialEq, Eq)]
pub enum Key {
    Constant { value: String, array: bool },
    Parameter { pos: usize, array: bool },
    Null,
}

/// Spec-level form of a key binding.
pub enum KeyModel {
    Constant { value: Seq<char>, array: bool },
    Parameter { pos: int, array: bool },
    Null,
}

impl View for Key {
    type V = KeyModel;

    open spec fn view(&self) -> KeyModel {
        match *self {
            Key::Constant { ref value, array } => KeyModel::Constant { value: value@, array },
            Key::Parameter { pos, array } => KeyModel::Parameter { pos: pos as int, array },
            Key::Null => KeyModel::Null,
        }
    }
}

/// Element-wise model of a key list.
pub open spec fn keys_model(s: Seq<Key>) -> Seq<KeyModel> {
    s.map_values(|k: Key| k@)
}

/// Model of an optional key.
pub open spec fn key_opt_model(o: Option<Key>) -> Option<KeyModel> {
    match o {
        Some(k) => Some(k@),
        None => None,
    }
}

pub proof fn lemma_keys_model_push(s: Seq<Key>, k: Key)
    ensures
        keys_model(s.push(k)) == keys_model(s).push(k@),
{
    assert(keys_model(s.push(k)) =~= keys_model(s).push(k@));
}

pub proof fn lemma_keys_model_concat(a: Seq<Key>, b: Seq<Key>)
    ensures
        keys_model(a + b) == keys_model(a) + keys_model(b),
{
    assert(keys_model(a + b) =~= keys_model(a) + keys_model(b));
}

} // verus!
