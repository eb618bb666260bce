//! Table cells and rows: the values the virtual tables hand to the SQL engine.
//!
//! A [`Cell`] stands for a GlueSQL `Value` of the kinds these tables produce; a
//! [`Row`] stands for a `DataRow::Map`, a map from column name to cell.
use vstd::prelude::*;
use crate::json::{Json, JsonV};
use crate::text::str_eq;

verus! {

broadcast use vstd::std_specs::vec::group_vec_axioms;

/// A cell value. `F64` carries the bits of an `f64`; `Object` is a map value.
#[derive(Debug, PartialEq)]
pub enum Cell {
    Null,
    Bool(bool),
    I64(i64),
    F64(u64),
    Str(String),
    List(Vec<Cell>),
    Object(Vec<(String, Cell)>),
}

/// The mathematical value of a [`Cell`]; map entries keep their order.
pub enum CellV {
    Null,
    Bool(bool),
    I64(i64),
    F64(u64),
    Str(Seq<char>),
    List(Seq<CellV>),
    Object(Seq<(Seq<char>, CellV)>),
}

pub open spec fn cell_view(c: Cell) -> CellV
    decreases c,
{
    match c {
        Cell::Null => CellV::Null,
        Cell::Bool(b) => CellV::Bool(b),
        Cell::I64(i) => CellV::I64(i),
        Cell::F64(bits) => CellV::F64(bits),
        Cell::Str(s) => CellV::Str(s@),
        Cell::List(items) => CellV::List(
            Seq::new(
                items@.len(),
                |i: int|
                    if 0 <= i < items@.len() {
                        proof {
                            assert(decreases_to!(items => items@));
                            assert(decreases_to!(items@ => items@[i]));
                        }
                        cell_view(items@[i])
                    } else {
                        CellV::Null
                    },
            ),
        ),
        Cell::Object(entries) => CellV::Object(
            Seq::new(
                entries@.len(),
                |i: int|
                    if 0 <= i < entries@.len() {
                        proof {
                            assert(decreases_to!(entries => entries@));
                            assert(decreases_to!(entries@ => entries@[i]));
                            assert(decreases_to!(entries@[i] => entries@[i].1));
                        }
                        (entries@[i].0@, cell_view(entries@[i].1))
                    } else {
                        (Seq::empty(), CellV::Null)
                    },
            ),
        ),
    }
}

impl View for Cell {
    type V = CellV;

    open spec fn view(&self) -> CellV {
        cell_view(*self)
    }
}

/// The cell a JSON value becomes: objects become maps and arrays lists, member
/// by member; integers become `I64`, other numbers `F64`.
pub open spec fn glue_of(j: JsonV) -> CellV
    decreases j,
{
    match j {
        JsonV::Null => CellV::Null,
        JsonV::Bool(b) => CellV::Bool(b),
        JsonV::Int(i) => CellV::I64(i),
        JsonV::Float(bits, _) => CellV::F64(bits),
        JsonV::Str(s) => CellV::Str(s),
        JsonV::Array(items) => CellV::List(
            Seq::new(
                items.len(),
                |i: int|
                    if 0 <= i < items.len() {
                        proof {
                            assert(decreases_to!(items => items[i]));
                        }
                        glue_of(items[i])
                    } else {
                        CellV::Null
                    },
            ),
        ),
        JsonV::Object(fields) => CellV::Object(
            Seq::new(
                fields.len(),
                |i: int|
                    if 0 <= i < fields.len() {
                        proof {
                            assert(decreases_to!(fields => fields[i]));
                            assert(decreases_to!(fields[i] => fields[i].1));
                        }
                        (fields[i].0, glue_of(fields[i].1))
                    } else {
                        (Seq::empty(), CellV::Null)
                    },
            ),
        ),
    }
}

/// Converts a JSON value into a cell.
pub fn json_value_to_glue_value(j: &Json) -> (c: Cell)
    ensures
        c@ == glue_of(j@),
        *j matches Json::Bool(b) ==> c == Cell::Bool(b),
        *j matches Json::Null ==> c == Cell::Null,
        *j matches Json::Int(i) ==> c == Cell::I64(i),
        *j matches Json::Float(bits, _) ==> c == Cell::F64(bits),
        *j matches Json::Str(t) ==> c matches Cell::Str(u) && u@ == t@,
    decreases j,
{
    match j {
        Json::Null => Cell::Null,
        Json::Bool(b) => Cell::Bool(*b),
        Json::Int(i) => Cell::I64(*i),
        Json::Float(bits, _) => Cell::F64(*bits),
        Json::Str(s) => Cell::Str(s.clone()),
        Json::Array(items) => {
            let mut out: Vec<Cell> = Vec::new();
            let mut i: usize = 0;
            while i < items.len()
                invariant
                    *j == Json::Array(*items),
                    i <= items@.len(),
                    out@.len() == i,
                    forall|k: int| 0 <= k < i ==> (#[trigger] out@[k])@ == glue_of(items@[k]@),
                decreases items.len() - i,
            {
                proof {
                    assert(decreases_to!(*j => j->Array_0));
                    assert(decreases_to!(*items => items[i as int]));
                }
                out.push(json_value_to_glue_value(&items[i]));
                i = i + 1;
            }
            let c = Cell::List(out);
            assert(c@->List_0 =~= glue_of(j@)->List_0);
            c
        },
        Json::Object(fields) => {
            let mut out: Vec<(String, Cell)> = Vec::new();
            let mut i: usize = 0;
            while i < fields.len()
                invariant
                    *j == Json::Object(*fields),
                    i <= fields@.len(),
                    out@.len() == i,
                    forall|k: int|
                        0 <= k < i ==> (#[trigger] out@[k]).0@ == fields@[k].0@ && out@[k].1@
                            == glue_of(fields@[k].1@),
                decreases fields.len() - i,
            {
                proof {
                    assert(decreases_to!(*j => j->Object_0));
                    assert(decreases_to!(*fields => fields[i as int]));
                    assert(decreases_to!(fields[i as int] => fields[i as int].1));
                }
                let v = json_value_to_glue_value(&fields[i].1);
                out.push((fields[i].0.clone(), v));
                i = i + 1;
            }
            let c = Cell::Object(out);
            assert(c@->Object_0 =~= glue_of(j@)->Object_0);
            c
        },
    }
}

// ---------------------------------------------------------------------------
// Rows
// ---------------------------------------------------------------------------
/// The map that results from inserting the entries in order (a later entry
/// replaces an earlier one with the same key).
pub open spec fn entries_map(s: Seq<(Seq<char>, CellV)>) -> Map<Seq<char>, CellV>
    decreases s.len(),
{
    if s.len() == 0 {
        Map::empty()
    } else {
        entries_map(s.drop_last()).insert(s.last().0, s.last().1)
    }
}

/// A row: a map from column name to cell.
#[derive(Debug)]
pub struct Row {
    pub entries: Vec<(String, Cell)>,
}

pub open spec fn entries_view(e: Seq<(String, Cell)>) -> Seq<(Seq<char>, CellV)> {
    Seq::new(e.len(), |i: int| (e[i].0@, e[i].1@))
}

impl View for Row {
    type V = Map<Seq<char>, CellV>;

    open spec fn view(&self) -> Map<Seq<char>, CellV> {
        entries_map(entries_view(self.entries@))
    }
}

/// A key is in a map built from entries iff some entry has it.
pub proof fn lemma_entries_dom(s: Seq<(Seq<char>, CellV)>, k: Seq<char>)
    ensures
        entries_map(s).dom().contains(k) <==> exists|i: int| 0 <= i < s.len() && s[i].0 == k,
    decreases s.len(),
{
    if s.len() > 0 {
        let t = s.drop_last();
        lemma_entries_dom(t, k);
        if entries_map(s).dom().contains(k) && s.last().0 != k {
            let i = choose|i: int| 0 <= i < t.len() && t[i].0 == k;
            assert(s[i].0 == k);
        }
        if exists|i: int| 0 <= i < s.len() && s[i].0 == k {
            let i = choose|i: int| 0 <= i < s.len() && s[i].0 == k;
            if i < t.len() {
                assert(t[i].0 == k);
            }
        }
    }
}

/// In a map built from entries, a key maps to the value of its last entry.
pub proof fn lemma_entries_last(s: Seq<(Seq<char>, CellV)>, k: Seq<char>, i: int)
    requires
        0 <= i < s.len(),
        s[i].0 == k,
        forall|j: int| i < j < s.len() ==> s[j].0 != k,
    ensures
        entries_map(s).dom().contains(k),
        entries_map(s)[k] == s[i].1,
    decreases s.len(),
{
    let t = s.drop_last();
    if i < s.len() - 1 {
        assert(s.last().0 != k);
        assert forall|j: int| i < j < t.len() implies t[j].0 != k by {
            assert(s[j].0 != k);
        }
        lemma_entries_last(t, k, i);
    }
}

impl Row {
    /// An empty row.
    pub fn new() -> (r: Row)
        ensures
            r@ == Map::<Seq<char>, CellV>::empty(),
    {
        let r = Row { entries: Vec::new() };
        assert(entries_view(r.entries@) =~= Seq::<(Seq<char>, CellV)>::empty());
        r
    }

    /// Sets the cell of column `key`, replacing any earlier one.
    pub fn insert(&mut self, key: String, value: Cell)
        ensures
            final(self)@ == old(self)@.insert(key@, value@),
    {
        let ghost before = entries_view(self.entries@);
        self.entries.push((key, value));
        proof {
            let after = entries_view(self.entries@);
            assert(after.drop_last() =~= before);
        }
    }

    /// Whether column `key` is set.
    pub fn contains_key(&self, key: &str) -> (b: bool)
        ensures
            b == self@.dom().contains(key@),
    {
        match self.get(key) {
            Some(_) => true,
            None => false,
        }
    }

    /// The cell of column `key`.
    pub fn get(&self, key: &str) -> (r: Option<&Cell>)
        ensures
            match r {
                Some(c) => self@.dom().contains(key@) && self@[key@] == c@,
                None => !self@.dom().contains(key@),
            },
    {
        let ghost s = entries_view(self.entries@);
        let mut i = self.entries.len();
        while i > 0
            invariant
                i <= self.entries@.len(),
                s == entries_view(self.entries@),
                forall|j: int| i <= j < s.len() ==> s[j].0 != key@,
            decreases i,
        {
            if str_eq(self.entries[i - 1].0.as_str(), key) {
                proof {
                    lemma_entries_last(s, key@, i - 1);
                }
                return Some(&self.entries[i - 1].1);
            }
            i = i - 1;
        }
        proof {
            lemma_entries_dom(s, key@);
        }
        None
    }
}

/// Converting JSON to cells keeps every value: `null` stays null, a boolean
/// the same boolean, an integer the same integer, any other number its `f64`
/// bits, a string the same string; an array becomes a list of as many cells,
/// each the conversion of the item at its place, and an object a map with the
/// same keys in the same order, each value converted.
pub proof fn law_glue_keeps_values(j: JsonV)
    ensures
        j is Null ==> glue_of(j) == CellV::Null,
        j matches JsonV::Bool(b) ==> glue_of(j) == CellV::Bool(b),
        j matches JsonV::Int(i) ==> glue_of(j) == CellV::I64(i),
        j matches JsonV::Float(bits, _) ==> glue_of(j) == CellV::F64(bits),
        j matches JsonV::Str(s) ==> glue_of(j) == CellV::Str(s),
        j matches JsonV::Array(items) ==> glue_of(j) is List && glue_of(j)->List_0.len() == items.len()
            && forall|k: int| 0 <= k < items.len() ==> glue_of(j)->List_0[k] == glue_of(#[trigger] items[k]),
        j matches JsonV::Object(fields) ==> glue_of(j) is Object && glue_of(j)->Object_0.len()
            == fields.len() && forall|k: int|
            0 <= k < fields.len() ==> glue_of(j)->Object_0[k] == (
                #[trigger] fields[k].0,
                glue_of(fields[k].1),
            ),
{
}

/// A JSON value and the cell it becomes are of the same kind: a boolean never
/// becomes null, nor null a boolean.
pub proof fn law_glue_null_only_from_null(j: JsonV)
    ensures
        glue_of(j) is Null <==> j is Null,
        glue_of(j) is Bool <==> j is Bool,
{
}

} // verus!
