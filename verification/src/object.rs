//! The object model: every run-time value is an object with an identity,
//! a table of attributes and a table of behaviours.
//!
//! The identity is a type tag (`int`, `str`, `bool`, the name of a class).
//! An attribute is the identifier of a pooled value, or a native value
//! held in place. A behaviour is a method: none, a native one, named by
//! the type and the method that carry it out, or an interpreted one, named
//! by the number of its function.

use vstd::prelude::*;
use vstd::string::*;
use crate::data_type::{DataType, DataTypeView};
use crate::error::ErrorType;
use crate::table::{bind, bound, find, has_key, index_of, lemma_bound, lemma_first_from, lookup};

verus! {

/// What an attribute holds.
#[derive(Debug, PartialEq)]
pub enum PyObjAttr {
    /// The identifier of a value in the variable pool.
    Interpreter(u128),
    /// A native value.
    Rust(DataType),
    /// Nothing.
    Nil,
}

/// The mathematical value of a [`PyObjAttr`].
pub enum PyObjAttrView {
    Interpreter(u128),
    Rust(DataTypeView),
    Nil,
}

impl View for PyObjAttr {
    type V = PyObjAttrView;

    open spec fn view(&self) -> PyObjAttrView {
        match self {
            PyObjAttr::Interpreter(id) => PyObjAttrView::Interpreter(*id),
            PyObjAttr::Rust(d) => PyObjAttrView::Rust(d@),
            PyObjAttr::Nil => PyObjAttrView::Nil,
        }
    }
}

impl Clone for PyObjAttr {
    fn clone(&self) -> (r: Self)
        ensures
            r@ == self@,
    {
        match self {
            PyObjAttr::Interpreter(id) => PyObjAttr::Interpreter(*id),
            PyObjAttr::Rust(d) => PyObjAttr::Rust(d.clone()),
            PyObjAttr::Nil => PyObjAttr::Nil,
        }
    }
}

/// A native method: the type whose native function carries it out, the
/// method's name, and the names of its parameters.
#[derive(Debug, PartialEq)]
pub struct RustObjBehavior {
    pub name: String,
    pub method: String,
    pub args: Vec<String>,
}

/// The mathematical value of a [`RustObjBehavior`].
pub struct RustObjBehaviorView {
    pub name: Seq<char>,
    pub method: Seq<char>,
    pub args: Seq<Seq<char>>,
}

/// The character sequences of a list of strings.
pub open spec fn names_of(names: Seq<String>) -> Seq<Seq<char>> {
    names.map_values(|s: String| s@)
}

impl View for RustObjBehavior {
    type V = RustObjBehaviorView;

    open spec fn view(&self) -> RustObjBehaviorView {
        RustObjBehaviorView { name: self.name@, method: self.method@, args: names_of(self.args@) }
    }
}

/// A copy of a list of strings.
pub fn clone_names(names: &Vec<String>) -> (r: Vec<String>)
    ensures
        names_of(r@) == names_of(names@),
        r@.len() == names@.len(),
        forall|i: int| 0 <= i < names@.len() ==> r@[i] == names@[i],
{
    let mut r: Vec<String> = Vec::new();
    let mut i: usize = 0;
    while i < names.len()
        invariant
            i <= names.len(),
            r@.len() == i,
            forall|k: int| 0 <= k < i ==> r@[k] == names@[k],
        decreases names.len() - i,
    {
        r.push(names[i].clone());
        i += 1;
    }
    assert(names_of(r@) =~= names_of(names@));
    r
}

impl Clone for RustObjBehavior {
    fn clone(&self) -> (r: Self)
        ensures
            r@ == self@,
    {
        RustObjBehavior {
            name: self.name.clone(),
            method: self.method.clone(),
            args: clone_names(&self.args),
        }
    }
}

/// What carries out a method.
#[derive(Debug, PartialEq)]
pub enum PyObjBehaviors {
    /// The interpreted function of this number.
    Interpreter(u64),
    /// A native function.
    Rust(Box<RustObjBehavior>),
    /// Nothing: the method is named but not implemented.
    Nil,
}

/// The mathematical value of a [`PyObjBehaviors`].
pub enum PyObjBehaviorsView {
    Interpreter(u64),
    Rust(RustObjBehaviorView),
    Nil,
}

impl View for PyObjBehaviors {
    type V = PyObjBehaviorsView;

    open spec fn view(&self) -> PyObjBehaviorsView {
        match self {
            PyObjBehaviors::Interpreter(n) => PyObjBehaviorsView::Interpreter(*n),
            PyObjBehaviors::Rust(b) => PyObjBehaviorsView::Rust(b@),
            PyObjBehaviors::Nil => PyObjBehaviorsView::Nil,
        }
    }
}

impl Clone for PyObjBehaviors {
    fn clone(&self) -> (r: Self)
        ensures
            r@ == self@,
    {
        match self {
            PyObjBehaviors::Interpreter(n) => PyObjBehaviors::Interpreter(*n),
            PyObjBehaviors::Rust(b) => {
                let copy: RustObjBehavior = (**b).clone();
                PyObjBehaviors::Rust(Box::new(copy))
            },
            PyObjBehaviors::Nil => PyObjBehaviors::Nil,
        }
    }
}

/// The table of an object's attributes.
pub type HashMapAttr = Vec<(String, PyObjAttr)>;

/// The table of an object's behaviours.
pub type HashMapBehavior = Vec<(String, PyObjBehaviors)>;

/// The map from names to values that a table of attributes stands for.
pub open spec fn attr_map(entries: Seq<(String, PyObjAttr)>) -> Map<Seq<char>, PyObjAttrView> {
    Map::new(
        |k: Seq<char>| has_key(entries, k),
        |k: Seq<char>| lookup(entries, k).unwrap()@,
    )
}

/// The map from names to values that a table of behaviours stands for.
pub open spec fn behavior_map(entries: Seq<(String, PyObjBehaviors)>) -> Map<
    Seq<char>,
    PyObjBehaviorsView,
> {
    Map::new(
        |k: Seq<char>| has_key(entries, k),
        |k: Seq<char>| lookup(entries, k).unwrap()@,
    )
}

/// An object.
#[derive(Debug, PartialEq)]
pub struct PyObject {
    pub attr: HashMapAttr,
    pub behaviors: HashMapBehavior,
    pub identity: String,
}

/// The mathematical value of a [`PyObject`]: its identity and its two
/// tables as maps. Two objects with the same value are structurally equal.
pub struct PyObjectView {
    pub attr: Map<Seq<char>, PyObjAttrView>,
    pub behaviors: Map<Seq<char>, PyObjBehaviorsView>,
    pub identity: Seq<char>,
}

impl View for PyObject {
    type V = PyObjectView;

    open spec fn view(&self) -> PyObjectView {
        PyObjectView {
            attr: attr_map(self.attr@),
            behaviors: behavior_map(self.behaviors@),
            identity: self.identity@,
        }
    }
}

/// A copy of a table of attributes.
pub fn clone_attrs(entries: &HashMapAttr) -> (r: HashMapAttr)
    ensures
        attr_map(r@) == attr_map(entries@),
        r@.len() == entries@.len(),
        forall|i: int|
            0 <= i < entries@.len() ==> r@[i].0 == entries@[i].0 && r@[i].1@ == entries@[i].1@,
{
    let mut r: HashMapAttr = Vec::new();
    let mut i: usize = 0;
    while i < entries.len()
        invariant
            i <= entries.len(),
            r@.len() == i,
            forall|k: int|
                0 <= k < i ==> r@[k].0 == entries@[k].0 && r@[k].1@ == entries@[k].1@,
        decreases entries.len() - i,
    {
        r.push((entries[i].0.clone(), entries[i].1.clone()));
        i += 1;
    }
    proof {
        assert forall|k: Seq<char>|
            has_key(r@, k) == has_key(entries@, k) && (has_key(r@, k) ==> lookup(r@, k).unwrap()@
                == lookup(entries@, k).unwrap()@) by {
            crate::table::lemma_first_from_names(r@, entries@, k, 0);
            lemma_first_from(r@, k, 0);
        }
        assert(attr_map(r@) =~= attr_map(entries@));
    }
    r
}

/// A copy of a table of behaviours.
pub fn clone_behaviors(entries: &HashMapBehavior) -> (r: HashMapBehavior)
    ensures
        behavior_map(r@) == behavior_map(entries@),
        r@.len() == entries@.len(),
        forall|i: int|
            0 <= i < entries@.len() ==> r@[i].0 == entries@[i].0 && r@[i].1@ == entries@[i].1@,
{
    let mut r: HashMapBehavior = Vec::new();
    let mut i: usize = 0;
    while i < entries.len()
        invariant
            i <= entries.len(),
            r@.len() == i,
            forall|k: int|
                0 <= k < i ==> r@[k].0 == entries@[k].0 && r@[k].1@ == entries@[k].1@,
        decreases entries.len() - i,
    {
        r.push((entries[i].0.clone(), entries[i].1.clone()));
        i += 1;
    }
    proof {
        assert forall|k: Seq<char>|
            has_key(r@, k) == has_key(entries@, k) && (has_key(r@, k) ==> lookup(r@, k).unwrap()@
                == lookup(entries@, k).unwrap()@) by {
            crate::table::lemma_first_from_names(r@, entries@, k, 0);
            lemma_first_from(r@, k, 0);
        }
        assert(behavior_map(r@) =~= behavior_map(entries@));
    }
    r
}

impl Clone for PyObject {
    fn clone(&self) -> (r: Self)
        ensures
            r@ == self@,
    {
        PyObject {
            attr: clone_attrs(&self.attr),
            behaviors: clone_behaviors(&self.behaviors),
            identity: self.identity.clone(),
        }
    }
}

/// What a method call gives back.
#[derive(Debug)]
pub enum PyResult {
    /// Nothing: the method gives no value, or the native function does not
    /// know the method.
    Nil,
    /// A value.
    Value(PyObject),
    /// An error.
    Error(ErrorType),
}

/// An argument of a call: an object, or a native value.
#[derive(Debug)]
pub enum PyVariable {
    Object(PyObject),
    DataType(DataType),
}

/// The mathematical value of a [`PyVariable`].
pub enum PyVariableView {
    Object(PyObjectView),
    DataType(DataTypeView),
}

impl View for PyVariable {
    type V = PyVariableView;

    open spec fn view(&self) -> PyVariableView {
        match self {
            PyVariable::Object(o) => PyVariableView::Object(o@),
            PyVariable::DataType(d) => PyVariableView::DataType(d@),
        }
    }
}

impl Clone for PyVariable {
    fn clone(&self) -> (r: Self)
        ensures
            r@ == self@,
    {
        match self {
            PyVariable::Object(o) => PyVariable::Object(o.clone()),
            PyVariable::DataType(d) => PyVariable::DataType(d.clone()),
        }
    }
}

/// The arguments of a call, by parameter name.
pub type Frame = Vec<(String, PyVariable)>;

// ---------------------------------------------------------------------
// Structural equality
// ---------------------------------------------------------------------

/// Whether two lists of pooled identifiers are the same.
fn same_ids(a: &Vec<u128>, b: &Vec<u128>) -> (r: bool)
    ensures
        r == (a@ == b@),
{
    if a.len() != b.len() {
        return false;
    }
    let mut i: usize = 0;
    while i < a.len()
        invariant
            i <= a.len(),
            a.len() == b.len(),
            forall|k: int| 0 <= k < i ==> a@[k] == b@[k],
        decreases a.len() - i,
    {
        if a[i] != b[i] {
            return false;
        }
        i += 1;
    }
    assert(a@ =~= b@);
    true
}

/// Whether two native values are the same.
pub fn same_data(a: &DataType, b: &DataType) -> (r: bool)
    ensures
        r == (a@ == b@),
{
    match (a, b) {
        (DataType::Int(x), DataType::Int(y)) => *x == *y,
        (DataType::Float(x), DataType::Float(y)) => *x == *y,
        (DataType::Bool(x), DataType::Bool(y)) => *x == *y,
        (DataType::Str(x), DataType::Str(y)) => *x == *y,
        (DataType::List(x), DataType::List(y)) => same_ids(x, y),
        (DataType::Nil, DataType::Nil) => true,
        _ => false,
    }
}

/// Whether two attributes hold the same.
pub fn same_attr(a: &PyObjAttr, b: &PyObjAttr) -> (r: bool)
    ensures
        r == (a@ == b@),
{
    match (a, b) {
        (PyObjAttr::Interpreter(x), PyObjAttr::Interpreter(y)) => *x == *y,
        (PyObjAttr::Rust(x), PyObjAttr::Rust(y)) => same_data(x, y),
        (PyObjAttr::Nil, PyObjAttr::Nil) => true,
        _ => false,
    }
}

/// Whether two lists of strings are the same.
fn same_names(a: &Vec<String>, b: &Vec<String>) -> (r: bool)
    ensures
        r == (names_of(a@) == names_of(b@)),
{
    if a.len() != b.len() {
        assert(names_of(a@).len() != names_of(b@).len());
        return false;
    }
    let mut i: usize = 0;
    while i < a.len()
        invariant
            i <= a.len(),
            a.len() == b.len(),
            forall|k: int| 0 <= k < i ==> a@[k]@ == b@[k]@,
        decreases a.len() - i,
    {
        if a[i] != b[i] {
            assert(names_of(a@)[i as int] != names_of(b@)[i as int]);
            return false;
        }
        i += 1;
    }
    assert(names_of(a@) =~= names_of(b@));
    true
}

/// Whether two behaviours are the same.
pub fn same_behavior(a: &PyObjBehaviors, b: &PyObjBehaviors) -> (r: bool)
    ensures
        r == (a@ == b@),
{
    match (a, b) {
        (PyObjBehaviors::Interpreter(x), PyObjBehaviors::Interpreter(y)) => *x == *y,
        (PyObjBehaviors::Rust(x), PyObjBehaviors::Rust(y)) => x.name == y.name && x.method
            == y.method && same_names(&x.args, &y.args),
        (PyObjBehaviors::Nil, PyObjBehaviors::Nil) => true,
        _ => false,
    }
}

/// Whether every name that `a` binds is bound by `b` to the same.
fn attrs_within(a: &HashMapAttr, b: &HashMapAttr) -> (r: bool)
    ensures
        r == (forall|k: Seq<char>|
            has_key(a@, k) ==> has_key(b@, k) && lookup(a@, k).unwrap()@ == lookup(
                b@,
                k,
            ).unwrap()@),
{
    let mut i: usize = 0;
    while i < a.len()
        invariant
            i <= a.len(),
            forall|j: int|
                0 <= j < i ==> has_key(b@, a@[j].0@) && lookup(a@, a@[j].0@).unwrap()@ == lookup(
                    b@,
                    a@[j].0@,
                ).unwrap()@,
        decreases a.len() - i,
    {
        let here = find(a, &a[i].0);
        let there = find(b, &a[i].0);
        proof {
            lemma_first_from(a@, a@[i as int].0@, 0);
        }
        let same = match (here, there) {
            (Some(p), Some(q)) => same_attr(&a[p].1, &b[q].1),
            _ => false,
        };
        if !same {
            proof {
                let k = a@[i as int].0@;
                assert(has_key(a@, k));
                assert(!(has_key(b@, k) && lookup(a@, k).unwrap()@ == lookup(b@, k).unwrap()@));
            }
            return false;
        }
        i += 1;
    }
    proof {
        assert forall|k: Seq<char>| has_key(a@, k) implies has_key(b@, k) && lookup(
            a@,
            k,
        ).unwrap()@ == lookup(b@, k).unwrap()@ by {
            lemma_first_from(a@, k, 0);
            let j = index_of(a@, k).unwrap();
            assert(a@[j].0@ == k);
        }
    }
    true
}

/// Whether every name that `a` binds is bound by `b` to the same.
fn behaviors_within(a: &HashMapBehavior, b: &HashMapBehavior) -> (r: bool)
    ensures
        r == (forall|k: Seq<char>|
            has_key(a@, k) ==> has_key(b@, k) && lookup(a@, k).unwrap()@ == lookup(
                b@,
                k,
            ).unwrap()@),
{
    let mut i: usize = 0;
    while i < a.len()
        invariant
            i <= a.len(),
            forall|j: int|
                0 <= j < i ==> has_key(b@, a@[j].0@) && lookup(a@, a@[j].0@).unwrap()@ == lookup(
                    b@,
                    a@[j].0@,
                ).unwrap()@,
        decreases a.len() - i,
    {
        let here = find(a, &a[i].0);
        let there = find(b, &a[i].0);
        proof {
            lemma_first_from(a@, a@[i as int].0@, 0);
        }
        let same = match (here, there) {
            (Some(p), Some(q)) => same_behavior(&a[p].1, &b[q].1),
            _ => false,
        };
        if !same {
            proof {
                let k = a@[i as int].0@;
                assert(has_key(a@, k));
                assert(!(has_key(b@, k) && lookup(a@, k).unwrap()@ == lookup(b@, k).unwrap()@));
            }
            return false;
        }
        i += 1;
    }
    proof {
        assert forall|k: Seq<char>| has_key(a@, k) implies has_key(b@, k) && lookup(
            a@,
            k,
        ).unwrap()@ == lookup(b@, k).unwrap()@ by {
            lemma_first_from(a@, k, 0);
            let j = index_of(a@, k).unwrap();
            assert(a@[j].0@ == k);
        }
    }
    true
}

impl PyObject {
    /// Whether two objects are structurally equal: of the same identity,
    /// with the same attributes and the same behaviours under the same
    /// names.
    pub fn same(&self, other: &PyObject) -> (r: bool)
        ensures
            r == (self@ == other@),
    {
        let r = self.identity == other.identity && attrs_within(&self.attr, &other.attr)
            && attrs_within(&other.attr, &self.attr) && behaviors_within(
            &self.behaviors,
            &other.behaviors,
        ) && behaviors_within(&other.behaviors, &self.behaviors);
        proof {
            if r {
                assert(attr_map(self.attr@) =~= attr_map(other.attr@));
                assert(behavior_map(self.behaviors@) =~= behavior_map(other.behaviors@));
            } else if self.identity@ == other.identity@ {
                if self@ == other@ {
                    assert forall|k: Seq<char>| has_key(self.attr@, k) implies has_key(
                        other.attr@,
                        k,
                    ) && lookup(self.attr@, k).unwrap()@ == lookup(other.attr@, k).unwrap()@ by {
                        assert(attr_map(self.attr@).dom().contains(k));
                        assert(attr_map(other.attr@).dom().contains(k));
                        assert(attr_map(self.attr@)[k] == attr_map(other.attr@)[k]);
                    }
                    assert forall|k: Seq<char>| has_key(other.attr@, k) implies has_key(
                        self.attr@,
                        k,
                    ) && lookup(other.attr@, k).unwrap()@ == lookup(self.attr@, k).unwrap()@ by {
                        assert(attr_map(other.attr@).dom().contains(k));
                        assert(attr_map(self.attr@).dom().contains(k));
                        assert(attr_map(self.attr@)[k] == attr_map(other.attr@)[k]);
                    }
                    assert forall|k: Seq<char>| has_key(self.behaviors@, k) implies has_key(
                        other.behaviors@,
                        k,
                    ) && lookup(self.behaviors@, k).unwrap()@ == lookup(
                        other.behaviors@,
                        k,
                    ).unwrap()@ by {
                        assert(behavior_map(self.behaviors@).dom().contains(k));
                        assert(behavior_map(other.behaviors@).dom().contains(k));
                        assert(behavior_map(self.behaviors@)[k] == behavior_map(
                            other.behaviors@,
                        )[k]);
                    }
                    assert forall|k: Seq<char>| has_key(other.behaviors@, k) implies has_key(
                        self.behaviors@,
                        k,
                    ) && lookup(other.behaviors@, k).unwrap()@ == lookup(
                        self.behaviors@,
                        k,
                    ).unwrap()@ by {
                        assert(behavior_map(other.behaviors@).dom().contains(k));
                        assert(behavior_map(self.behaviors@).dom().contains(k));
                        assert(behavior_map(self.behaviors@)[k] == behavior_map(
                            other.behaviors@,
                        )[k]);
                    }
                }
            }
        }
        r
    }
}

// ---------------------------------------------------------------------
// Building objects
// ---------------------------------------------------------------------

/// The map `base` after binding the names of `pairs` in turn, each to the
/// value at its side; a later binding of a name replaces an earlier one.
pub open spec fn overlay<W>(base: Map<Seq<char>, W>, pairs: Seq<(Seq<char>, W)>) -> Map<
    Seq<char>,
    W,
>
    decreases pairs.len(),
{
    if pairs.len() == 0 {
        base
    } else {
        overlay(base, pairs.drop_last()).insert(pairs.last().0, pairs.last().1)
    }
}

/// Binding more names removes none.
pub proof fn lemma_overlay_keeps<W>(base: Map<Seq<char>, W>, pairs: Seq<(Seq<char>, W)>)
    ensures
        base.dom().subset_of(overlay(base, pairs).dom()),
    decreases pairs.len(),
{
    if pairs.len() > 0 {
        lemma_overlay_keeps(base, pairs.drop_last());
    }
}

/// The names and the values of a table of attributes, entry by entry.
pub open spec fn attr_pairs(entries: Seq<(String, PyObjAttr)>) -> Seq<(Seq<char>, PyObjAttrView)> {
    entries.map_values(|p: (String, PyObjAttr)| (p.0@, p.1@))
}

/// The names and the values of a table of behaviours, entry by entry.
pub open spec fn behavior_pairs(entries: Seq<(String, PyObjBehaviors)>) -> Seq<
    (Seq<char>, PyObjBehaviorsView),
> {
    entries.map_values(|p: (String, PyObjBehaviors)| (p.0@, p.1@))
}

/// Binding a name in a table of attributes binds it in the map that the
/// table stands for.
pub proof fn lemma_attr_bound(entries: Seq<(String, PyObjAttr)>, key: String, value: PyObjAttr)
    ensures
        attr_map(bound(entries, key, value)) == attr_map(entries).insert(key@, value@),
{
    assert forall|k: Seq<char>|
        has_key(bound(entries, key, value), k) == (has_key(entries, k) || k == key@) && (k != key@
            ==> lookup(bound(entries, key, value), k) == lookup(entries, k)) && lookup(
            bound(entries, key, value),
            key@,
        ) == Some(value) by {
        lemma_bound(entries, key, value, k);
    }
    assert(attr_map(bound(entries, key, value)) =~= attr_map(entries).insert(key@, value@));
}

/// Binding a name in a table of behaviours binds it in the map that the
/// table stands for.
pub proof fn lemma_behavior_bound(
    entries: Seq<(String, PyObjBehaviors)>,
    key: String,
    value: PyObjBehaviors,
)
    ensures
        behavior_map(bound(entries, key, value)) == behavior_map(entries).insert(key@, value@),
{
    assert forall|k: Seq<char>|
        has_key(bound(entries, key, value), k) == (has_key(entries, k) || k == key@) && (k != key@
            ==> lookup(bound(entries, key, value), k) == lookup(entries, k)) && lookup(
            bound(entries, key, value),
            key@,
        ) == Some(value) by {
        lemma_bound(entries, key, value, k);
    }
    assert(behavior_map(bound(entries, key, value)) =~= behavior_map(entries).insert(
        key@,
        value@,
    ));
}

/// The names of the methods that every object has from the start.
pub open spec fn default_names() -> Seq<Seq<char>> {
    seq![
        "__init__"@,
        "__add__"@,
        "__sub__"@,
        "__div__"@,
        "__lt__"@,
        "__eq__"@,
        "__gt__"@,
        "__ne__"@,
        "__name__"@,
        "__le__"@,
        "__ge__"@,
        "__neg__"@,
        "__radd__"@,
        "__bool__"@,
        "__pos__"@,
        "__not__"@,
        "__len__"@,
        "__call__"@,
    ]
}

/// The table of behaviours that every object has from the start: each of
/// the default names, not implemented.
pub open spec fn default_behaviors() -> Map<Seq<char>, PyObjBehaviorsView> {
    overlay(
        Map::empty(),
        default_names().map_values(|k: Seq<char>| (k, PyObjBehaviorsView::Nil)),
    )
}

/// The object that every object starts as.
pub open spec fn default_object() -> PyObjectView {
    PyObjectView { attr: Map::empty(), behaviors: default_behaviors(), identity: "obj"@ }
}

/// Adds the entries of `more`, in turn, to a table of behaviours.
pub fn extend_behaviors(table: &mut HashMapBehavior, more: Vec<(String, PyObjBehaviors)>)
    ensures
        behavior_map(final(table)@) == overlay(behavior_map(old(table)@), behavior_pairs(more@)),
{
    let ghost all = behavior_pairs(more@);
    let ghost base = behavior_map(table@);
    let mut i: usize = 0;
    assert(all.subrange(0, 0) =~= Seq::empty());
    while i < more.len()
        invariant
            i <= more.len(),
            all == behavior_pairs(more@),
            behavior_map(table@) == overlay(base, all.subrange(0, i as int)),
        decreases more.len() - i,
    {
        let key = more[i].0.clone();
        let value = more[i].1.clone();
        proof {
            lemma_behavior_bound(table@, key, value);
            let next = all.subrange(0, i + 1);
            assert(next.drop_last() =~= all.subrange(0, i as int));
            assert(next.last() == (key@, value@));
        }
        bind(table, key, value);
        i += 1;
    }
    assert(all.subrange(0, i as int) =~= all);
}

/// Adds the entries of `more`, in turn, to a table of attributes.
pub fn extend_attrs(table: &mut HashMapAttr, more: Vec<(String, PyObjAttr)>)
    ensures
        attr_map(final(table)@) == overlay(attr_map(old(table)@), attr_pairs(more@)),
{
    let ghost all = attr_pairs(more@);
    let ghost base = attr_map(table@);
    let mut i: usize = 0;
    assert(all.subrange(0, 0) =~= Seq::empty());
    while i < more.len()
        invariant
            i <= more.len(),
            all == attr_pairs(more@),
            attr_map(table@) == overlay(base, all.subrange(0, i as int)),
        decreases more.len() - i,
    {
        let key = more[i].0.clone();
        let value = more[i].1.clone();
        proof {
            lemma_attr_bound(table@, key, value);
            let next = all.subrange(0, i + 1);
            assert(next.drop_last() =~= all.subrange(0, i as int));
            assert(next.last() == (key@, value@));
        }
        bind(table, key, value);
        i += 1;
    }
    assert(all.subrange(0, i as int) =~= all);
}

impl Default for PyObject {
    /// The object that every object starts as: identity `obj`, no
    /// attribute, and each of the default methods, not implemented.
    fn default() -> (r: Self)
        ensures
            r@ == default_object(),
    {
        let mut names: Vec<(String, PyObjBehaviors)> = Vec::new();
        names.push((String::from_str("__init__"), PyObjBehaviors::Nil));
        names.push((String::from_str("__add__"), PyObjBehaviors::Nil));
        names.push((String::from_str("__sub__"), PyObjBehaviors::Nil));
        names.push((String::from_str("__div__"), PyObjBehaviors::Nil));
        names.push((String::from_str("__lt__"), PyObjBehaviors::Nil));
        names.push((String::from_str("__eq__"), PyObjBehaviors::Nil));
        names.push((String::from_str("__gt__"), PyObjBehaviors::Nil));
        names.push((String::from_str("__ne__"), PyObjBehaviors::Nil));
        names.push((String::from_str("__name__"), PyObjBehaviors::Nil));
        names.push((String::from_str("__le__"), PyObjBehaviors::Nil));
        names.push((String::from_str("__ge__"), PyObjBehaviors::Nil));
        names.push((String::from_str("__neg__"), PyObjBehaviors::Nil));
        names.push((String::from_str("__radd__"), PyObjBehaviors::Nil));
        names.push((String::from_str("__bool__"), PyObjBehaviors::Nil));
        names.push((String::from_str("__pos__"), PyObjBehaviors::Nil));
        names.push((String::from_str("__not__"), PyObjBehaviors::Nil));
        names.push((String::from_str("__len__"), PyObjBehaviors::Nil));
        names.push((String::from_str("__call__"), PyObjBehaviors::Nil));
        assert(behavior_pairs(names@) =~= default_names().map_values(
            |k: Seq<char>| (k, PyObjBehaviorsView::Nil),
        ));
        let mut behaviors: HashMapBehavior = Vec::new();
        assert(behavior_map(behaviors@) =~= Map::empty());
        extend_behaviors(&mut behaviors, names);
        let attr: HashMapAttr = Vec::new();
        assert(attr_map(attr@) =~= Map::empty());
        PyObject { attr, behaviors, identity: String::from_str("obj") }
    }
}

impl PyObject {
    /// Sets the identity and hands back a copy of the updated object.
    pub fn identity(&mut self, identity: String) -> (r: Self)
        ensures
            *final(self) == (PyObject { identity, ..*old(self) }),
            r@ == final(self)@,
    {
        self.identity = identity;
        self.clone()
    }

    /// Replaces the attributes by the entries of `x`, bound in turn, and
    /// hands back a copy of the updated object.
    pub fn attr(&mut self, x: Vec<(String, PyObjAttr)>) -> (r: Self)
        ensures
            final(self).identity == old(self).identity,
            final(self).behaviors == old(self).behaviors,
            attr_map(final(self).attr@) == overlay(Map::empty(), attr_pairs(x@)),
            r@ == final(self)@,
    {
        let mut table: HashMapAttr = Vec::new();
        assert(attr_map(table@) =~= Map::empty());
        extend_attrs(&mut table, x);
        self.attr = table;
        self.clone()
    }

    /// Adds the behaviours of `x`, bound in turn, to those of the object,
    /// and hands back a copy of the updated object. No method that the
    /// object had is lost.
    pub fn extend_behavior(&mut self, x: Vec<(String, PyObjBehaviors)>) -> (r: Self)
        ensures
            final(self).identity == old(self).identity,
            final(self).attr == old(self).attr,
            behavior_map(final(self).behaviors@) == overlay(
                behavior_map(old(self).behaviors@),
                behavior_pairs(x@),
            ),
            old(self)@.behaviors.dom().subset_of(final(self)@.behaviors.dom()),
            r@ == final(self)@,
    {
        proof {
            lemma_overlay_keeps(behavior_map(self.behaviors@), behavior_pairs(x@));
        }
        extend_behaviors(&mut self.behaviors, x);
        self.clone()
    }

    /// Binds the method `name` to `obj_behaviors` and hands back a copy of
    /// the updated object. No method that the object had is lost.
    pub fn set_behavior(&mut self, name: String, obj_behaviors: PyObjBehaviors) -> (r: Self)
        ensures
            final(self).identity == old(self).identity,
            final(self).attr == old(self).attr,
            behavior_map(final(self).behaviors@) == behavior_map(old(self).behaviors@).insert(
                name@,
                obj_behaviors@,
            ),
            old(self)@.behaviors.dom().subset_of(final(self)@.behaviors.dom()),
            r@ == final(self)@,
    {
        proof {
            lemma_behavior_bound(self.behaviors@, name, obj_behaviors);
        }
        bind(&mut self.behaviors, name, obj_behaviors);
        self.clone()
    }

    /// What the attribute `key` holds; `None` where the object has no such
    /// attribute.
    pub fn get_value(&self, key: &String) -> (r: Option<PyObjAttr>)
        ensures
            match r {
                Some(a) => self@.attr.dom().contains(key@) && a@ == self@.attr[key@],
                None => !self@.attr.dom().contains(key@),
            },
    {
        match find(&self.attr, key) {
            Some(i) => Some(self.attr[i].1.clone()),
            None => None,
        }
    }

    /// The object's identity.
    pub fn return_identity(&self) -> (r: String)
        ensures
            r == self.identity,
    {
        self.identity.clone()
    }
}

impl PyObject {
    /// The object as an argument of a call.
    pub fn to_variable(&self) -> (r: PyVariable)
        ensures
            r@ == PyVariableView::Object(self@),
    {
        PyVariable::Object(self.clone())
    }
}

impl DataType {
    /// The native value as an argument of a call.
    pub fn to_variable(&self) -> (r: PyVariable)
        ensures
            r@ == PyVariableView::DataType(self@),
    {
        PyVariable::DataType(self.clone())
    }
}

} // verus!
