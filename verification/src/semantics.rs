//! What a program means: the value of an expression and the effect of a
//! statement, as functions of the tree, the scope it runs in and the
//! values that the scopes bind.
//!
//! Expressions only read the scopes. Operands are evaluated from left to
//! right; a chain of comparisons and a chain of `and` or `or` stop at the
//! first operand that decides them, and do not evaluate the operands
//! after it. Statements change the scopes and print. Every loop runs at
//! most a given number of times.

use vstd::prelude::*;
use crate::ast_struct::{Operator, PyCtx, Type, While};
use crate::core_type::{object_of, payload_of};
use crate::data_type::{truth_of, DataTypeView};
use crate::dispatch::{call_outcome, object_text, object_truth, outcome_value};
use crate::namespace::{same_place, NamespaceView};
use crate::object::PyObjectView;

verus! {

/// The values that the scopes bind: for a scope and a name, the value of
/// the name in that scope itself.
pub type Store = Map<(NamespaceView, Seq<char>), PyObjectView>;

/// Why an evaluation gives no result.
pub enum Fault {
    /// No scope that is searched from the given scope binds the name.
    Unbound(Seq<char>, NamespaceView),
    /// The node is a statement, where an expression is asked for.
    NotExpression,
    /// The operator is not carried out.
    Unsupported,
    /// The method of the object, called with the operand, gives no
    /// value: the object does not have the method, or the method failed.
    Method(PyObjectView, Seq<char>, Option<DataTypeView>),
    /// The object has no truth value.
    NoTruth(PyObjectView),
    /// The target of the assignment is not a name that is written.
    NotName,
    /// A program may not write to the built-in scope: the name that it
    /// tried to bind.
    BuiltinWrite(Seq<char>),
    /// A loop has run as often as loops are allowed to.
    Limit,
}

/// The value of `name` in the scope `scope` itself.
pub open spec fn bound_in(store: Store, scope: NamespaceView, name: Seq<char>) -> Option<
    PyObjectView,
> {
    if store.dom().contains((scope, name)) {
        Some(store[(scope, name)])
    } else {
        None
    }
}

/// The value that `name` resolves to when it is looked up from the scope
/// `scope`: that of the scope itself, else that of the scopes around it,
/// from the inside out, the built-in scope last.
pub open spec fn resolve_in(store: Store, scope: NamespaceView, name: Seq<char>) -> Option<
    PyObjectView,
> {
    let builtin = bound_in(store, NamespaceView::Builtin, name);
    let global = match bound_in(store, NamespaceView::Global, name) {
        Some(v) => Some(v),
        None => builtin,
    };
    match scope {
        NamespaceView::Builtin => builtin,
        NamespaceView::Global => global,
        NamespaceView::Enclosing(x) => match bound_in(store, scope, name) {
            Some(v) => Some(v),
            None => global,
        },
        NamespaceView::Local(x, y) => match bound_in(store, scope, name) {
            Some(v) => Some(v),
            None => match bound_in(store, NamespaceView::Enclosing(x), name) {
                Some(v) => Some(v),
                None => global,
            },
        },
    }
}

/// The store after `name` is given the value `v` in the scope `scope`.
pub open spec fn assigned(store: Store, scope: NamespaceView, name: Seq<char>, v: PyObjectView) -> Store {
    Map::new(
        |k: (NamespaceView, Seq<char>)|
            store.dom().contains(k) || (same_place(k.0, scope) && k.1 == name),
        |k: (NamespaceView, Seq<char>)|
            if same_place(k.0, scope) && k.1 == name {
                v
            } else {
                store[k]
            },
    )
}

/// The method that carries out a binary operator.
pub open spec fn binary_method(op: Operator) -> Option<Seq<char>> {
    match op {
        Operator::Add => Some("__add__"@),
        Operator::Sub => Some("__sub__"@),
        Operator::Mult => Some("__mult__"@),
        Operator::Div => Some("__div__"@),
        _ => None,
    }
}

/// The method that carries out a comparison.
pub open spec fn comparison_method(op: Operator) -> Option<Seq<char>> {
    match op {
        Operator::Eq => Some("__eq__"@),
        Operator::NotEq => Some("__ne__"@),
        Operator::Lt => Some("__lt__"@),
        Operator::Gt => Some("__gt__"@),
        Operator::LtE => Some("__le__"@),
        Operator::GtE => Some("__ge__"@),
        _ => None,
    }
}

/// The object that the method `method` of the object `receiver` gives
/// when it is called with the operand `operand`.
pub open spec fn method_value(
    receiver: PyObjectView,
    method: Seq<char>,
    operand: Option<DataTypeView>,
) -> Result<PyObjectView, Fault> {
    match outcome_value(call_outcome(receiver, method, operand)) {
        Some(v) => Ok(object_of(v)),
        None => Err(Fault::Method(receiver, method, operand)),
    }
}

/// The result of the binary operator `op` on two objects: that of the
/// operator's method of the left one, called with the right one.
pub open spec fn binary_value(op: Operator, left: PyObjectView, right: PyObjectView) -> Result<
    PyObjectView,
    Fault,
> {
    match binary_method(op) {
        Some(method) => method_value(left, method, payload_of(right)),
        None => Err(Fault::Unsupported),
    }
}

/// Whether the comparison `op` holds of two objects: by the operator's
/// method of the left one; `is` and `is not` by structural equality.
pub open spec fn comparison_holds(op: Operator, left: PyObjectView, right: PyObjectView) -> Result<
    bool,
    Fault,
> {
    match op {
        Operator::Is => Ok(left == right),
        Operator::IsNot => Ok(left != right),
        _ => match comparison_method(op) {
            Some(method) => match outcome_value(call_outcome(left, method, payload_of(right))) {
                Some(v) => Ok(truth_of(v)),
                None => Err(Fault::Method(left, method, payload_of(right))),
            },
            None => Err(Fault::Unsupported),
        },
    }
}

/// The result of the unary operator `op` on an object.
pub open spec fn unary_value(op: Operator, operand: PyObjectView) -> Result<PyObjectView, Fault> {
    match op {
        Operator::Not => match object_truth(operand) {
            Some(b) => Ok(object_of(DataTypeView::Bool(!b))),
            None => Err(Fault::NoTruth(operand)),
        },
        Operator::UAdd => method_value(operand, "__pos__"@, None),
        Operator::USub => method_value(operand, "__neg__"@, None),
        _ => Err(Fault::Unsupported),
    }
}

/// The value of an expression in the scope `scope`.
pub open spec fn value_of(node: Type, store: Store, scope: NamespaceView) -> Result<
    PyObjectView,
    Fault,
>
    decreases node, 0nat,
{
    match node {
        Type::Constant(c) => Ok(c.value@),
        Type::Name(n) => match resolve_in(store, scope, n.id@) {
            Some(v) => Ok(v),
            None => Err(Fault::Unbound(n.id@, scope)),
        },
        Type::BinOp(b) => match value_of(*b.left, store, scope) {
            Ok(l) => match value_of(*b.right, store, scope) {
                Ok(r) => binary_value(b.op, l, r),
                Err(f) => Err(f),
            },
            Err(f) => Err(f),
        },
        Type::UnaryOp(u) => match value_of(*u.operand, store, scope) {
            Ok(v) => unary_value(u.op, v),
            Err(f) => Err(f),
        },
        Type::Compare(c) => if c.ops@.len() != c.comparators@.len() {
            Err(Fault::Unsupported)
        } else {
            match value_of(*c.left, store, scope) {
                Ok(first) => match chain_holds(c.ops@, c.comparators@, 0, first, store, scope) {
                    Ok(b) => Ok(object_of(DataTypeView::Bool(b))),
                    Err(f) => Err(f),
                },
                Err(f) => Err(f),
            }
        },
        Type::BoolOp(b) => match b.op {
            Operator::And => match all_hold(b.values@, 0, store, scope) {
                Ok(x) => Ok(object_of(DataTypeView::Bool(x))),
                Err(f) => Err(f),
            },
            Operator::Or => match any_holds(b.values@, 0, store, scope) {
                Ok(x) => Ok(object_of(DataTypeView::Bool(x))),
                Err(f) => Err(f),
            },
            _ => Err(Fault::Unsupported),
        },
        _ => Err(Fault::NotExpression),
    }
}

/// Whether the comparisons of a chain hold from the `i`-th on, where
/// `left` is the value of the operand before the `i`-th operator. The
/// chain is decided by the first comparison that does not hold: the
/// operands after it are not evaluated.
pub open spec fn chain_holds(
    ops: Seq<Operator>,
    comparators: Seq<Type>,
    i: int,
    left: PyObjectView,
    store: Store,
    scope: NamespaceView,
) -> Result<bool, Fault>
    decreases comparators, comparators.len() - i,
{
    if i < 0 || i >= comparators.len() || i >= ops.len() {
        Ok(true)
    } else {
        match value_of(comparators[i], store, scope) {
            Ok(right) => match comparison_holds(ops[i], left, right) {
                Ok(true) => chain_holds(ops, comparators, i + 1, right, store, scope),
                Ok(false) => Ok(false),
                Err(f) => Err(f),
            },
            Err(f) => Err(f),
        }
    }
}

/// Whether every operand from the `i`-th on is true. The first operand
/// that is false decides: the operands after it are not evaluated.
pub open spec fn all_hold(values: Seq<Type>, i: int, store: Store, scope: NamespaceView) -> Result<
    bool,
    Fault,
>
    decreases values, values.len() - i,
{
    if i < 0 || i >= values.len() {
        Ok(true)
    } else {
        match value_of(values[i], store, scope) {
            Ok(v) => match object_truth(v) {
                Some(true) => all_hold(values, i + 1, store, scope),
                Some(false) => Ok(false),
                None => Err(Fault::NoTruth(v)),
            },
            Err(f) => Err(f),
        }
    }
}

/// Whether an operand from the `i`-th on is true. The first operand that
/// is true decides: the operands after it are not evaluated.
pub open spec fn any_holds(values: Seq<Type>, i: int, store: Store, scope: NamespaceView) -> Result<
    bool,
    Fault,
>
    decreases values, values.len() - i,
{
    if i < 0 || i >= values.len() {
        Ok(false)
    } else {
        match value_of(values[i], store, scope) {
            Ok(v) => match object_truth(v) {
                Some(true) => Ok(true),
                Some(false) => any_holds(values, i + 1, store, scope),
                None => Err(Fault::NoTruth(v)),
            },
            Err(f) => Err(f),
        }
    }
}

/// What a run has changed: the values that the scopes bind, and the lines
/// that were printed.
pub struct World {
    pub store: Store,
    pub output: Seq<Seq<char>>,
}

/// What a statement hands to the statements around it.
pub enum Signal {
    /// Nothing.
    Nil,
    /// The value of an expression.
    Value(PyObjectView),
    /// A `break`.
    Break,
    /// A `continue`.
    Continue,
}

/// How a statement ends, and the world it leaves.
pub struct Ran {
    pub end: Result<Signal, Fault>,
    pub world: World,
}

/// The effect of a node that is run as a statement in the scope `scope`;
/// `limit` is the number of times that a loop may run.
pub open spec fn run_node(node: Type, w: World, scope: NamespaceView, limit: nat) -> Ran
    decreases node, 0nat, 0nat,
{
    match node {
        Type::Assign(a) => match *a.target {
            Type::Name(n) => if n.ctx != PyCtx::Store {
                Ran { end: Err(Fault::NotName), world: w }
            } else {
                match value_of(*a.value, w.store, scope) {
                    Ok(v) => if scope is Builtin {
                        Ran { end: Err(Fault::BuiltinWrite(n.id@)), world: w }
                    } else {
                        Ran {
                            end: Ok(Signal::Nil),
                            world: World { store: assigned(w.store, scope, n.id@, v), ..w },
                        }
                    },
                    Err(f) => Ran { end: Err(f), world: w },
                }
            },
            _ => Ran { end: Err(Fault::NotName), world: w },
        },
        Type::Print(p) => match value_of(*p.arg, w.store, scope) {
            Ok(v) => Ran {
                end: Ok(Signal::Nil),
                world: World { output: w.output.push(object_text(v)), ..w },
            },
            Err(f) => Ran { end: Err(f), world: w },
        },
        Type::If(x) => match value_of(*x.test, w.store, scope) {
            Ok(v) => match object_truth(v) {
                Some(true) => run_commands(x.body@, 0, w, scope, limit),
                Some(false) => run_commands(x.orelse@, 0, w, scope, limit),
                None => Ran { end: Err(Fault::NoTruth(v)), world: w },
            },
            Err(f) => Ran { end: Err(f), world: w },
        },
        Type::While(x) => run_loop(*x, w, scope, limit, limit),
        Type::Break => Ran { end: Ok(Signal::Break), world: w },
        Type::Continue => Ran { end: Ok(Signal::Continue), world: w },
        Type::Nil => Ran { end: Ok(Signal::Nil), world: w },
        Type::Attribute(_) => Ran { end: Err(Fault::Unsupported), world: w },
        _ => match value_of(node, w.store, scope) {
            Ok(v) => Ran { end: Ok(Signal::Value(v)), world: w },
            Err(f) => Ran { end: Err(f), world: w },
        },
    }
}

/// The effect of the statements of a list from the `i`-th on, in turn. A
/// `break` or a `continue` ends the list and is handed on. The value of an
/// expression is handed on only where the expression is the last
/// statement of the list.
pub open spec fn run_commands(
    nodes: Seq<Type>,
    i: int,
    w: World,
    scope: NamespaceView,
    limit: nat,
) -> Ran
    decreases nodes, nodes.len() - i, 0nat,
{
    if i < 0 || i >= nodes.len() {
        Ran { end: Ok(Signal::Nil), world: w }
    } else {
        let ran = run_node(nodes[i], w, scope, limit);
        match ran.end {
            Ok(Signal::Break) => ran,
            Ok(Signal::Continue) => ran,
            Ok(Signal::Value(v)) => if i + 1 == nodes.len() {
                ran
            } else {
                run_commands(nodes, i + 1, ran.world, scope, limit)
            },
            Ok(Signal::Nil) => run_commands(nodes, i + 1, ran.world, scope, limit),
            Err(_) => ran,
        }
    }
}

/// The effect of a loop that may still run `left` times. The test is
/// evaluated before every run of the body. Where it does not hold, the
/// `else` clause runs and the loop ends. A `break` in the body ends the
/// loop without the `else` clause; a `continue` goes on with the next
/// test.
pub open spec fn run_loop(x: While, w: World, scope: NamespaceView, limit: nat, left: nat) -> Ran
    decreases x, left, 1nat,
{
    match value_of(*x.test, w.store, scope) {
        Ok(v) => match object_truth(v) {
            Some(false) => {
                let ran = run_commands(x.orelse@, 0, w, scope, limit);
                match ran.end {
                    Ok(_) => Ran { end: Ok(Signal::Nil), world: ran.world },
                    Err(_) => ran,
                }
            },
            Some(true) => if left == 0 {
                Ran { end: Err(Fault::Limit), world: w }
            } else {
                let ran = run_commands(x.body@, 0, w, scope, limit);
                match ran.end {
                    Ok(Signal::Break) => Ran { end: Ok(Signal::Nil), world: ran.world },
                    Ok(_) => run_loop(x, ran.world, scope, limit, (left - 1) as nat),
                    Err(_) => ran,
                }
            },
            None => Ran { end: Err(Fault::NoTruth(v)), world: w },
        },
        Err(f) => Ran { end: Err(f), world: w },
    }
}

// ---------------------------------------------------------------------
// Laws of evaluation
// ---------------------------------------------------------------------

/// `and` is decided by its first operand that is false: whatever stands
/// after that operand, the result is false.
pub proof fn lemma_and_stops_at_false(
    values: Seq<Type>,
    i: int,
    k: int,
    store: Store,
    scope: NamespaceView,
)
    requires
        0 <= i <= k < values.len(),
        forall|j: int|
            i <= j < k ==> ((#[trigger] value_of(values[j], store, scope)) matches Ok(v)
                && object_truth(v) == Some(true)),
        value_of(values[k], store, scope) matches Ok(v) && object_truth(v) == Some(false),
    ensures
        all_hold(values, i, store, scope) == Ok::<bool, Fault>(false),
    decreases k - i,
{
    if i < k {
        lemma_and_stops_at_false(values, i + 1, k, store, scope);
        assert(value_of(values[i], store, scope) is Ok);
        assert(object_truth(value_of(values[i], store, scope)->Ok_0) == Some(true));
    } else {
        assert(value_of(values[i], store, scope) is Ok);
        assert(object_truth(value_of(values[i], store, scope)->Ok_0) == Some(false));
    }
}

/// `or` is decided by its first operand that is true: whatever stands
/// after that operand, the result is true.
pub proof fn lemma_or_stops_at_true(
    values: Seq<Type>,
    i: int,
    k: int,
    store: Store,
    scope: NamespaceView,
)
    requires
        0 <= i <= k < values.len(),
        forall|j: int|
            i <= j < k ==> ((#[trigger] value_of(values[j], store, scope)) matches Ok(v)
                && object_truth(v) == Some(false)),
        value_of(values[k], store, scope) matches Ok(v) && object_truth(v) == Some(true),
    ensures
        any_holds(values, i, store, scope) == Ok::<bool, Fault>(true),
    decreases k - i,
{
    if i < k {
        lemma_or_stops_at_true(values, i + 1, k, store, scope);
        assert(value_of(values[i], store, scope) is Ok);
        assert(object_truth(value_of(values[i], store, scope)->Ok_0) == Some(false));
    } else {
        assert(value_of(values[i], store, scope) is Ok);
        assert(object_truth(value_of(values[i], store, scope)->Ok_0) == Some(true));
    }
}

/// A name that a call's scope binds has, looked up from inside the call,
/// the value of that binding, whatever the global scope binds it to;
/// looked up from the global scope it has the value of the global
/// binding.
pub proof fn lemma_scope_order(
    store: Store,
    call: Seq<char>,
    name: Seq<char>,
    inner: PyObjectView,
    outer: PyObjectView,
)
    requires
        bound_in(store, NamespaceView::Enclosing(call), name) == Some(inner),
        bound_in(store, NamespaceView::Global, name) == Some(outer),
    ensures
        resolve_in(store, NamespaceView::Enclosing(call), name) == Some(inner),
        resolve_in(store, NamespaceView::Global, name) == Some(outer),
{
}

} // verus!
