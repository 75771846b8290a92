//! The evaluator: it walks a tree against the scopes and gives a value, a
//! `break` or a `continue`, or nothing.
//!
//! What it computes is stated in the module of the semantics, over the
//! values that the scopes bind. Expressions only read the scopes;
//! statements write them and print, line by line, into the run's output.

use vstd::prelude::*;
use vstd::string::*;
use crate::ast_struct::{
    Assign, BinOp, BoolOp, Compare, Constant, If, Name, Operator, PyCtx, PyRootNode, Type, UnaryOp,
    While,
};
use crate::core_type::{obj_bool, object_of, payload_of};
use crate::core_type::NativeOutcome;
use crate::dispatch::{
    call_outcome, is_call_result, is_not_implemented, lemma_payload_of_object, obj_to_bool,
    obj_to_str, object_truth, outcome_value, CallOutcome,
};
use crate::error::environment::SetVariableError;
use crate::error::object_error::{ObjBasicError, ObjMethodCallError};
use crate::error::{BasicError, ErrorType};
use crate::namespace::{closed, same_place, Namespace, NamespaceView, PyNamespace};
use crate::object::{names_of, Frame, PyObject, PyObjectView, PyResult, PyVariable};
use crate::pool::stores;
use crate::semantics::{
    all_hold, any_holds, assigned, bound_in, chain_holds, comparison_holds, resolve_in,
    run_commands, run_loop, run_node, value_of, Fault, Ran, Signal, Store, World,
};
use crate::table::lemma_first_from;
use crate::ast_struct::views_of;
use crate::grammar::{parse_program, ParsedBlock};
use crate::parser::build_parser;
use crate::scanner::{
    build_scanner, lemma_lex_ends_with_eof, lex, line_of, col_of, token_views, Token,
};
use crate::token_iter::is_error_at;

verus! {

/// The values that the scopes of `env` bind.
pub open spec fn store_of(env: PyNamespace) -> Store {
    Map::new(
        |k: (NamespaceView, Seq<char>)| env.value_in(k.0, k.1) is Some,
        |k: (NamespaceView, Seq<char>)| env.value_in(k.0, k.1).unwrap(),
    )
}

/// Whether the error `e` reports the fault `f`.
///
/// A method that gives no value is reported by the error that the call
/// gives; where the call gives nothing at all, because the type does not
/// know the method, by the error of a method that is not implemented.
pub open spec fn is_fault(e: ErrorType, f: Fault) -> bool {
    match f {
        Fault::Unbound(n, scope) => e matches ErrorType::GetVariableError(x)
            && x.basic_error.blank() && x.id@ == n
            && x.namespace@ == crate::namespace::scope_text(scope),
        Fault::NotExpression => e matches ErrorType::BasicError(b) && b.lexeme@ == "expression"@
            && b.unplaced(),
        Fault::Unsupported => e matches ErrorType::BasicError(b) && b.lexeme@ == "operator"@
            && b.unplaced(),
        Fault::Method(receiver, method, operand) => is_call_result(
            PyResult::Error(e),
            receiver,
            method,
            operand,
        ) || (call_outcome(receiver, method, operand) matches CallOutcome::Native(
            _,
            _,
            NativeOutcome::Nothing,
        ) && is_not_implemented(PyResult::Error(e), receiver, method)),
        Fault::NoTruth(o) => e matches ErrorType::ObjBasicError(b) && b.identity@ == o.identity
            && b.basic_error.blank(),
        Fault::NotName => e matches ErrorType::BasicError(b) && b.lexeme@ == "target"@
            && b.unplaced(),
        Fault::BuiltinWrite(n) => e matches ErrorType::SetVariableError(x) && x.basic_error.blank()
            && x.id@ == n
            && x.namespace@ == "Builtin"@,
        Fault::Limit => e matches ErrorType::BasicError(b) && b.lexeme@ == "limit"@
            && b.unplaced(),
    }
}

/// Whether the result `r` of evaluating an expression is what `expected`
/// says: the constant of the value, without a comment, or the error of
/// the fault.
pub open spec fn is_value(r: Result<Constant, ErrorType>, expected: Result<PyObjectView, Fault>) -> bool {
    match expected {
        Ok(v) => r matches Ok(c) && c.value@ == v && c.type_comment@ == Seq::<char>::empty(),
        Err(f) => r matches Err(e) && is_fault(e, f),
    }
}

/// Whether the result `r` of a question is what `expected` says.
pub open spec fn is_answer(r: Result<bool, ErrorType>, expected: Result<bool, Fault>) -> bool {
    match expected {
        Ok(v) => r matches Ok(b) && b == v,
        Err(f) => r matches Err(e) && is_fault(e, f),
    }
}

/// In an environment without dangling identifiers, a name resolves to the
/// value that the store gives for it.
pub proof fn lemma_resolve(env: PyNamespace, scope: NamespaceView, name: Seq<char>)
    requires
        closed(env),
    ensures
        resolve_in(store_of(env), scope, name) == (match env.resolved(scope, name) {
            Some(id) => env.value_of(id),
            None => None,
        }),
        env.resolved(scope, name) matches Some(id) ==> env.value_of(id) is Some,
{
    let s = store_of(env);
    assert forall|k: NamespaceView| #[trigger]
        bound_in(s, k, name) == (match env.id_in(k, name) {
            Some(id) => env.value_of(id),
            None => None,
        }) && (env.id_in(k, name) matches Some(id) ==> env.value_of(id) is Some) by {
        if env.id_in(k, name) is Some {
            assert(env.variable_pool@.dom().contains(env.id_in(k, name).unwrap()));
        }
    }
    assert(bound_in(s, NamespaceView::Builtin, name) == (match env.id_in(
        NamespaceView::Builtin,
        name,
    ) {
        Some(id) => env.value_of(id),
        None => None,
    }));
    assert(bound_in(s, NamespaceView::Global, name) == (match env.id_in(
        NamespaceView::Global,
        name,
    ) {
        Some(id) => env.value_of(id),
        None => None,
    }));
    match scope {
        NamespaceView::Enclosing(x) => {
            assert(bound_in(s, scope, name) == (match env.id_in(scope, name) {
                Some(id) => env.value_of(id),
                None => None,
            }));
        },
        NamespaceView::Local(x, y) => {
            assert(bound_in(s, scope, name) == (match env.id_in(scope, name) {
                Some(id) => env.value_of(id),
                None => None,
            }));
            assert(bound_in(s, NamespaceView::Enclosing(x), name) == (match env.id_in(
                NamespaceView::Enclosing(x),
                name,
            ) {
                Some(id) => env.value_of(id),
                None => None,
            }));
        },
        _ => {},
    }
}

/// Storing a value and binding a name to it gives the name that value in
/// the scope, and leaves every other name its value.
pub proof fn lemma_assigned(
    pre: PyNamespace,
    post: PyNamespace,
    scope: NamespaceView,
    name: Seq<char>,
    v: PyObjectView,
    uuid: u128,
)
    requires
        pre.wf(),
        closed(pre),
        stores(pre.variable_pool, v, post.variable_pool, uuid),
        forall|s: NamespaceView, n: Seq<char>| #[trigger]
            post.id_in(s, n) == (if same_place(s, scope) && n == name {
                Some(uuid)
            } else {
                pre.id_in(s, n)
            }),
    ensures
        post.wf(),
        closed(post),
        store_of(post) == assigned(store_of(pre), scope, name, v),
{
    assert(post.variable_pool@.dom().contains(uuid));
    assert(post.variable_pool@[uuid].value == v);
    assert forall|s: NamespaceView, n: Seq<char>| (#[trigger] post.id_in(s, n)) is Some implies post.variable_pool@.dom().contains(
        post.id_in(s, n).unwrap(),
    ) by {
        if !(same_place(s, scope) && n == name) {
            assert(pre.id_in(s, n) is Some);
            assert(pre.variable_pool@.dom().contains(pre.id_in(s, n).unwrap()));
        }
    }
    assert forall|k: (NamespaceView, Seq<char>)|
        store_of(post).dom().contains(k) == assigned(store_of(pre), scope, name, v).dom().contains(
            k,
        ) && (store_of(post).dom().contains(k) ==> store_of(post)[k] == assigned(
            store_of(pre),
            scope,
            name,
            v,
        )[k]) by {
        if !(same_place(k.0, scope) && k.1 == name) {
            assert(post.id_in(k.0, k.1) == pre.id_in(k.0, k.1));
            if pre.id_in(k.0, k.1) is Some {
                let id0 = pre.id_in(k.0, k.1).unwrap();
                assert(pre.variable_pool@.dom().contains(id0));
            }
        } else {
            assert(post.id_in(k.0, k.1) == Some(uuid));
        }
    }
    assert(store_of(post) =~= assigned(store_of(pre), scope, name, v));
}

/// Storing a value in the pool of an environment without dangling
/// identifiers leaves the environment without dangling identifiers, and
/// every name its value.
pub proof fn lemma_stored(pre: PyNamespace, post: PyNamespace, v: PyObjectView, uuid: u128)
    requires
        pre.wf(),
        closed(pre),
        stores(pre.variable_pool, v, post.variable_pool, uuid),
        post.builtin_namespace == pre.builtin_namespace,
        post.global_namespace == pre.global_namespace,
        post.enclosing_namespace == pre.enclosing_namespace,
    ensures
        post.wf(),
        closed(post),
        store_of(post) == store_of(pre),
        post.value_of(uuid) == Some(v),
        forall|id: u128| #[trigger] pre.value_of(id) is Some ==> post.value_of(id) == pre.value_of(id),
{
    assert forall|scope: NamespaceView, name: Seq<char>| #[trigger]
        post.id_in(scope, name) == pre.id_in(scope, name) by {}
    assert forall|scope: NamespaceView, name: Seq<char>| (#[trigger] post.id_in(scope, name))
        is Some implies post.variable_pool@.dom().contains(post.id_in(scope, name).unwrap()) by {
        assert(pre.id_in(scope, name) is Some);
        assert(pre.variable_pool@.dom().contains(pre.id_in(scope, name).unwrap()));
    }
    assert forall|k: (NamespaceView, Seq<char>)|
        store_of(post).dom().contains(k) == store_of(pre).dom().contains(k) && (store_of(
            post,
        ).dom().contains(k) ==> store_of(post)[k] == store_of(pre)[k]) by {
        assert(post.id_in(k.0, k.1) == pre.id_in(k.0, k.1));
        if pre.id_in(k.0, k.1) is Some {
            assert(pre.variable_pool@.dom().contains(pre.id_in(k.0, k.1).unwrap()));
        }
    }
    assert(store_of(post) =~= store_of(pre));
}

/// The error of a fault that is reported by a word.
fn word_error(word: &str) -> (e: ErrorType)
    ensures
        e matches ErrorType::BasicError(b) && b.lexeme@ == word@ && b.unplaced(),
{
    ErrorType::BasicError(BasicError { lexeme: String::from_str(word), col_offset: 0, lineno: 0 })
}

/// The error of a method that is not implemented.
fn method_fault(obj: &PyObject, method: &str) -> (e: ErrorType)
    ensures
        is_not_implemented(PyResult::Error(e), obj@, method@),
{
    ErrorType::ObjMethodCallError(
        ObjMethodCallError {
            obj: ObjBasicError {
                identity: obj.identity.clone(),
                basic_error: BasicError::default(),
            },
            method: String::from_str(method),
        },
    )
}

/// Calls the method `method` of `receiver` with the operand `operand`,
/// where there is one, and gives the object that the method gives.
fn call_method(receiver: PyObject, method: &str, operand: Option<PyObject>) -> (r: Result<
    PyObject,
    ErrorType,
>)
    ensures
        match outcome_value(
            call_outcome(
                receiver@,
                method@,
                match operand {
                    Some(o) => payload_of(o@),
                    None => None,
                },
            ),
        ) {
            Some(v) => r matches Ok(o) && o@ == object_of(v),
            None => r matches Err(e) && is_fault(
                e,
                Fault::Method(
                    receiver@,
                    method@,
                    match operand {
                        Some(o) => payload_of(o@),
                        None => None,
                    },
                ),
            ),
        },
{
    let mut receiver = receiver;
    let mut frame: Frame = Vec::new();
    proof {
        lemma_first_from(frame@, "other"@, 0);
    }
    match operand {
        Some(o) => {
            frame.push((String::from_str("other"), PyVariable::Object(o)));
            proof {
                lemma_first_from(frame@, "other"@, 0);
            }
        },
        None => {},
    }
    match receiver.call(String::from_str(method), frame) {
        PyResult::Value(o) => Ok(o),
        PyResult::Error(e) => Err(e),
        PyResult::Nil => Err(method_fault(&receiver, method)),
    }
}

/// The truth value of an object, for an evaluation.
fn truth(obj: PyObject) -> (r: Result<bool, ErrorType>)
    ensures
        match object_truth(obj@) {
            Some(b) => r matches Ok(x) && x == b,
            None => r matches Err(e) && is_fault(e, Fault::NoTruth(obj@)),
        },
{
    obj_to_bool(obj)
}

impl Name {
    /// The value that the name resolves to when it is looked up from the
    /// scope `namespace`.
    pub fn exec(&self, env: &PyNamespace, namespace: &Namespace) -> (r: Result<
        Constant,
        ErrorType,
    >)
        requires
            env.wf(),
            closed(*env),
        ensures
            is_value(
                r,
                match resolve_in(store_of(*env), namespace@, self.id@) {
                    Some(v) => Ok(v),
                    None => Err(Fault::Unbound(self.id@, namespace@)),
                },
            ),
    {
        proof {
            lemma_resolve(*env, namespace@, self.id@);
        }
        match env.lookup_variable(namespace, &self.id) {
            Ok(o) => Ok(Constant::new(o)),
            Err(e) => Err(e),
        }
    }
}

impl BinOp {
    /// The value of the operation, as [`value_of`] says.
    pub fn calc(&self, env: &PyNamespace, current_namespace: &Namespace) -> (r: Result<
        Constant,
        ErrorType,
    >)
        requires
            env.wf(),
            closed(*env),
        ensures
            is_value(r, value_of(Type::BinOp(*self), store_of(*env), current_namespace@)),
        decreases self, 0nat,
    {
        let x = match deref_expression(&*self.left, env, current_namespace) {
            Ok(c) => c.value,
            Err(e) => {
                return Err(e);
            },
        };
        let y = match deref_expression(&*self.right, env, current_namespace) {
            Ok(c) => c.value,
            Err(e) => {
                return Err(e);
            },
        };
        let method = match self.op {
            Operator::Add => "__add__",
            Operator::Sub => "__sub__",
            Operator::Mult => "__mult__",
            Operator::Div => "__div__",
            _ => {
                return Err(word_error("operator"));
            },
        };
        match call_method(x, method, Some(y)) {
            Ok(o) => Ok(Constant::new(o)),
            Err(e) => Err(e),
        }
    }
}

impl UnaryOp {
    /// The value of the operation, as [`value_of`] says.
    pub fn calc(&self, env: &PyNamespace, current_namespace: &Namespace) -> (r: Result<
        Constant,
        ErrorType,
    >)
        requires
            env.wf(),
            closed(*env),
        ensures
            is_value(r, value_of(Type::UnaryOp(*self), store_of(*env), current_namespace@)),
        decreases self, 0nat,
    {
        let x = match deref_expression(&*self.operand, env, current_namespace) {
            Ok(c) => c.value,
            Err(e) => {
                return Err(e);
            },
        };
        match self.op {
            Operator::Not => match truth(x) {
                Ok(b) => Ok(Constant::new(obj_bool(!b))),
                Err(e) => Err(e),
            },
            Operator::UAdd => match call_method(x, "__pos__", None) {
                Ok(o) => Ok(Constant::new(o)),
                Err(e) => Err(e),
            },
            Operator::USub => match call_method(x, "__neg__", None) {
                Ok(o) => Ok(Constant::new(o)),
                Err(e) => Err(e),
            },
            _ => Err(word_error("operator")),
        }
    }
}

impl Compare {
    /// Whether the comparison `operator` holds of `left` and `right`.
    pub fn compare(operator: Operator, left: &PyObject, right: &PyObject) -> (r: Result<
        bool,
        ErrorType,
    >)
        ensures
            is_answer(r, comparison_holds(operator, left@, right@)),
    {
        let method = match operator {
            Operator::Is => {
                return Ok(left.same(right));
            },
            Operator::IsNot => {
                return Ok(!left.same(right));
            },
            Operator::Eq => "__eq__",
            Operator::NotEq => "__ne__",
            Operator::Lt => "__lt__",
            Operator::Gt => "__gt__",
            Operator::LtE => "__le__",
            Operator::GtE => "__ge__",
            _ => {
                return Err(word_error("operator"));
            },
        };
        match call_method(left.clone(), method, Some(right.clone())) {
            Ok(o) => {
                proof {
                    lemma_payload_of_object(
                        outcome_value(call_outcome(left@, method@, payload_of(right@))).unwrap(),
                    );
                }
                match crate::core_type::get_obj_until_rust(&o) {
                    Some(d) => Ok(d.bool()),
                    None => Err(method_fault(left, method)),
                }
            },
            Err(e) => Err(e),
        }
    }

    /// Whether the chain of comparisons holds, as [`chain_holds`] says: the
    /// operands are evaluated from left to right, up to the first
    /// comparison that does not hold. A chain that has not as many
    /// operators as operands after the first is a fault.
    pub fn compare_calc(&self, env: &PyNamespace, current_namespace: &Namespace) -> (r: Result<
        bool,
        ErrorType,
    >)
        requires
            env.wf(),
            closed(*env),
        ensures
            is_answer(
                r,
                if self.ops@.len() != self.comparators@.len() {
                    Err(Fault::Unsupported)
                } else {
                    match value_of(*self.left, store_of(*env), current_namespace@) {
                        Ok(first) => chain_holds(
                            self.ops@,
                            self.comparators@,
                            0,
                            first,
                            store_of(*env),
                            current_namespace@,
                        ),
                        Err(f) => Err(f),
                    }
                },
            ),
        decreases self, 0nat,
    {
        if self.ops.len() != self.comparators.len() {
            return Err(word_error("operator"));
        }
        let mut left = match deref_expression(&*self.left, env, current_namespace) {
            Ok(c) => c.value,
            Err(e) => {
                return Err(e);
            },
        };
        let ghost first = left@;
        let ghost s = store_of(*env);
        let mut i: usize = 0;
        while i < self.comparators.len()
            invariant
                i <= self.comparators.len(),
                env.wf(),
                closed(*env),
                s == store_of(*env),
                self.ops@.len() == self.comparators@.len(),
                value_of(*self.left, s, current_namespace@) == Ok::<PyObjectView, Fault>(first),
                chain_holds(self.ops@, self.comparators@, 0, first, s, current_namespace@)
                    == chain_holds(
                    self.ops@,
                    self.comparators@,
                    i as int,
                    left@,
                    s,
                    current_namespace@,
                ),
            decreases self.comparators.len() - i,
        {
            let right = match deref_expression(&self.comparators[i], env, current_namespace) {
                Ok(c) => c.value,
                Err(e) => {
                    return Err(e);
                },
            };
            match Self::compare(self.ops[i], &left, &right) {
                Ok(true) => {},
                Ok(false) => {
                    return Ok(false);
                },
                Err(e) => {
                    return Err(e);
                },
            }
            left = right;
            i += 1;
        }
        Ok(true)
    }

    /// The value of the chain of comparisons, as [`value_of`] says.
    pub fn calc(&self, env: &PyNamespace, current_namespace: &Namespace) -> (r: Result<
        Constant,
        ErrorType,
    >)
        requires
            env.wf(),
            closed(*env),
        ensures
            is_value(r, value_of(Type::Compare(*self), store_of(*env), current_namespace@)),
        decreases self, 1nat,
    {
        match self.compare_calc(env, current_namespace) {
            Ok(b) => Ok(Constant::new(obj_bool(b))),
            Err(e) => Err(e),
        }
    }
}

impl BoolOp {
    /// The value of the operation, as [`value_of`] says: the operands are
    /// evaluated from left to right, up to the first one that decides.
    pub fn calc(&self, env: &PyNamespace, namespace: &Namespace) -> (r: Result<
        Constant,
        ErrorType,
    >)
        requires
            env.wf(),
            closed(*env),
        ensures
            is_value(r, value_of(Type::BoolOp(*self), store_of(*env), namespace@)),
        decreases self, 0nat,
    {
        let and = match self.op {
            Operator::And => true,
            Operator::Or => false,
            _ => {
                return Err(word_error("operator"));
            },
        };
        let ghost s = store_of(*env);
        let mut i: usize = 0;
        while i < self.values.len()
            invariant
                i <= self.values.len(),
                env.wf(),
                closed(*env),
                s == store_of(*env),
                and == (self.op == Operator::And),
                !and == (self.op == Operator::Or),
                and ==> all_hold(self.values@, 0, s, namespace@) == all_hold(
                    self.values@,
                    i as int,
                    s,
                    namespace@,
                ),
                !and ==> any_holds(self.values@, 0, s, namespace@) == any_holds(
                    self.values@,
                    i as int,
                    s,
                    namespace@,
                ),
            decreases self.values.len() - i,
        {
            let value = match deref_expression(&self.values[i], env, namespace) {
                Ok(c) => c.value,
                Err(e) => {
                    return Err(e);
                },
            };
            let holds = match truth(value) {
                Ok(b) => b,
                Err(e) => {
                    return Err(e);
                },
            };
            if and && !holds {
                return Ok(Constant::new(obj_bool(false)));
            }
            if !and && holds {
                return Ok(Constant::new(obj_bool(true)));
            }
            i += 1;
        }
        Ok(Constant::new(obj_bool(and)))
    }
}

/// The value of an expression in the scope `namespace`, as [`value_of`]
/// says. Only the scopes are read.
pub fn deref_expression(data: &Type, env: &PyNamespace, namespace: &Namespace) -> (r: Result<
    Constant,
    ErrorType,
>)
    requires
        env.wf(),
        closed(*env),
    ensures
        is_value(r, value_of(*data, store_of(*env), namespace@)),
    decreases data, 2nat,
{
    match data {
        Type::Constant(x) => Ok(Constant::new(x.value.clone())),
        Type::Name(x) => x.exec(env, namespace),
        Type::BinOp(x) => x.calc(env, namespace),
        Type::Compare(x) => x.calc(env, namespace),
        Type::UnaryOp(x) => x.calc(env, namespace),
        Type::BoolOp(x) => x.calc(env, namespace),
        _ => Err(word_error("expression")),
    }
}

// ---------------------------------------------------------------------
// Statements
// ---------------------------------------------------------------------

/// What a run carries besides the scopes: the number of times that a loop
/// may run, and the lines printed so far.
#[derive(Debug)]
pub struct RunState {
    pub limit: u64,
    pub output: Vec<String>,
}

impl RunState {
    /// A run without output yet, in which a loop may run `limit` times.
    pub fn new(limit: u64) -> (r: RunState)
        ensures
            r.limit == limit,
            r.output@.len() == 0,
    {
        RunState { limit, output: Vec::new() }
    }
}

/// The world of an environment and a run.
pub open spec fn world_of(env: PyNamespace, run: RunState) -> World {
    World { store: store_of(env), output: names_of(run.output@) }
}

/// Whether the node `t` hands on the signal `sig`; a value is handed on
/// as its constant, without a comment.
pub open spec fn is_signal(t: Type, sig: Signal) -> bool {
    match sig {
        Signal::Nil => t is Nil,
        Signal::Value(v) => t matches Type::Constant(c) && c.value@ == v && c.type_comment@
            == Seq::<char>::empty(),
        Signal::Break => t is Break,
        Signal::Continue => t is Continue,
    }
}

/// Whether an environment and a run that are `env` and `run`, with the
/// result `r`, are what `ran` says: the world is the one that `ran`
/// leaves, and the result is its signal or reports its fault. The
/// environment is well formed and without dangling identifiers, and the
/// limit of the run is as it was.
pub open spec fn has_run(
    env: PyNamespace,
    run: RunState,
    limit: u64,
    r: Result<Type, ErrorType>,
    ran: Ran,
) -> bool {
    &&& env.wf()
    &&& closed(env)
    &&& run.limit == limit
    &&& store_of(env) == ran.world.store
    &&& names_of(run.output@) == ran.world.output
    &&& match ran.end {
        Ok(sig) => r matches Ok(t) && is_signal(t, sig),
        Err(f) => r matches Err(e) && is_fault(e, f),
    }
}

impl Assign {
    /// Evaluates the value and binds the target to it in the scope
    /// `namespace`, as [`run_node`] says.
    pub fn exec(&self, env: &mut PyNamespace, namespace: &Namespace, run: &RunState) -> (r: Result<
        Type,
        ErrorType,
    >)
        requires
            old(env).wf(),
            closed(*old(env)),
        ensures
            has_run(
                *final(env),
                *run,
                run.limit,
                r,
                run_node(
                    Type::Assign(Box::new(*self)),
                    world_of(*old(env), *run),
                    namespace@,
                    run.limit as nat,
                ),
            ),
    {
        let name = match &*self.target {
            Type::Name(x) => x,
            _ => {
                return Err(word_error("target"));
            },
        };
        match name.ctx {
            PyCtx::Store => {},
            _ => {
                return Err(word_error("target"));
            },
        }
        let value = match deref_expression(&*self.value, env, namespace) {
            Ok(c) => c.value,
            Err(e) => {
                return Err(e);
            },
        };
        match namespace {
            Namespace::Builtin => {
                return Err(
                    SetVariableError::new(
                        BasicError::default(),
                        name.id.clone(),
                        String::from_str("Builtin"),
                    ),
                );
            },
            _ => {},
        }
        let ghost pre = *env;
        let ghost v = value@;
        let uuid = env.set_any(namespace.clone(), name.id.clone(), value);
        proof {
            lemma_assigned(pre, *env, namespace@, name.id@, v, uuid);
        }
        Ok(Type::Nil)
    }
}

/// Runs the statements of `command` in turn, as [`run_commands`] says.
pub fn exec_commands(
    command: &Vec<Type>,
    namespace: &mut PyNamespace,
    current_namespace: &Namespace,
    run: &mut RunState,
) -> (r: Result<Type, ErrorType>)
    requires
        old(namespace).wf(),
        closed(*old(namespace)),
    ensures
        has_run(
            *final(namespace),
            *final(run),
            old(run).limit,
            r,
            run_commands(
                command@,
                0,
                world_of(*old(namespace), *old(run)),
                current_namespace@,
                old(run).limit as nat,
            ),
        ),
    decreases command, 0nat, 1nat,
{
    let ghost start = world_of(*namespace, *run);
    let ghost limit = run.limit as nat;
    let mut index: usize = 0;
    while index < command.len()
        invariant
            index <= command.len(),
            namespace.wf(),
            closed(*namespace),
            run.limit == old(run).limit,
            limit == run.limit,
            start == world_of(*old(namespace), *old(run)),
            run_commands(command@, 0, start, current_namespace@, limit) == run_commands(
                command@,
                index as int,
                world_of(*namespace, *run),
                current_namespace@,
                limit,
            ),
        decreases command.len() - index,
    {
        match command[index].exec(namespace, current_namespace, run) {
            Ok(Type::Constant(x)) => {
                if index + 1 == command.len() {
                    return Ok(Type::Constant(x));
                }
            },
            Ok(Type::Break) => {
                return Ok(Type::Break);
            },
            Ok(Type::Continue) => {
                return Ok(Type::Continue);
            },
            Ok(_) => {},
            Err(e) => {
                return Err(e);
            },
        }
        index += 1;
    }
    Ok(Type::Nil)
}

impl If {
    /// Runs the statements of the branch that the test selects, as
    /// [`run_node`] says.
    pub fn exec(&self, env: &mut PyNamespace, namespace: &Namespace, run: &mut RunState) -> (r:
        Result<Type, ErrorType>)
        requires
            old(env).wf(),
            closed(*old(env)),
        ensures
            has_run(
                *final(env),
                *final(run),
                old(run).limit,
                r,
                run_node(
                    Type::If(Box::new(*self)),
                    world_of(*old(env), *old(run)),
                    namespace@,
                    old(run).limit as nat,
                ),
            ),
        decreases self, 0nat, 0nat,
    {
        let test = match deref_expression(&*self.test, env, namespace) {
            Ok(c) => c.value,
            Err(e) => {
                return Err(e);
            },
        };
        match truth(test) {
            Ok(true) => exec_commands(&self.body, env, namespace, run),
            Ok(false) => exec_commands(&self.orelse, env, namespace, run),
            Err(e) => Err(e),
        }
    }
}

impl While {
    /// Runs the loop, as [`run_loop`] says.
    pub fn exec(&self, env: &mut PyNamespace, namespace: &Namespace, run: &mut RunState) -> (r:
        Result<Type, ErrorType>)
        requires
            old(env).wf(),
            closed(*old(env)),
        ensures
            has_run(
                *final(env),
                *final(run),
                old(run).limit,
                r,
                run_loop(
                    *self,
                    world_of(*old(env), *old(run)),
                    namespace@,
                    old(run).limit as nat,
                    old(run).limit as nat,
                ),
            ),
        decreases self, 0nat, 0nat,
    {
        let ghost start = world_of(*env, *run);
        let ghost limit = run.limit as nat;
        let mut left: u64 = run.limit;
        loop
            invariant
                env.wf(),
                closed(*env),
                run.limit == old(run).limit,
                limit == run.limit,
                start == world_of(*old(env), *old(run)),
                run_loop(*self, start, namespace@, limit, limit) == run_loop(
                    *self,
                    world_of(*env, *run),
                    namespace@,
                    limit,
                    left as nat,
                ),
            decreases left,
        {
            let test = match deref_expression(&*self.test, env, namespace) {
                Ok(c) => c.value,
                Err(e) => {
                    return Err(e);
                },
            };
            match truth(test) {
                Ok(true) => {},
                Ok(false) => {
                    return match exec_commands(&self.orelse, env, namespace, run) {
                        Ok(_) => Ok(Type::Nil),
                        Err(e) => Err(e),
                    };
                },
                Err(e) => {
                    return Err(e);
                },
            }
            if left == 0 {
                return Err(word_error("limit"));
            }
            match exec_commands(&self.body, env, namespace, run) {
                Ok(Type::Break) => {
                    return Ok(Type::Nil);
                },
                Ok(_) => {},
                Err(e) => {
                    return Err(e);
                },
            }
            left -= 1;
        }
    }
}

impl Type {
    /// Runs the node as a statement in the scope `current_namespace`, as
    /// [`run_node`] says.
    pub fn exec(
        &self,
        env: &mut PyNamespace,
        current_namespace: &Namespace,
        run: &mut RunState,
    ) -> (r: Result<Type, ErrorType>)
        requires
            old(env).wf(),
            closed(*old(env)),
        ensures
            has_run(
                *final(env),
                *final(run),
                old(run).limit,
                r,
                run_node(
                    *self,
                    world_of(*old(env), *old(run)),
                    current_namespace@,
                    old(run).limit as nat,
                ),
            ),
        decreases self, 0nat, 1nat,
    {
        match self {
            Type::Assign(x) => x.exec(env, current_namespace, run),
            Type::Print(x) => {
                let value = match deref_expression(&*x.arg, env, current_namespace) {
                    Ok(c) => c.value,
                    Err(e) => {
                        return Err(e);
                    },
                };
                let text = obj_to_str(value);
                let ghost before = names_of(run.output@);
                run.output.push(text);
                assert(names_of(run.output@) =~= before.push(text@));
                Ok(Type::Nil)
            },
            Type::If(x) => x.exec(env, current_namespace, run),
            Type::While(x) => x.exec(env, current_namespace, run),
            Type::Break => Ok(Type::Break),
            Type::Continue => Ok(Type::Continue),
            Type::Nil => Ok(Type::Nil),
            Type::Attribute(_) => Err(word_error("operator")),
            _ => match deref_expression(self, env, current_namespace) {
                Ok(c) => Ok(Type::Constant(c)),
                Err(e) => Err(e),
            },
        }
    }
}

/// A node that has a value of its own.
pub trait Calc {
    /// The node as a tree.
    spec fn as_node(&self) -> Type;

    /// The value of the node in the scope `current_namespace`.
    fn calc_value(&self, env: &PyNamespace, current_namespace: &Namespace) -> (r: Result<
        Constant,
        ErrorType,
    >)
        requires
            env.wf(),
            closed(*env),
        ensures
            is_value(r, value_of(self.as_node(), store_of(*env), current_namespace@)),
    ;
}

impl Calc for BinOp {
    open spec fn as_node(&self) -> Type {
        Type::BinOp(*self)
    }

    fn calc_value(&self, env: &PyNamespace, current_namespace: &Namespace) -> (r: Result<
        Constant,
        ErrorType,
    >) {
        self.calc(env, current_namespace)
    }
}

impl Calc for Compare {
    open spec fn as_node(&self) -> Type {
        Type::Compare(*self)
    }

    fn calc_value(&self, env: &PyNamespace, current_namespace: &Namespace) -> (r: Result<
        Constant,
        ErrorType,
    >) {
        self.calc(env, current_namespace)
    }
}

impl Calc for UnaryOp {
    open spec fn as_node(&self) -> Type {
        Type::UnaryOp(*self)
    }

    fn calc_value(&self, env: &PyNamespace, current_namespace: &Namespace) -> (r: Result<
        Constant,
        ErrorType,
    >) {
        self.calc(env, current_namespace)
    }
}

impl Calc for BoolOp {
    open spec fn as_node(&self) -> Type {
        Type::BoolOp(*self)
    }

    fn calc_value(&self, env: &PyNamespace, current_namespace: &Namespace) -> (r: Result<
        Constant,
        ErrorType,
    >) {
        self.calc(env, current_namespace)
    }
}

impl PyRootNode {
    /// Lexes and parses the source text `s` and takes the statements as
    /// the program's. On an error of the lexer or of the parser the
    /// program stays as it was.
    pub fn parser(&mut self, s: String) -> (r: Result<(), ErrorType>)
        ensures
            match lex(s@) {
                Ok(views) => exists|t: Seq<Token>|
                    token_views(t) == views && (match #[trigger] parse_program(t) {
                        ParsedBlock::Done(v, n) => r is Ok && views_of(final(self).body@) == v
                            && *final(self) == (PyRootNode {
                            body: final(self).body,
                            ..*old(self)
                        }),
                        ParsedBlock::Failed(at) => *final(self) == *old(self) && 0 <= at < t.len()
                            && (r matches Err(e) && is_error_at(e, t[at])),
                    }),
                Err((start, end)) => *final(self) == *old(self) && (r matches Err(
                    ErrorType::BasicError(e),
                ) && e.lineno == line_of(s@, start) && e.col_offset == col_of(s@, start)
                    && e.lexeme@ == s@.subrange(start, end)),
            },
    {
        let mut scanner = build_scanner(s);
        match scanner.scan() {
            Ok(()) => {},
            Err(e) => {
                return Err(e);
            },
        }
        let ghost t = scanner.token@;
        proof {
            lemma_lex_ends_with_eof(s@, 0);
            let views = token_views(t);
            assert(views.len() == t.len());
            assert(views[views.len() - 1] == t[t.len() - 1]@);
            assert(t[t.len() - 1].token_type == crate::scanner::TokenType::EOF);
        }
        let mut parser = build_parser(scanner);
        assert(parser.ind() == crate::grammar::top_level());
        assert(parser.stream() == t);
        let ghost expected = parse_program(t);
        match parser.create_vec() {
            Ok(body) => {
                self.body = body;
                assert(token_views(t) == lex(s@)->Ok_0);
                assert(expected is Done);
                Ok(())
            },
            Err(e) => {
                assert(token_views(t) == lex(s@)->Ok_0);
                assert(expected is Failed);
                Err(e)
            },
        }
    }

    /// Runs the program in the global scope, as [`run_commands`] says.
    pub fn exec(&self, env: &mut PyNamespace, run: &mut RunState) -> (r: Result<Type, ErrorType>)
        requires
            old(env).wf(),
            closed(*old(env)),
        ensures
            has_run(
                *final(env),
                *final(run),
                old(run).limit,
                r,
                run_commands(
                    self.body@,
                    0,
                    world_of(*old(env), *old(run)),
                    NamespaceView::Global,
                    old(run).limit as nat,
                ),
            ),
    {
        exec_commands(&self.body, env, &Namespace::Global, run)
    }
}

/// An environment that binds nothing has no dangling identifier.
pub proof fn lemma_empty_is_closed(env: PyNamespace)
    requires
        env.builtin_namespace@.len() == 0,
        env.global_namespace@.len() == 0,
        env.enclosing_namespace@.len() == 0,
    ensures
        closed(env),
{
}

/// A node that can be run for a value in the pool.
pub trait RunAble {
    /// The node as a tree.
    spec fn as_tree(&self) -> Type;

    /// Runs the node in the scope `namespace` and stores the value that it
    /// hands on in the pool: gives the identifier of the value, `None`
    /// where the node hands on no value, or the error.
    fn run(&self, env: &mut PyNamespace, namespace: &Namespace, run: &mut RunState) -> (r: Option<
        Result<u128, ErrorType>,
    >)
        requires
            old(env).wf(),
            closed(*old(env)),
        ensures
            final(env).wf(),
            closed(*final(env)),
            final(run).limit == old(run).limit,
            store_of(*final(env)) == run_node(
                self.as_tree(),
                world_of(*old(env), *old(run)),
                namespace@,
                old(run).limit as nat,
            ).world.store,
            names_of(final(run).output@) == run_node(
                self.as_tree(),
                world_of(*old(env), *old(run)),
                namespace@,
                old(run).limit as nat,
            ).world.output,
            match run_node(
                self.as_tree(),
                world_of(*old(env), *old(run)),
                namespace@,
                old(run).limit as nat,
            ).end {
                Ok(Signal::Value(v)) => r matches Some(Ok(uuid)) && final(env).value_of(uuid)
                    == Some(v),
                Ok(_) => r is None,
                Err(f) => r matches Some(Err(e)) && is_fault(e, f),
            },
    ;
}

impl RunAble for Type {
    open spec fn as_tree(&self) -> Type {
        *self
    }

    fn run(&self, env: &mut PyNamespace, namespace: &Namespace, run: &mut RunState) -> (r: Option<
        Result<u128, ErrorType>,
    >) {
        match self.exec(env, namespace, run) {
            Ok(Type::Constant(x)) => {
                let ghost pre = *env;
                let ghost v = x.value@;
                let uuid = env.variable_pool.store_new_value(x.value);
                proof {
                    lemma_stored(pre, *env, v, uuid);
                }
                Some(Ok(uuid))
            },
            Ok(_) => None,
            Err(e) => Some(Err(e)),
        }
    }
}

} // verus!
