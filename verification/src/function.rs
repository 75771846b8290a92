//! Interpreted functions: a list of statements with named parameters,
//! which runs in a scope of its own.

use vstd::prelude::*;
use vstd::string::*;
use crate::ast_struct::Type;
use crate::core_type::{argument_data, is_native_result, native_outcome, receiver_data};
use crate::error::{BasicError, ErrorType};
use crate::namespace::{closed, scope_path, Namespace, NamespaceView, PyNamespace};
use crate::object::{
    clone_names, names_of, Frame, PyObject, PyObjectView, PyResult, RustObjBehavior,
};
use crate::pool::new_uuid;
use crate::run_commands::{
    exec_commands, is_fault, lemma_assigned, lemma_stored, store_of, RunState,
};
use crate::semantics::{assigned, run_commands, Signal, Store, World};
use crate::table::{find, lookup};
use crate::core_type::payload_of;
use crate::dispatch::{is_call_result, is_not_implemented};
use crate::object::{PyObjBehaviors, PyObjBehaviorsView, PyVariable};
use crate::pool::stores;
use crate::text::u128_to_string;

verus! {

/// A native function, named by the type and the method that it carries
/// out.
#[derive(Debug)]
pub struct ExecFunction {
    pub obj: String,
    pub method: String,
}

impl ExecFunction {
    /// Carries out the native function on the arguments `x`, as the
    /// native function of the type does.
    pub fn exec(&self, x: &Frame) -> (r: PyResult)
        ensures
            is_native_result(
                r,
                native_outcome(
                    self.obj@,
                    self.method@,
                    receiver_data(x@),
                    argument_data(x@, "other"@),
                ),
                self.obj@,
                self.method@,
            ),
    {
        let behavior = RustObjBehavior {
            name: self.obj.clone(),
            method: self.method.clone(),
            args: Vec::new(),
        };
        behavior.exec(x)
    }
}

/// An interpreted function: its statements, the names of its parameters,
/// and the values of the parameters that may be left out.
#[derive(Debug)]
pub struct PyFunction {
    pub codes: Vec<Type>,
    pub arg: Vec<String>,
    pub kwargs: bool,
    pub args: bool,
    pub run_default: String,
    pub default: Vec<(String, PyObject)>,
}

impl Default for PyFunction {
    /// The function without statements and without parameters.
    fn default() -> (r: Self)
        ensures
            r.codes@.len() == 0,
            r.arg@.len() == 0,
            r.default@.len() == 0,
            !r.kwargs,
            !r.args,
            r.run_default@.len() == 0,
    {
        PyFunction {
            codes: Vec::new(),
            arg: Vec::new(),
            kwargs: false,
            args: false,
            run_default: String::new(),
            default: Vec::new(),
        }
    }
}

/// The scope of a call that is made from the scope `from`: the scope of
/// the call `name` where it is made from the global scope, else the
/// scope `name` nested in the scope it is made from.
pub open spec fn child_scope(from: NamespaceView, name: Seq<char>) -> NamespaceView {
    match from {
        NamespaceView::Enclosing(x) => NamespaceView::Local(x, seq![name]),
        NamespaceView::Local(x, y) => NamespaceView::Local(x, y.push(name)),
        _ => NamespaceView::Enclosing(name),
    }
}

/// The value of the `i`-th parameter of a call: the argument at that
/// place, which the pool holds, or else the parameter's default.
pub open spec fn parameter_value(
    f: PyFunction,
    env: PyNamespace,
    given: Seq<u128>,
    i: int,
) -> Option<PyObjectView> {
    if i < given.len() {
        env.value_of(given[i])
    } else {
        match lookup(f.default@, f.arg@[i]@) {
            Some(o) => Some(o@),
            None => None,
        }
    }
}

/// The store after the parameters from the `i`-th on are given their
/// values in the scope `scope`.
pub open spec fn with_parameters(
    store: Store,
    scope: NamespaceView,
    names: Seq<Seq<char>>,
    values: Seq<PyObjectView>,
    i: int,
) -> Store
    decreases names.len() - i,
{
    if i < 0 || i >= names.len() || i >= values.len() {
        store
    } else {
        with_parameters(assigned(store, scope, names[i], values[i]), scope, names, values, i + 1)
    }
}

impl PyFunction {
    /// Sets the native function that runs by default, and gives the
    /// function back.
    pub fn run_default(self, id: String) -> (r: Self)
        ensures
            r.run_default == id,
            r.codes == self.codes,
            r.arg == self.arg,
            r.default == self.default,
            r.kwargs == self.kwargs,
            r.args == self.args,
    {
        let mut f = self;
        f.run_default = id;
        f
    }

    /// Sets the names of the parameters, and gives the function back.
    pub fn arg(self, arg: Vec<String>) -> (r: Self)
        ensures
            r.arg == arg,
            r.codes == self.codes,
            r.run_default == self.run_default,
            r.default == self.default,
            r.kwargs == self.kwargs,
            r.args == self.args,
    {
        let mut f = self;
        f.arg = arg;
        f
    }

    /// Sets the values of the parameters that may be left out, and gives
    /// the function back.
    pub fn default_args(self, default: Vec<(String, PyObject)>) -> (r: Self)
        ensures
            r.default == default,
            r.codes == self.codes,
            r.arg == self.arg,
            r.run_default == self.run_default,
            r.kwargs == self.kwargs,
            r.args == self.args,
    {
        let mut f = self;
        f.default = default;
        f
    }

    /// Sets the statements, and gives the function back.
    pub fn codes(self, codes: Vec<Type>) -> (r: Self)
        ensures
            r.codes == codes,
            r.arg == self.arg,
            r.run_default == self.run_default,
            r.default == self.default,
            r.kwargs == self.kwargs,
            r.args == self.args,
    {
        let mut f = self;
        f.codes = codes;
        f
    }

    /// The values of the parameters of a call with the arguments `vec`;
    /// `None` where a parameter has neither an argument that the pool
    /// holds nor a default.
    fn parameters(&self, env: &PyNamespace, vec: &Vec<u128>) -> (r: Option<Vec<PyObject>>)
        requires
            env.wf(),
        ensures
            match r {
                Some(values) => values@.len() == self.arg@.len() && forall|i: int|
                    0 <= i < self.arg@.len() ==> parameter_value(*self, *env, vec@, i) == Some(
                        (#[trigger] values@[i])@,
                    ),
                None => exists|i: int|
                    0 <= i < self.arg@.len() && (#[trigger] parameter_value(*self, *env, vec@, i))
                        is None,
            },
    {
        let mut values: Vec<PyObject> = Vec::new();
        let mut i: usize = 0;
        while i < self.arg.len()
            invariant
                i <= self.arg.len(),
                env.wf(),
                values@.len() == i,
                forall|k: int|
                    0 <= k < i ==> parameter_value(*self, *env, vec@, k) == Some(
                        (#[trigger] values@[k])@,
                    ),
            decreases self.arg.len() - i,
        {
            let value = if i < vec.len() {
                env.variable_pool.get_value(vec[i])
            } else {
                match find(&self.default, &self.arg[i]) {
                    Some(k) => Some(self.default[k].1.clone()),
                    None => None,
                }
            };
            match value {
                Some(o) => {
                    values.push(o);
                },
                None => {
                    assert(parameter_value(*self, *env, vec@, i as int) is None);
                    return None;
                },
            }
            i += 1;
        }
        Some(values)
    }

    /// Opens the scope of a call of the function from the scope
    /// `namespace` with the arguments `vec`, which are identifiers of
    /// pooled values, and gives the scope; `name` is the name of the
    /// scope, and `id` the name that the call is reported under.
    ///
    /// The scope of the call is the scope of the call `name` where the
    /// call is made from the global scope, else the scope `name` nested in
    /// the one it is made from. It has to be new. The parameters are bound
    /// in it to the arguments, in order, and to their defaults where the
    /// arguments run out.
    ///
    /// A call from the built-in scope, a scope that exists already, and a
    /// parameter without a value are errors, and leave everything as it
    /// was.
    pub fn enter(
        &self,
        id: String,
        name: String,
        vec: &Vec<u128>,
        env: &mut PyNamespace,
        namespace: &Namespace,
    ) -> (r: Result<Namespace, ErrorType>)
        requires
            old(env).wf(),
            closed(*old(env)),
        ensures
            final(env).wf(),
            closed(*final(env)),
            if is_refused(*self, *old(env), vec@, namespace@, name@) {
                *final(env) == *old(env) && (r matches Err(ErrorType::BasicError(b)) && b.lexeme@
                    == id@ && b.unplaced())
            } else {
                r matches Ok(scope) && scope@ == child_scope(namespace@, name@) && store_of(
                    *final(env),
                ) == entered(*self, *old(env), vec@, scope@)
            },
    {
        let ghost call = name@;
        let scope = match namespace {
            Namespace::Builtin => {
                return Err(refused(id));
            },
            Namespace::Global => Namespace::Enclosing(name),
            Namespace::Enclosing(x) => {
                let mut path: Vec<String> = Vec::new();
                path.push(name);
                assert(names_of(path@) =~= seq![call]);
                Namespace::Local(x.clone(), path)
            },
            Namespace::Local(x, y) => {
                let mut path = clone_names(y);
                path.push(name);
                assert(names_of(path@) =~= names_of(y@).push(call));
                Namespace::Local(x.clone(), path)
            },
        };
        assert(scope@ == child_scope(namespace@, call));
        if env.has_scope(&scope) {
            return Err(refused(id));
        }
        let values = match self.parameters(env, vec) {
            Some(v) => v,
            None => {
                return Err(refused(id));
            },
        };
        let ghost expected = parameter_values(*self, *old(env), vec@);
        proof {
            assert forall|i: int| 0 <= i < self.arg@.len() implies (#[trigger] parameter_value(
                *self,
                *old(env),
                vec@,
                i,
            )) is Some by {
                assert(parameter_value(*self, *old(env), vec@, i) == Some(values@[i]@));
            }
            assert(values@.map_values(|o: PyObject| o@) =~= expected) by {
                assert forall|i: int| 0 <= i < expected.len() implies values@.map_values(
                    |o: PyObject| o@,
                )[i] == expected[i] by {
                    assert(parameter_value(*self, *old(env), vec@, i) == Some(values@[i]@));
                }
            }
        }
        let ghost start = store_of(*env);
        let ghost given = values@.map_values(|o: PyObject| o@);
        let ghost params = names_of(self.arg@);
        let mut i: usize = 0;
        while i < self.arg.len()
            invariant
                i <= self.arg.len(),
                values@.len() == self.arg@.len(),
                env.wf(),
                closed(*env),
                given == values@.map_values(|o: PyObject| o@),
                params == names_of(self.arg@),
                given == expected,
                with_parameters(start, scope@, params, given, 0) == with_parameters(
                    store_of(*env),
                    scope@,
                    params,
                    given,
                    i as int,
                ),
            decreases self.arg.len() - i,
        {
            let ghost pre = *env;
            let value = values[i].clone();
            let ghost v = value@;
            let uuid = env.set_any(scope.clone(), self.arg[i].clone(), value);
            proof {
                lemma_assigned(pre, *env, scope@, self.arg@[i as int]@, v, uuid);
            }
            i += 1;
        }
        assert(store_of(*env) == with_parameters(start, scope@, params, given, 0));
        Ok(scope)
    }

    /// Runs the statements of the function in the scope `scope` of a
    /// call, and gives the result of the call: the value of the last
    /// statement, if it has one, the error of a fault, or else `native`,
    /// what the native function of the host gave for the call.
    pub fn finish(
        &self,
        native: PyResult,
        scope: &Namespace,
        env: &mut PyNamespace,
        run: &mut RunState,
    ) -> (r: PyResult)
        requires
            old(env).wf(),
            closed(*old(env)),
        ensures
            is_finish_of(
                *self,
                store_of(*old(env)),
                *old(run),
                scope@,
                native,
                *final(env),
                *final(run),
                r,
            ),
    {
        match exec_commands(&self.codes, env, scope, run) {
            Ok(Type::Constant(x)) => PyResult::Value(x.value),
            Ok(_) => native,
            Err(e) => PyResult::Error(e),
        }
    }

    /// Calls the function from the scope `namespace` with the arguments
    /// `vec`, in a scope of its own that is named `name`: opens the scope
    /// as [`PyFunction::enter`] does, and runs the statements in it as
    /// [`PyFunction::finish`] does; `native` is what the native function
    /// of the host gave for the call, and `id` the name that the call is
    /// reported under.
    pub fn run_in(
        &self,
        id: String,
        name: String,
        native: PyResult,
        vec: Vec<u128>,
        env: &mut PyNamespace,
        namespace: &Namespace,
        run: &mut RunState,
    ) -> (r: PyResult)
        requires
            old(env).wf(),
            closed(*old(env)),
        ensures
            is_run_in(
                *self,
                *old(env),
                *old(run),
                vec@,
                namespace@,
                name@,
                id@,
                native,
                *final(env),
                *final(run),
                r,
            ),
    {
        match self.enter(id, name, &vec, env, namespace) {
            Ok(scope) => self.finish(native, &scope, env, run),
            Err(e) => PyResult::Error(e),
        }
    }

    /// Calls the function from the scope `namespace` with the arguments
    /// `vec`, in a new scope of its own, as [`PyFunction::run_in`] does
    /// under the name of that scope, which [`new_scope_name`] gives.
    pub fn run(
        &self,
        id: String,
        vec: Vec<u128>,
        native: PyResult,
        env: &mut PyNamespace,
        namespace: &Namespace,
        run: &mut RunState,
    ) -> (r: PyResult)
        requires
            old(env).wf(),
            closed(*old(env)),
        ensures
            is_run_of(
                *self,
                *old(env),
                *old(run),
                vec@,
                namespace@,
                id@,
                native,
                *final(env),
                *final(run),
                r,
            ),
    {
        let name = new_scope_name(env, namespace);
        let ghost call = name@;
        let r = self.run_in(id, name, native, vec, env, namespace, run);
        assert(!old(env).scope_exists(scope_path(child_scope(namespace@, call))));
        r
    }
}

/// The error of a call that is refused, reported under the name `id`.
fn refused(id: String) -> (r: ErrorType)
    ensures
        r matches ErrorType::BasicError(b) && b.lexeme == id && b.unplaced(),
{
    ErrorType::BasicError(BasicError { lexeme: id, col_offset: 0, lineno: 0 })
}

/// A name for the scope of a call from the scope `namespace`, under which
/// that scope does not exist yet. The name is drawn at random; one that
/// is taken is drawn again, and after a few such draws a name is made
/// that is not taken.
pub fn new_scope_name(env: &PyNamespace, namespace: &Namespace) -> (name: String)
    ensures
        !env.scope_exists(scope_path(child_scope(namespace@, name@))),
{
    let mut name = u128_to_string(new_uuid());
    let mut tries: u8 = 0;
    while tries < 3 && taken(env, namespace, &name)
        invariant
            tries <= 3,
        decreases 3 - tries,
    {
        name = u128_to_string(new_uuid());
        tries += 1;
    }
    if taken(env, namespace, &name) {
        name = env.unused_scope_name(namespace);
        assert(scope_path(namespace@).push(name@) =~= scope_path(child_scope(namespace@, name@)));
    }
    name
}

/// Whether the scope that a call from `namespace` would get under the name
/// `name` exists already.
fn taken(env: &PyNamespace, namespace: &Namespace, name: &String) -> (r: bool)
    ensures
        r == env.scope_exists(scope_path(child_scope(namespace@, name@))),
{
    let scope = match namespace {
        Namespace::Builtin => Namespace::Enclosing(name.clone()),
        Namespace::Global => Namespace::Enclosing(name.clone()),
        Namespace::Enclosing(x) => {
            let mut path: Vec<String> = Vec::new();
            path.push(name.clone());
            assert(names_of(path@) =~= seq![name@]);
            Namespace::Local(x.clone(), path)
        },
        Namespace::Local(x, y) => {
            let mut path = clone_names(y);
            path.push(name.clone());
            assert(names_of(path@) =~= names_of(y@).push(name@));
            Namespace::Local(x.clone(), path)
        },
    };
    env.has_scope(&scope)
}

/// Whether a call of `f` from the scope `from` with the arguments `given`
/// has led from `env` and `run` to `post` and `after` with the result `r`,
/// in a scope of its own that `env` did not have, as [`is_run_in`] says
/// for the name of that scope.
pub open spec fn is_run_of(
    f: PyFunction,
    env: PyNamespace,
    run: RunState,
    given: Seq<u128>,
    from: NamespaceView,
    id: Seq<char>,
    native: PyResult,
    post: PyNamespace,
    after: RunState,
    r: PyResult,
) -> bool {
    exists|name: Seq<char>|
        #![trigger child_scope(from, name)]
        !env.scope_exists(scope_path(child_scope(from, name))) && is_run_in(
            f,
            env,
            run,
            given,
            from,
            name,
            id,
            native,
            post,
            after,
            r,
        )
}

/// Whether a call of `f` from the scope `from` with the arguments `given`
/// is refused under the name `name` of its scope: it is made from the
/// built-in scope, the scope exists already, or a parameter has no value.
pub open spec fn is_refused(
    f: PyFunction,
    env: PyNamespace,
    given: Seq<u128>,
    from: NamespaceView,
    name: Seq<char>,
) -> bool {
    from is Builtin || env.scope_exists(scope_path(child_scope(from, name))) || (exists|i: int|
        0 <= i < f.arg@.len() && (#[trigger] parameter_value(f, env, given, i)) is None)
}

/// The values of the parameters of a call of `f` with the arguments
/// `given`.
pub open spec fn parameter_values(f: PyFunction, env: PyNamespace, given: Seq<u128>) -> Seq<
    PyObjectView,
> {
    Seq::new(f.arg@.len(), |i: int| parameter_value(f, env, given, i).unwrap())
}

/// The store once the scope `scope` of a call of `f` with the arguments
/// `given` is open: each parameter has its value there.
pub open spec fn entered(
    f: PyFunction,
    env: PyNamespace,
    given: Seq<u128>,
    scope: NamespaceView,
) -> Store {
    with_parameters(store_of(env), scope, names_of(f.arg@), parameter_values(f, env, given), 0)
}

/// Whether running the statements of `f` in the scope `scope` has led
/// from the store `store` and from `run` to `post` and `after` with the
/// result `r`: `r` is the value that the statements handed on, the error
/// of their fault, or else `native`, the result of the native function.
pub open spec fn is_finish_of(
    f: PyFunction,
    store: Store,
    run: RunState,
    scope: NamespaceView,
    native: PyResult,
    post: PyNamespace,
    after: RunState,
    r: PyResult,
) -> bool {
    let ran = run_commands(
        f.codes@,
        0,
        World { store, output: names_of(run.output@) },
        scope,
        run.limit as nat,
    );
    &&& post.wf()
    &&& closed(post)
    &&& after.limit == run.limit
    &&& store_of(post) == ran.world.store
    &&& names_of(after.output@) == ran.world.output
    &&& match ran.end {
        Ok(Signal::Value(v)) => r matches PyResult::Value(o) && o@ == v,
        Ok(_) => r == native,
        Err(fault) => r matches PyResult::Error(e) && is_fault(e, fault),
    }
}

/// Whether a call of `f` from the scope `from` with the arguments `given`,
/// in a scope of its own named `name`, has led from `env` and `run` to
/// `post` and `after` with the result `r`.
///
/// A call that is refused is an error, reported under the name `id`, and
/// changes nothing. Any other call gives the parameters their values in
/// its scope and runs the statements there.
pub open spec fn is_run_in(
    f: PyFunction,
    env: PyNamespace,
    run: RunState,
    given: Seq<u128>,
    from: NamespaceView,
    name: Seq<char>,
    id: Seq<char>,
    native: PyResult,
    post: PyNamespace,
    after: RunState,
    r: PyResult,
) -> bool {
    if is_refused(f, env, given, from, name) {
        post.wf() && closed(post) && post == env && after == run && (r matches PyResult::Error(
            ErrorType::BasicError(b),
        ) && b.lexeme@ == id && b.unplaced())
    } else {
        is_finish_of(
            f,
            entered(f, env, given, child_scope(from, name)),
            run,
            child_scope(from, name),
            native,
            post,
            after,
            r,
        )
    }
}

/// The behaviour that the object `o` has under the name `method`.
pub open spec fn behavior_of(o: PyObjectView, method: Seq<char>) -> PyObjBehaviorsView {
    if o.behaviors.dom().contains(method) {
        o.behaviors[method]
    } else {
        PyObjBehaviorsView::Nil
    }
}

/// The native value of the first of the arguments `given` of a call, which
/// is the operand of a native method.
pub open spec fn first_operand(env: PyNamespace, given: Seq<u128>) -> Option<
    crate::data_type::DataTypeView,
> {
    if given.len() > 0 {
        match env.value_of(given[0]) {
            Some(o) => payload_of(o),
            None => None,
        }
    } else {
        None
    }
}

impl PyObject {
    /// Calls the method `method` of the object with the arguments `args`,
    /// which are identifiers of pooled values, from the scope
    /// `namespace`.
    ///
    /// A native method is carried out on the object and the first
    /// argument, and changes nothing. An interpreted method is the
    /// function of its number in `functions`: the object is stored in the
    /// pool, and the function is called with the object as its first
    /// argument and `args` after it; `native` is what the native function
    /// of the host gave for the call. A method that the object does not
    /// implement, and a number that names no function, are errors and
    /// change nothing.
    pub fn call_with(
        &self,
        method: String,
        args: Vec<u128>,
        native: PyResult,
        functions: &Vec<PyFunction>,
        env: &mut PyNamespace,
        namespace: &Namespace,
        run: &mut RunState,
    ) -> (r: PyResult)
        requires
            old(env).wf(),
            closed(*old(env)),
        ensures
            final(env).wf(),
            closed(*final(env)),
            final(run).limit == old(run).limit,
            match behavior_of(self@, method@) {
                PyObjBehaviorsView::Rust(b) => *final(env) == *old(env) && *final(run) == *old(run)
                    && is_call_result(r, self@, method@, first_operand(*old(env), args@)),
                PyObjBehaviorsView::Interpreter(n) => if n < functions@.len() {
                    exists|mid: PyNamespace, me: u128|
                        #![trigger stores(old(env).variable_pool, self@, mid.variable_pool, me)]
                        stores(old(env).variable_pool, self@, mid.variable_pool, me)
                            && mid == (PyNamespace {
                            variable_pool: mid.variable_pool,
                            ..*old(env)
                        }) && store_of(mid) == store_of(*old(env)) && is_run_of(
                            functions@[n as int],
                            mid,
                            *old(run),
                            seq![me] + args@,
                            namespace@,
                            method@,
                            native,
                            *final(env),
                            *final(run),
                            r,
                        )
                } else {
                    *final(env) == *old(env) && *final(run) == *old(run) && (r
                        matches PyResult::Error(ErrorType::ObjMethodNotAttr(e)) && e.method@
                        == method@ && e.obj.identity@ == self.identity@
                        && e.obj.basic_error.blank())
                },
                PyObjBehaviorsView::Nil => *final(env) == *old(env) && *final(run) == *old(run)
                    && is_not_implemented(r, self@, method@),
            },
    {
        let number = match find(&self.behaviors, &method) {
            Some(i) => match &self.behaviors[i].1 {
                PyObjBehaviors::Interpreter(n) => Some(*n),
                _ => None,
            },
            None => None,
        };
        match number {
            Some(n) => {
                if n >= functions.len() as u64 {
                    return PyResult::Error(
                        ErrorType::ObjMethodNotAttr(
                            crate::error::object_error::ObjMethodNotAttr {
                                obj: crate::error::object_error::ObjBasicError {
                                    identity: self.identity.clone(),
                                    basic_error: BasicError::default(),
                                },
                                method,
                            },
                        ),
                    );
                }
                let ghost pre = *env;
                let me = env.variable_pool.store_new_value(self.clone());
                let ghost mid = *env;
                proof {
                    lemma_stored(pre, mid, self@, me);
                }
                let mut given: Vec<u128> = Vec::new();
                given.push(me);
                let mut rest = args;
                given.append(&mut rest);
                assert(given@ =~= seq![me] + args@);
                functions[n as usize].run(method, given, native, env, namespace, run)
            },
            None => {
                let mut frame: Frame = Vec::new();
                if args.len() > 0 {
                    match env.variable_pool.get_value(args[0]) {
                        Some(o) => {
                            frame.push((String::from_str("other"), PyVariable::Object(o)));
                        },
                        None => {},
                    }
                }
                proof {
                    crate::table::lemma_first_from(frame@, "other"@, 0);
                }
                let mut receiver = self.clone();
                receiver.call(method, frame)
            },
        }
    }
}

} // verus!
