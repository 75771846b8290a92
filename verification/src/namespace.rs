//! The scopes: four levels of tables that bind names to pooled values.
//!
//! The built-in scope and the global scope are one table each. Every call
//! has an enclosing scope of its own, found by the call's identifier, and
//! under it a tree of local scopes, one for each nested block that binds
//! names of its own, found by the path of their identifiers. A scope that
//! is written to comes into being with the first write, and so do the
//! scopes on the path to it.

use vstd::prelude::*;
use vstd::string::*;
use crate::error::environment::{GetVariableError, NamespaceNotFound, SetVariableError};
use crate::error::{BasicError, ErrorType};
use crate::object::{names_of, PyObject, PyObjectView};
use crate::pool::{stores, PoolEntry, VariablePool};
use crate::table::{
    bind, bound, find, index_of, lemma_bound, lemma_first_from, lemma_first_from_names,
    lemma_first_from_push, lookup, unused_key,
};

verus! {

/// A table from names to the identifiers of pooled values.
pub type PyEnvId = Vec<(String, u128)>;

/// A scope of a call: its own names, and the scopes nested in it.
#[derive(Debug)]
pub struct InterNamespace {
    pub namespace: PyEnvId,
    pub sub: Vec<(String, InterNamespace)>,
}

impl Default for InterNamespace {
    /// The scope that binds no name and has no nested scope.
    fn default() -> (r: Self)
        ensures
            r.namespace@.len() == 0,
            r.sub@.len() == 0,
    {
        InterNamespace { namespace: Vec::new(), sub: Vec::new() }
    }
}

/// Which scope is meant.
#[derive(Debug)]
pub enum Namespace {
    Builtin,
    Global,
    /// The scope of the call with this identifier.
    Enclosing(String),
    /// The scope at this path under the scope of the call with this
    /// identifier.
    Local(String, Vec<String>),
}

impl Clone for Namespace {
    fn clone(&self) -> (r: Self)
        ensures
            r.same_scope(*self),
    {
        match self {
            Namespace::Builtin => Namespace::Builtin,
            Namespace::Global => Namespace::Global,
            Namespace::Enclosing(x) => Namespace::Enclosing(x.clone()),
            Namespace::Local(x, y) => Namespace::Local(x.clone(), crate::object::clone_names(y)),
        }
    }
}

impl Namespace {
    /// Whether two values mean the same scope.
    pub open spec fn same_scope(self, other: Namespace) -> bool {
        match (self, other) {
            (Namespace::Builtin, Namespace::Builtin) => true,
            (Namespace::Global, Namespace::Global) => true,
            (Namespace::Enclosing(x), Namespace::Enclosing(y)) => x@ == y@,
            (Namespace::Local(x, p), Namespace::Local(y, q)) => x@ == y@ && names_of(p@) == names_of(
                q@,
            ),
            _ => false,
        }
    }

    /// The names of `names` from position `i` on, each in double quotes,
    /// with a comma and a blank between two.
    pub open spec fn listed(names: Seq<Seq<char>>, i: int) -> Seq<char>
        decreases names.len() - i,
    {
        if i < 0 || i >= names.len() {
            Seq::empty()
        } else if i + 1 == names.len() {
            seq!['"'] + names[i] + seq!['"']
        } else {
            seq!['"'] + names[i] + seq!['"'] + ", "@ + Self::listed(names, i + 1)
        }
    }

    /// The printed form of the scope: `Builtin`, `Global`,
    /// `Enclosing(call)`, or `Local(call,["a", "b"])`.
    pub open spec fn text(self) -> Seq<char> {
        scope_text(self@)
    }

    /// Prints the scope as [`Namespace::text`] says.
    pub fn to_string(&self) -> (s: String)
        ensures
            s@ == self.text(),
    {
        match self {
            Namespace::Builtin => String::from_str("Builtin"),
            Namespace::Global => String::from_str("Global"),
            Namespace::Enclosing(x) => {
                let mut s = String::from_str("Enclosing(");
                s.append(x.as_str());
                s.append(")");
                s
            },
            Namespace::Local(x, y) => {
                let mut s = String::from_str("Local(");
                s.append(x.as_str());
                s.append(",[");
                let ghost head = s@;
                let ghost names = names_of(y@);
                let mut i: usize = y.len();
                let mut tail = String::new();
                assert(tail@ =~= Self::listed(names, i as int));
                while i > 0
                    invariant
                        i <= y.len(),
                        names == names_of(y@),
                        tail@ == Self::listed(names, i as int),
                    decreases i,
                {
                    i -= 1;
                    let mut item = String::new();
                    crate::text::push_char(&mut item, '"');
                    item.append(y[i].as_str());
                    crate::text::push_char(&mut item, '"');
                    assert(item@ =~= seq!['"'] + names[i as int] + seq!['"']);
                    if i + 1 < y.len() {
                        item.append(", ");
                        item.append(tail.as_str());
                    }
                    tail = item;
                    assert(tail@ =~= Self::listed(names, i as int));
                }
                s.append(tail.as_str());
                s.append("])");
                s
            },
        }
    }
}

// ---------------------------------------------------------------------
// The tree of local scopes
// ---------------------------------------------------------------------

/// The scope that is reached from `ns` by the segments of `path` from
/// position `i` on; `None` where a segment names no nested scope.
pub open spec fn scope_from(ns: InterNamespace, path: Seq<Seq<char>>, i: int) -> Option<
    InterNamespace,
>
    decreases path.len() - i,
{
    if i < 0 || i >= path.len() {
        Some(ns)
    } else {
        match lookup(ns.sub@, path[i]) {
            Some(child) => scope_from(child, path, i + 1),
            None => None,
        }
    }
}

/// The identifier that the scope reached by `path` from position `i` on
/// binds `name` to.
pub open spec fn bound_from(ns: InterNamespace, path: Seq<Seq<char>>, i: int, name: Seq<char>) -> Option<
    u128,
> {
    match scope_from(ns, path, i) {
        Some(scope) => lookup(scope.namespace@, name),
        None => None,
    }
}

/// Whether `q` and `path` are the same from position `i` on.
pub open spec fn agrees_from(q: Seq<Seq<char>>, path: Seq<Seq<char>>, i: int) -> bool {
    q.len() == path.len() && forall|k: int| i <= k < path.len() ==> q[k] == path[k]
}

/// Whether `q`, from position `i` on, is the start of `path` from that
/// position on.
pub open spec fn starts_from(q: Seq<Seq<char>>, path: Seq<Seq<char>>, i: int) -> bool {
    q.len() <= path.len() && forall|k: int| i <= k < q.len() ==> q[k] == path[k]
}

/// A scope without names and nested scopes binds nothing and has only
/// itself below it.
proof fn lemma_empty_scope(ns: InterNamespace, q: Seq<Seq<char>>, i: int, name: Seq<char>)
    requires
        ns.namespace@.len() == 0,
        ns.sub@.len() == 0,
        0 <= i <= q.len(),
    ensures
        bound_from(ns, q, i, name) is None,
        scope_from(ns, q, i) is Some <==> i == q.len(),
{
}

/// Goes down from `ns` by the segments of `path` from position `index`
/// on, makes the scopes that are missing on the way, and binds `id` to
/// `uuid` in the scope at the end where a binding is given.
///
/// Afterwards the scopes below `ns` are those of before and those on the
/// path; the one binding is made, and every other name in every scope is
/// bound as before.
fn descend(
    ns: &mut InterNamespace,
    path: &Vec<String>,
    index: usize,
    binding: Option<(String, u128)>,
)
    requires
        index <= path.len(),
    ensures
        forall|q: Seq<Seq<char>>|
            index <= q.len() ==> ((#[trigger] scope_from(*final(ns), q, index as int)) is Some) == (
            scope_from(*old(ns), q, index as int) is Some || starts_from(
                q,
                names_of(path@),
                index as int,
            )),
        forall|q: Seq<Seq<char>>, name: Seq<char>|
            index <= q.len() ==> #[trigger] bound_from(*final(ns), q, index as int, name) == (
            if binding is Some && agrees_from(q, names_of(path@), index as int) && name
                == binding.unwrap().0@ {
                Some(binding.unwrap().1)
            } else {
                bound_from(*old(ns), q, index as int, name)
            }),
    decreases path.len() - index,
{
    let ghost pre = *ns;
    let ghost names = names_of(path@);
    if index >= path.len() {
        match binding {
            Some((id, uuid)) => {
                proof {
                    assert forall|name: Seq<char>|
                        lookup(bound(pre.namespace@, id, uuid), name) == (if name == id@ {
                            Some(uuid)
                        } else {
                            lookup(pre.namespace@, name)
                        }) by {
                        lemma_bound(pre.namespace@, id, uuid, name);
                    }
                }
                bind(&mut ns.namespace, id, uuid);
            },
            None => {},
        }
        return ;
    }
    let here = match find(&ns.sub, &path[index]) {
        Some(i) => i,
        None => {
            ns.sub.push((path[index].clone(), InterNamespace::default()));
            ns.sub.len() - 1
        },
    };
    let ghost mid = *ns;
    proof {
        lemma_first_from(pre.sub@, names[index as int], 0);
        assert forall|key: Seq<char>| #[trigger]
            lookup(mid.sub@, key) == (if index_of(pre.sub@, names[index as int]) is None && key
                == names[index as int] {
                Some(mid.sub@[here as int].1)
            } else {
                lookup(pre.sub@, key)
            }) by {
            if index_of(pre.sub@, names[index as int]) is None {
                lemma_first_from_push(pre.sub@, mid.sub@[here as int], key, 0);
                lemma_first_from(pre.sub@, key, 0);
            }
        }
        lemma_first_from(mid.sub@, names[index as int], 0);
        assert(index_of(mid.sub@, names[index as int]) == Some(here as int));
    }
    let entry = ns.sub.remove(here);
    let name = entry.0;
    let mut child = entry.1;
    let ghost child_before = child;
    descend(&mut child, path, index + 1, binding);
    let ghost child_after = child;
    ns.sub.insert(here, (name, child));
    proof {
        assert(ns.sub@ =~= mid.sub@.update(here as int, (name, child_after)));
        assert forall|key: Seq<char>| #[trigger]
            lookup(ns.sub@, key) == (if key == names[index as int] {
                Some(child_after)
            } else {
                lookup(mid.sub@, key)
            }) by {
            lemma_first_from_names(mid.sub@, ns.sub@, key, 0);
            lemma_first_from(mid.sub@, key, 0);
        }
        let created = index_of(pre.sub@, names[index as int]) is None;
        assert forall|q: Seq<Seq<char>>| index <= q.len() implies ((#[trigger] scope_from(
            *ns,
            q,
            index as int,
        )) is Some) == (scope_from(pre, q, index as int) is Some || starts_from(
            q,
            names,
            index as int,
        )) by {
            if q.len() > index {
                if q[index as int] == names[index as int] {
                    assert(scope_from(*ns, q, index as int) == scope_from(
                        child_after,
                        q,
                        index + 1,
                    ));
                    assert(starts_from(q, names, index as int) == starts_from(q, names, index + 1));
                    if created {
                        lemma_empty_scope(child_before, q, index + 1, Seq::empty());
                        assert(scope_from(pre, q, index as int) is None);
                    } else {
                        assert(scope_from(pre, q, index as int) == scope_from(
                            child_before,
                            q,
                            index + 1,
                        ));
                    }
                } else {
                    assert(lookup(ns.sub@, q[index as int]) == lookup(pre.sub@, q[index as int]));
                }
            }
        }
        assert forall|q: Seq<Seq<char>>, name: Seq<char>| index <= q.len() implies #[trigger] bound_from(
            *ns,
            q,
            index as int,
            name,
        ) == (if binding is Some && agrees_from(q, names, index as int) && name
            == binding.unwrap().0@ {
            Some(binding.unwrap().1)
        } else {
            bound_from(pre, q, index as int, name)
        }) by {
            if q.len() > index {
                if q[index as int] == names[index as int] {
                    assert(scope_from(*ns, q, index as int) == scope_from(
                        child_after,
                        q,
                        index + 1,
                    ));
                    assert(bound_from(*ns, q, index as int, name) == bound_from(
                        child_after,
                        q,
                        index + 1,
                        name,
                    ));
                    assert(agrees_from(q, names, index as int) == agrees_from(q, names, index + 1));
                    if created {
                        lemma_empty_scope(child_before, q, index + 1, name);
                        assert(scope_from(pre, q, index as int) is None);
                    } else {
                        assert(scope_from(pre, q, index as int) == scope_from(
                            child_before,
                            q,
                            index + 1,
                        ));
                    }
                } else {
                    assert(lookup(ns.sub@, q[index as int]) == lookup(pre.sub@, q[index as int]));
                    assert(!agrees_from(q, names, index as int));
                }
            } else {
                assert(!agrees_from(q, names, index as int));
            }
        }
    }
}

/// The scope that is reached from `ns` by the segments of `path` from
/// position `index` on, or the first segment that names no nested scope.
pub fn deref_local_namespace_non_mut<'a>(
    ns: &'a InterNamespace,
    path: &Vec<String>,
    index: usize,
) -> (r: Result<&'a InterNamespace, ErrorType>)
    requires
        index <= path.len(),
    ensures
        match scope_from(*ns, names_of(path@), index as int) {
            Some(scope) => r matches Ok(s) && *s == scope,
            None => r matches Err(ErrorType::NamespaceNotFound(e)) && e.basic_error.blank()
                && exists|k: int|
                index <= k < path.len() && e.namespace@ == path@[k]@,
        },
    decreases path.len() - index,
{
    if index >= path.len() {
        return Ok(ns);
    }
    assert(names_of(path@)[index as int] == path@[index as int]@);
    match find(&ns.sub, &path[index]) {
        Some(i) => deref_local_namespace_non_mut(&ns.sub[i].1, path, index + 1),
        None => Err(NamespaceNotFound::new(BasicError::default(), path[index].clone())),
    }
}

// ---------------------------------------------------------------------
// The four levels
// ---------------------------------------------------------------------

/// The mathematical value of a [`Namespace`].
pub enum NamespaceView {
    Builtin,
    Global,
    Enclosing(Seq<char>),
    Local(Seq<char>, Seq<Seq<char>>),
}

impl View for Namespace {
    type V = NamespaceView;

    open spec fn view(&self) -> NamespaceView {
        match self {
            Namespace::Builtin => NamespaceView::Builtin,
            Namespace::Global => NamespaceView::Global,
            Namespace::Enclosing(x) => NamespaceView::Enclosing(x@),
            Namespace::Local(x, y) => NamespaceView::Local(x@, names_of(y@)),
        }
    }
}

/// The printed form of a scope: `Builtin`, `Global`, `Enclosing(call)`,
/// or `Local(call,["a", "b"])`.
pub open spec fn scope_text(scope: NamespaceView) -> Seq<char> {
    match scope {
        NamespaceView::Builtin => "Builtin"@,
        NamespaceView::Global => "Global"@,
        NamespaceView::Enclosing(x) => "Enclosing("@ + x + ")"@,
        NamespaceView::Local(x, y) => "Local("@ + x + ",["@ + Namespace::listed(y, 0) + "])"@,
    }
}

/// The path of a scope of a call: the call's identifier, then the
/// identifiers of the nested scopes.
pub open spec fn path_of(call: Seq<char>, local: Seq<Seq<char>>) -> Seq<Seq<char>> {
    seq![call] + local
}

/// The path of a scope of a call; no path for the other two scopes.
pub open spec fn scope_path(scope: NamespaceView) -> Seq<Seq<char>> {
    match scope {
        NamespaceView::Enclosing(x) => seq![x],
        NamespaceView::Local(x, y) => path_of(x, y),
        _ => Seq::empty(),
    }
}

/// Whether two values mean the same scope: both the built-in one, both
/// the global one, or both the scope of a call at the same path. The
/// scope of a call is also the nested scope at the empty path under it.
pub open spec fn same_place(a: NamespaceView, b: NamespaceView) -> bool {
    if a is Builtin || b is Builtin {
        a is Builtin && b is Builtin
    } else if a is Global || b is Global {
        a is Global && b is Global
    } else {
        scope_path(a) == scope_path(b)
    }
}

/// The scopes and the pool of values.
pub struct PyNamespace {
    pub variable_pool: VariablePool,
    pub builtin_namespace: PyEnvId,
    pub global_namespace: PyEnvId,
    pub enclosing_namespace: Vec<(String, InterNamespace)>,
}

impl Default for PyNamespace {
    /// No scope binds a name, no call has a scope, and the pool holds
    /// nothing.
    fn default() -> (r: Self)
        ensures
            r.wf(),
            r.variable_pool@ == Map::<u128, PoolEntry>::empty(),
            r.builtin_namespace@.len() == 0,
            r.global_namespace@.len() == 0,
            r.enclosing_namespace@.len() == 0,
            forall|scope: NamespaceView, name: Seq<char>| (#[trigger] r.id_in(scope, name)) is None,
            forall|q: Seq<Seq<char>>| !(#[trigger] r.scope_exists(q)),
            closed(r),
    {
        PyNamespace {
            variable_pool: VariablePool::default(),
            builtin_namespace: Vec::new(),
            global_namespace: Vec::new(),
            enclosing_namespace: Vec::new(),
        }
    }
}

/// Whether every identifier that a scope of `env` binds a name to is held
/// by the pool of `env`.
pub open spec fn closed(env: PyNamespace) -> bool {
    forall|scope: NamespaceView, name: Seq<char>|
        (#[trigger] env.id_in(scope, name)) is Some ==> env.variable_pool@.dom().contains(
            env.id_in(scope, name).unwrap(),
        )
}

/// An environment without dangling identifiers stays one where the pool
/// keeps its identifiers and every binding is as it was or is to an
/// identifier that the pool holds.
pub proof fn lemma_closed_kept(pre: PyNamespace, post: PyNamespace)
    requires
        closed(pre),
        forall|id: u128|
            pre.variable_pool@.dom().contains(id) ==> #[trigger] post.variable_pool@.dom().contains(
                id,
            ),
        forall|scope: NamespaceView, name: Seq<char>|
            (#[trigger] post.id_in(scope, name)) is Some ==> post.id_in(scope, name) == pre.id_in(
                scope,
                name,
            ) || post.variable_pool@.dom().contains(post.id_in(scope, name).unwrap()),
    ensures
        closed(post),
{
    assert forall|scope: NamespaceView, name: Seq<char>|
        (#[trigger] post.id_in(scope, name)) is Some implies post.variable_pool@.dom().contains(
        post.id_in(scope, name).unwrap(),
    ) by {
        if post.id_in(scope, name) == pre.id_in(scope, name) {
            assert(pre.variable_pool@.dom().contains(pre.id_in(scope, name).unwrap()));
        }
    }
}

/// A path with one more name leads to a scope where the path leads to
/// one in which a scope of that name is nested.
proof fn lemma_scope_extended(ns: InterNamespace, path: Seq<Seq<char>>, name: Seq<char>, i: int)
    requires
        0 <= i <= path.len(),
    ensures
        scope_from(ns, path.push(name), i) is Some <==> (scope_from(ns, path, i) matches Some(s)
            && lookup(s.sub@, name) is Some),
    decreases path.len() - i,
{
    let q = path.push(name);
    if i == path.len() {
        assert(q[i] == name);
        match lookup(ns.sub@, name) {
            Some(child) => {
                assert(scope_from(child, q, i + 1) == Some(child));
            },
            None => {},
        }
    } else {
        assert(q[i] == path[i]);
        match lookup(ns.sub@, path[i]) {
            Some(child) => {
                lemma_scope_extended(child, path, name, i + 1);
            },
            None => {},
        }
    }
}

/// The path made of the call's identifier and the identifiers of the
/// nested scopes.
fn full_path(namespace_id: &String, local_id: &Vec<String>) -> (r: Vec<String>)
    ensures
        names_of(r@) == path_of(namespace_id@, names_of(local_id@)),
        r@.len() == local_id@.len() + 1,
{
    let mut r: Vec<String> = Vec::new();
    r.push(namespace_id.clone());
    let mut i: usize = 0;
    while i < local_id.len()
        invariant
            i <= local_id.len(),
            r@.len() == i + 1,
            r@[0]@ == namespace_id@,
            forall|k: int| 0 <= k < i ==> r@[k + 1]@ == local_id@[k]@,
        decreases local_id.len() - i,
    {
        r.push(local_id[i].clone());
        i += 1;
    }
    assert(names_of(r@) =~= path_of(namespace_id@, names_of(local_id@)));
    r
}

impl PyNamespace {
    /// The environment is well formed: its pool is.
    pub open spec fn wf(&self) -> bool {
        self.variable_pool.wf()
    }

    /// Whether the scope at the path `q` exists.
    pub open spec fn scope_exists(&self, q: Seq<Seq<char>>) -> bool {
        q.len() >= 1 && (match lookup(self.enclosing_namespace@, q[0]) {
            Some(ns) => scope_from(ns, q, 1) is Some,
            None => false,
        })
    }

    /// The identifier that the scope at the path `q` binds `name` to.
    pub open spec fn scope_id(&self, q: Seq<Seq<char>>, name: Seq<char>) -> Option<u128> {
        if q.len() >= 1 {
            match lookup(self.enclosing_namespace@, q[0]) {
                Some(ns) => bound_from(ns, q, 1, name),
                None => None,
            }
        } else {
            None
        }
    }

    /// Whether the scope `scope` is a nested scope that is missing under a
    /// call whose own scope exists: a segment of its path names no scope.
    pub open spec fn segment_missing(&self, scope: NamespaceView) -> bool {
        scope matches NamespaceView::Local(x, y) && self.scope_exists(seq![x])
            && !self.scope_exists(path_of(x, y))
    }

    /// Whether `e` is the error of a lookup of `name` in the scope `scope`
    /// that finds nothing. A name that the scope does not bind, and a call
    /// that has no scope at all, is a lookup error that names the name and
    /// the scope. Only a nested scope that is missing under an existing
    /// call is reported as a scope that was not found, by one of the
    /// segments of its path.
    pub open spec fn is_miss(&self, e: ErrorType, scope: NamespaceView, name: Seq<char>) -> bool {
        if self.segment_missing(scope) {
            e matches ErrorType::NamespaceNotFound(x) && x.basic_error.blank() && (scope matches
            NamespaceView::Local(_, y) && y.contains(x.namespace@))
        } else {
            e matches ErrorType::GetVariableError(x) && x.basic_error.blank() && x.id@ == name
                && x.namespace@ == scope_text(scope)
        }
    }

    /// Whether `e` is the error of looking up the value of `name` in the
    /// scope `scope` itself, which has none: a name that is bound to an
    /// identifier that the pool does not hold is missing, and the error
    /// names it and the scope; a name that is not bound is reported as
    /// [`PyNamespace::is_miss`] says.
    pub open spec fn is_lookup_error(
        &self,
        e: ErrorType,
        scope: NamespaceView,
        name: Seq<char>,
    ) -> bool {
        if self.id_in(scope, name) is Some {
            e matches ErrorType::GetVariableError(x) && x.basic_error.blank() && x.id@ == name
                && x.namespace@ == scope_text(scope)
        } else {
            self.is_miss(e, scope, name)
        }
    }

    /// The identifier that the scope `scope` itself binds `name` to.
    pub open spec fn id_in(&self, scope: NamespaceView, name: Seq<char>) -> Option<u128> {
        match scope {
            NamespaceView::Builtin => lookup(self.builtin_namespace@, name),
            NamespaceView::Global => lookup(self.global_namespace@, name),
            NamespaceView::Enclosing(x) => self.scope_id(seq![x], name),
            NamespaceView::Local(x, y) => self.scope_id(path_of(x, y), name),
        }
    }

    /// The value that the pool holds under `id`.
    pub open spec fn value_of(&self, id: u128) -> Option<PyObjectView> {
        if self.variable_pool@.dom().contains(id) {
            Some(self.variable_pool@[id].value)
        } else {
            None
        }
    }

    /// The value of `name` in the scope `scope` itself.
    pub open spec fn value_in(&self, scope: NamespaceView, name: Seq<char>) -> Option<
        PyObjectView,
    > {
        match self.id_in(scope, name) {
            Some(id) => self.value_of(id),
            None => None,
        }
    }

    /// The identifier that `name` resolves to when it is looked up from
    /// the scope `scope`: the binding of the scope itself, else that of
    /// the scopes around it, from the inside out: for a nested scope its
    /// call's scope, then the global scope, then the built-in scope.
    pub open spec fn resolved(&self, scope: NamespaceView, name: Seq<char>) -> Option<u128> {
        let builtin = lookup(self.builtin_namespace@, name);
        let global = match lookup(self.global_namespace@, name) {
            Some(id) => Some(id),
            None => builtin,
        };
        match scope {
            NamespaceView::Builtin => builtin,
            NamespaceView::Global => global,
            NamespaceView::Enclosing(x) => match self.scope_id(seq![x], name) {
                Some(id) => Some(id),
                None => global,
            },
            NamespaceView::Local(x, y) => match self.scope_id(path_of(x, y), name) {
                Some(id) => Some(id),
                None => match self.scope_id(seq![x], name) {
                    Some(id) => Some(id),
                    None => global,
                },
            },
        }
    }

    /// The value under the identifier that a table binds `id` to.
    fn get_from_env(&self, py_env_id: &PyEnvId, id: &String) -> (r: Option<PyObject>)
        requires
            self.wf(),
        ensures
            match lookup(py_env_id@, id@) {
                Some(uuid) => match self.value_of(uuid) {
                    Some(v) => r matches Some(o) && o@ == v,
                    None => r is None,
                },
                None => r is None,
            },
    {
        match find(py_env_id, id) {
            Some(i) => self.variable_pool.get_value(py_env_id[i].1),
            None => None,
        }
    }

    /// The value of `id` in the built-in scope.
    pub fn get_builtin(&self, id: String) -> (r: Result<PyObject, ErrorType>)
        requires
            self.wf(),
        ensures
            match self.value_in(NamespaceView::Builtin, id@) {
                Some(v) => r matches Ok(o) && o@ == v,
                None => r matches Err(ErrorType::GetVariableError(e)) && e.basic_error.blank()
                    && e.id@ == id@
                    && e.namespace@ == "Builtin"@,
            },
    {
        match self.get_from_env(&self.builtin_namespace, &id) {
            Some(x) => Ok(x),
            None => Err(GetVariableError::new(
                BasicError::default(),
                id,
                String::from_str("Builtin"),
            )),
        }
    }

    /// Stores `value` and binds `id` to it in the built-in scope.
    pub fn set_builtin(&mut self, id: String, value: PyObject) -> (uuid: u128)
        requires
            old(self).wf(),
        ensures
            stores(old(self).variable_pool, value@, final(self).variable_pool, uuid),
            final(self).builtin_namespace@ == bound(old(self).builtin_namespace@, id, uuid),
            final(self).global_namespace == old(self).global_namespace,
            final(self).enclosing_namespace == old(self).enclosing_namespace,
            closed(*old(self)) ==> closed(*final(self)),
    {
        let uuid = self.variable_pool.store_new_value(value);
        bind(&mut self.builtin_namespace, id, uuid);
        proof {
            if closed(*old(self)) {
                assert forall|scope: NamespaceView, name: Seq<char>|
                    (#[trigger] self.id_in(scope, name)) is Some implies self.id_in(scope, name)
                    == old(self).id_in(scope, name) || self.id_in(scope, name) == Some(uuid) by {
                    lemma_bound(old(self).builtin_namespace@, id, uuid, name);
                }
                lemma_closed_kept(*old(self), *self);
            }
        }
        uuid
    }

    /// Puts `value` in the place of the value of `id` in the built-in scope;
    /// an error where the scope does not bind `id`.
    ///
    /// The value is put under the identifier that `id` is bound to, for
    /// every name that is bound to it. Where the pool holds an equal value
    /// under another identifier, `id` is bound to that one instead, as
    /// storing the value does, and the other names keep what they had.
    pub fn update_builtin(&mut self, id: String, value: PyObject) -> (r: Option<ErrorType>)
        requires
            old(self).wf(),
        ensures
            final(self).wf(),
            final(self).global_namespace == old(self).global_namespace,
            final(self).enclosing_namespace == old(self).enclosing_namespace,
            closed(*old(self)) ==> closed(*final(self)),
            match lookup(old(self).builtin_namespace@, id@) {
                Some(uuid) => r is None && (if old(self).variable_pool.held_elsewhere(
                    uuid,
                    value@,
                ) {
                    stores(
                        old(self).variable_pool,
                        value@,
                        final(self).variable_pool,
                        old(self).variable_pool.holder(value@).unwrap(),
                    ) && final(self).builtin_namespace@ == bound(
                        old(self).builtin_namespace@,
                        id,
                        old(self).variable_pool.holder(value@).unwrap(),
                    )
                } else {
                    final(self).builtin_namespace == old(self).builtin_namespace
                        && final(self).variable_pool@ == old(self).variable_pool@.insert(
                        uuid,
                        PoolEntry {
                            value: value@,
                            count: if old(self).variable_pool@.dom().contains(uuid) {
                                old(self).variable_pool@[uuid].count
                            } else {
                                1
                            },
                        },
                    )
                }),
                None => r matches Some(ErrorType::SetVariableError(e)) && e.basic_error.blank()
                    && e.id@ == id@ && e.namespace@ == "Builtin"@ && *final(self) == *old(self),
            },
    {
        match find(&self.builtin_namespace, &id) {
            None => Some(
                SetVariableError::new(BasicError::default(), id, String::from_str("Builtin")),
            ),
            Some(i) => {
                let uuid = self.builtin_namespace[i].1;
                let now = self.variable_pool.update_value(uuid, value);
                if now != uuid {
                    bind(&mut self.builtin_namespace, id, now);
                }
                proof {
                    if closed(*old(self)) {
                        assert forall|scope: NamespaceView, name: Seq<char>|
                            (#[trigger] self.id_in(scope, name)) is Some implies self.id_in(
                            scope,
                            name,
                        ) == old(self).id_in(scope, name) || self.id_in(scope, name) == Some(
                            now,
                        ) by {
                            if now != uuid {
                                lemma_bound(old(self).builtin_namespace@, id, now, name);
                            }
                        }
                        lemma_closed_kept(*old(self), *self);
                    }
                }
                None
            },
        }
    }

    /// The value of `id` in the global scope.
    pub fn get_global(&self, id: String) -> (r: Result<PyObject, ErrorType>)
        requires
            self.wf(),
        ensures
            match self.value_in(NamespaceView::Global, id@) {
                Some(v) => r matches Ok(o) && o@ == v,
                None => r matches Err(ErrorType::GetVariableError(e)) && e.basic_error.blank()
                    && e.id@ == id@
                    && e.namespace@ == "Global"@,
            },
    {
        match self.get_from_env(&self.global_namespace, &id) {
            Some(x) => Ok(x),
            None => Err(GetVariableError::new(
                BasicError::default(),
                id,
                String::from_str("Global"),
            )),
        }
    }

    /// Stores `value` and binds `id` to it in the global scope.
    pub fn set_global(&mut self, id: String, value: PyObject) -> (uuid: u128)
        requires
            old(self).wf(),
        ensures
            stores(old(self).variable_pool, value@, final(self).variable_pool, uuid),
            final(self).global_namespace@ == bound(old(self).global_namespace@, id, uuid),
            final(self).builtin_namespace == old(self).builtin_namespace,
            final(self).enclosing_namespace == old(self).enclosing_namespace,
            closed(*old(self)) ==> closed(*final(self)),
    {
        let uuid = self.variable_pool.store_new_value(value);
        bind(&mut self.global_namespace, id, uuid);
        proof {
            if closed(*old(self)) {
                assert forall|scope: NamespaceView, name: Seq<char>|
                    (#[trigger] self.id_in(scope, name)) is Some implies self.id_in(scope, name)
                    == old(self).id_in(scope, name) || self.id_in(scope, name) == Some(uuid) by {
                    lemma_bound(old(self).global_namespace@, id, uuid, name);
                }
                lemma_closed_kept(*old(self), *self);
            }
        }
        uuid
    }

    /// Puts `value` in the place of the value of `id` in the global scope;
    /// an error where the scope does not bind `id`.
    ///
    /// The value is put under the identifier that `id` is bound to, for
    /// every name that is bound to it. Where the pool holds an equal value
    /// under another identifier, `id` is bound to that one instead, as
    /// storing the value does, and the other names keep what they had.
    pub fn update_global(&mut self, id: String, value: PyObject) -> (r: Option<ErrorType>)
        requires
            old(self).wf(),
        ensures
            final(self).wf(),
            final(self).builtin_namespace == old(self).builtin_namespace,
            final(self).enclosing_namespace == old(self).enclosing_namespace,
            closed(*old(self)) ==> closed(*final(self)),
            match lookup(old(self).global_namespace@, id@) {
                Some(uuid) => r is None && (if old(self).variable_pool.held_elsewhere(
                    uuid,
                    value@,
                ) {
                    stores(
                        old(self).variable_pool,
                        value@,
                        final(self).variable_pool,
                        old(self).variable_pool.holder(value@).unwrap(),
                    ) && final(self).global_namespace@ == bound(
                        old(self).global_namespace@,
                        id,
                        old(self).variable_pool.holder(value@).unwrap(),
                    )
                } else {
                    final(self).global_namespace == old(self).global_namespace
                        && final(self).variable_pool@ == old(self).variable_pool@.insert(
                        uuid,
                        PoolEntry {
                            value: value@,
                            count: if old(self).variable_pool@.dom().contains(uuid) {
                                old(self).variable_pool@[uuid].count
                            } else {
                                1
                            },
                        },
                    )
                }),
                None => r matches Some(ErrorType::SetVariableError(e)) && e.basic_error.blank()
                    && e.id@ == id@ && e.namespace@ == "Global"@ && *final(self) == *old(self),
            },
    {
        match find(&self.global_namespace, &id) {
            None => Some(
                SetVariableError::new(BasicError::default(), id, String::from_str("Global")),
            ),
            Some(i) => {
                let uuid = self.global_namespace[i].1;
                let now = self.variable_pool.update_value(uuid, value);
                if now != uuid {
                    bind(&mut self.global_namespace, id, now);
                }
                proof {
                    if closed(*old(self)) {
                        assert forall|scope: NamespaceView, name: Seq<char>|
                            (#[trigger] self.id_in(scope, name)) is Some implies self.id_in(
                            scope,
                            name,
                        ) == old(self).id_in(scope, name) || self.id_in(scope, name) == Some(
                            now,
                        ) by {
                            if now != uuid {
                                lemma_bound(old(self).global_namespace@, id, now, name);
                            }
                        }
                        lemma_closed_kept(*old(self), *self);
                    }
                }
                None
            },
        }
    }

    /// Goes to the scope at `path`, makes the scopes that are missing on
    /// the way, and makes the binding where one is given.
    fn write_scope(&mut self, path: &Vec<String>, binding: Option<(String, u128)>)
        requires
            path.len() >= 1,
        ensures
            final(self).variable_pool == old(self).variable_pool,
            final(self).builtin_namespace == old(self).builtin_namespace,
            final(self).global_namespace == old(self).global_namespace,
            forall|q: Seq<Seq<char>>| #[trigger]
                final(self).scope_exists(q) == (old(self).scope_exists(q) || (q.len() >= 1
                    && starts_from(q, names_of(path@), 0))),
            forall|q: Seq<Seq<char>>, name: Seq<char>| #[trigger]
                final(self).scope_id(q, name) == (if binding is Some && q == names_of(path@)
                    && name == binding.unwrap().0@ {
                    Some(binding.unwrap().1)
                } else {
                    old(self).scope_id(q, name)
                }),
    {
        let ghost pre = *self;
        let ghost names = names_of(path@);
        let mut scopes: Vec<(String, InterNamespace)> = Vec::new();
        core::mem::swap(&mut scopes, &mut self.enclosing_namespace);
        let mut root = InterNamespace { namespace: Vec::new(), sub: scopes };
        let ghost root_before = root;
        descend(&mut root, path, 0, binding);
        let ghost root_after = root;
        self.enclosing_namespace = root.sub;
        proof {
            assert forall|q: Seq<Seq<char>>| #[trigger]
                self.scope_exists(q) == (pre.scope_exists(q) || (q.len() >= 1 && starts_from(
                    q,
                    names,
                    0,
                ))) by {
                if q.len() >= 1 {
                    assert(self.scope_exists(q) == (scope_from(root_after, q, 0) is Some));
                    assert(pre.scope_exists(q) == (scope_from(root_before, q, 0) is Some));
                }
            }
            assert forall|q: Seq<Seq<char>>, name: Seq<char>| #[trigger]
                self.scope_id(q, name) == (if binding is Some && q == names && name
                    == binding.unwrap().0@ {
                    Some(binding.unwrap().1)
                } else {
                    pre.scope_id(q, name)
                }) by {
                if q.len() >= 1 {
                    assert(self.scope_id(q, name) == bound_from(root_after, q, 0, name));
                    assert(pre.scope_id(q, name) == bound_from(root_before, q, 0, name));
                    if agrees_from(q, names, 0) {
                        assert(q =~= names);
                    }
                } else {
                    assert(q != names);
                }
            }
        }
    }

    /// Makes the scope of the call `namespace_id`, unless there is one.
    /// Every binding stays as it is.
    pub fn create_enclosing_namespace(&mut self, namespace_id: String)
        ensures
            final(self).variable_pool == old(self).variable_pool,
            final(self).builtin_namespace == old(self).builtin_namespace,
            final(self).global_namespace == old(self).global_namespace,
            final(self).scope_exists(seq![namespace_id@]),
            forall|q: Seq<Seq<char>>| #[trigger]
                final(self).scope_exists(q) == (old(self).scope_exists(q) || q == seq![
                    namespace_id@,
                ]),
            forall|q: Seq<Seq<char>>, name: Seq<char>| #[trigger]
                final(self).scope_id(q, name) == old(self).scope_id(q, name),
            closed(*old(self)) ==> closed(*final(self)),
    {
        let local: Vec<String> = Vec::new();
        let path = full_path(&namespace_id, &local);
        assert(names_of(path@) =~= seq![namespace_id@]);
        self.write_scope(&path, None);
        proof {
            if closed(*old(self)) {
                lemma_closed_kept(*old(self), *self);
            }
            assert forall|q: Seq<Seq<char>>| #[trigger]
                self.scope_exists(q) == (old(self).scope_exists(q) || q == seq![
                    namespace_id@,
                ]) by {
                if q.len() >= 1 && starts_from(q, names_of(path@), 0) {
                    assert(q =~= seq![namespace_id@]);
                }
                if q == seq![namespace_id@] {
                    assert(starts_from(q, names_of(path@), 0));
                }
            }
        }
    }

    /// Makes the scope at the path `local_id` under the call
    /// `namespace_id`, and every scope on the way to it, unless they are
    /// there. Every binding stays as it is.
    pub fn create_local_namespace(&mut self, namespace_id: String, local_id: Vec<String>)
        ensures
            final(self).variable_pool == old(self).variable_pool,
            final(self).builtin_namespace == old(self).builtin_namespace,
            final(self).global_namespace == old(self).global_namespace,
            final(self).scope_exists(path_of(namespace_id@, names_of(local_id@))),
            forall|q: Seq<Seq<char>>| #[trigger]
                final(self).scope_exists(q) == (old(self).scope_exists(q) || (q.len() >= 1
                    && starts_from(q, path_of(namespace_id@, names_of(local_id@)), 0))),
            forall|q: Seq<Seq<char>>, name: Seq<char>| #[trigger]
                final(self).scope_id(q, name) == old(self).scope_id(q, name),
            closed(*old(self)) ==> closed(*final(self)),
    {
        let path = full_path(&namespace_id, &local_id);
        self.write_scope(&path, None);
        assert(starts_from(names_of(path@), names_of(path@), 0));
        proof {
            if closed(*old(self)) {
                lemma_closed_kept(*old(self), *self);
            }
        }
    }

    /// Stores `value` and binds `id` to it in the scope of the call
    /// `namespace_id`, which is made if it is not there. Every other
    /// binding stays as it is.
    pub fn set_enclosing(&mut self, namespace_id: String, id: String, value: PyObject) -> (uuid:
        u128)
        requires
            old(self).wf(),
        ensures
            stores(old(self).variable_pool, value@, final(self).variable_pool, uuid),
            final(self).builtin_namespace == old(self).builtin_namespace,
            final(self).global_namespace == old(self).global_namespace,
            forall|q: Seq<Seq<char>>, name: Seq<char>| #[trigger]
                final(self).scope_id(q, name) == (if q == seq![namespace_id@] && name == id@ {
                    Some(uuid)
                } else {
                    old(self).scope_id(q, name)
                }),
            forall|q: Seq<Seq<char>>| #[trigger]
                final(self).scope_exists(q) == (old(self).scope_exists(q) || q == seq![
                    namespace_id@,
                ]),
            closed(*old(self)) ==> closed(*final(self)),
    {
        let uuid = self.variable_pool.store_new_value(value);
        let local: Vec<String> = Vec::new();
        let path = full_path(&namespace_id, &local);
        assert(names_of(path@) =~= seq![namespace_id@]);
        self.write_scope(&path, Some((id, uuid)));
        proof {
            if closed(*old(self)) {
                lemma_closed_kept(*old(self), *self);
            }
            assert forall|q: Seq<Seq<char>>| #[trigger]
                self.scope_exists(q) == (old(self).scope_exists(q) || q == seq![
                    namespace_id@,
                ]) by {
                if q.len() >= 1 && starts_from(q, names_of(path@), 0) {
                    assert(q =~= seq![namespace_id@]);
                }
                if q == seq![namespace_id@] {
                    assert(starts_from(q, names_of(path@), 0));
                }
            }
        }
        uuid
    }

    /// Stores `value` and binds `id` to it in the scope at the path
    /// `local_id` under the call `namespace_id`; the scope and those on
    /// the way to it are made if they are not there. Every other binding
    /// stays as it is.
    pub fn set_local(
        &mut self,
        namespace_id: String,
        local_id: Vec<String>,
        id: String,
        value: PyObject,
    ) -> (uuid: u128)
        requires
            old(self).wf(),
        ensures
            stores(old(self).variable_pool, value@, final(self).variable_pool, uuid),
            final(self).builtin_namespace == old(self).builtin_namespace,
            final(self).global_namespace == old(self).global_namespace,
            forall|q: Seq<Seq<char>>, name: Seq<char>| #[trigger]
                final(self).scope_id(q, name) == (if q == path_of(
                    namespace_id@,
                    names_of(local_id@),
                ) && name == id@ {
                    Some(uuid)
                } else {
                    old(self).scope_id(q, name)
                }),
            forall|q: Seq<Seq<char>>| #[trigger]
                final(self).scope_exists(q) == (old(self).scope_exists(q) || (q.len() >= 1
                    && starts_from(q, path_of(namespace_id@, names_of(local_id@)), 0))),
            closed(*old(self)) ==> closed(*final(self)),
    {
        let uuid = self.variable_pool.store_new_value(value);
        let path = full_path(&namespace_id, &local_id);
        self.write_scope(&path, Some((id, uuid)));
        proof {
            if closed(*old(self)) {
                lemma_closed_kept(*old(self), *self);
            }
        }
        uuid
    }

    /// Binds `id` to the pooled value `uuid` in the scope `name`, which is
    /// made if it is not there. Every other binding stays as it is.
    pub fn set_any_from_uuid(&mut self, name: Namespace, id: String, uuid: u128)
        ensures
            final(self).variable_pool == old(self).variable_pool,
            forall|scope: NamespaceView, other: Seq<char>| #[trigger]
                final(self).id_in(scope, other) == (if same_place(scope, name@) && other == id@ {
                    Some(uuid)
                } else {
                    old(self).id_in(scope, other)
                }),
            forall|q: Seq<Seq<char>>| #[trigger]
                final(self).scope_exists(q) == (old(self).scope_exists(q) || (q.len() >= 1
                    && scope_path(name@).len() >= 1 && starts_from(q, scope_path(name@), 0))),
            closed(*old(self)) && old(self).variable_pool@.dom().contains(uuid) ==> closed(
                *final(self),
            ),
    {
        let ghost pre = *self;
        match name {
            Namespace::Builtin => {
                proof {
                    assert forall|other: Seq<char>|
                        lookup(bound(pre.builtin_namespace@, id, uuid), other) == (if other
                            == id@ {
                            Some(uuid)
                        } else {
                            lookup(pre.builtin_namespace@, other)
                        }) by {
                        lemma_bound(pre.builtin_namespace@, id, uuid, other);
                    }
                }
                bind(&mut self.builtin_namespace, id, uuid);
            },
            Namespace::Global => {
                proof {
                    assert forall|other: Seq<char>|
                        lookup(bound(pre.global_namespace@, id, uuid), other) == (if other == id@ {
                            Some(uuid)
                        } else {
                            lookup(pre.global_namespace@, other)
                        }) by {
                        lemma_bound(pre.global_namespace@, id, uuid, other);
                    }
                }
                bind(&mut self.global_namespace, id, uuid);
            },
            Namespace::Enclosing(x) => {
                let local: Vec<String> = Vec::new();
                let path = full_path(&x, &local);
                assert(names_of(path@) =~= seq![x@]);
                self.write_scope(&path, Some((id, uuid)));
                proof {
                    assert forall|scope: NamespaceView, other: Seq<char>| #[trigger]
                        self.id_in(scope, other) == (if same_place(scope, name@) && other == id@ {
                            Some(uuid)
                        } else {
                            pre.id_in(scope, other)
                        }) by {
                        assert(self.id_in(scope, other) == if scope is Builtin || scope is Global {
                            pre.id_in(scope, other)
                        } else {
                            self.scope_id(scope_path(scope), other)
                        });
                    }
                }
            },
            Namespace::Local(x, y) => {
                let path = full_path(&x, &y);
                self.write_scope(&path, Some((id, uuid)));
                proof {
                    assert forall|scope: NamespaceView, other: Seq<char>| #[trigger]
                        self.id_in(scope, other) == (if same_place(scope, name@) && other == id@ {
                            Some(uuid)
                        } else {
                            pre.id_in(scope, other)
                        }) by {
                        assert(self.id_in(scope, other) == if scope is Builtin || scope is Global {
                            pre.id_in(scope, other)
                        } else {
                            self.scope_id(scope_path(scope), other)
                        });
                    }
                }
            },
        }
        proof {
            if closed(pre) && pre.variable_pool@.dom().contains(uuid) {
                lemma_closed_kept(pre, *self);
            }
        }
    }

    /// Stores `value` and binds `id` to it in the scope `name`, which is
    /// made if it is not there. Every other binding stays as it is.
    pub fn set_any(&mut self, name: Namespace, id: String, value: PyObject) -> (uuid: u128)
        requires
            old(self).wf(),
        ensures
            stores(old(self).variable_pool, value@, final(self).variable_pool, uuid),
            forall|scope: NamespaceView, other: Seq<char>| #[trigger]
                final(self).id_in(scope, other) == (if same_place(scope, name@) && other == id@ {
                    Some(uuid)
                } else {
                    old(self).id_in(scope, other)
                }),
            forall|q: Seq<Seq<char>>| #[trigger]
                final(self).scope_exists(q) == (old(self).scope_exists(q) || (q.len() >= 1
                    && scope_path(name@).len() >= 1 && starts_from(q, scope_path(name@), 0))),
            closed(*old(self)) ==> closed(*final(self)),
    {
        let uuid = self.variable_pool.store_new_value(value);
        self.set_any_from_uuid(name, id, uuid);
        proof {
            if closed(*old(self)) {
                lemma_closed_kept(*old(self), *self);
            }
        }
        uuid
    }
}

/// The first `k` names of a list.
fn take_names(names: &Vec<String>, k: usize) -> (r: Vec<String>)
    requires
        k <= names.len(),
    ensures
        names_of(r@) == names_of(names@).take(k as int),
{
    let mut r: Vec<String> = Vec::new();
    let mut i: usize = 0;
    while i < k
        invariant
            i <= k <= names.len(),
            r@.len() == i,
            forall|j: int| 0 <= j < i ==> r@[j]@ == names@[j]@,
        decreases k - i,
    {
        r.push(names[i].clone());
        i += 1;
    }
    assert(names_of(r@) =~= names_of(names@).take(k as int));
    r
}

impl PyNamespace {
    /// How deep the innermost scope around the nested scope at `local`
    /// lies that binds `name`: the largest depth below `k` at which the
    /// scope on the path binds it. Depth 0 is the scope of the call.
    pub open spec fn nonlocal_depth(
        &self,
        call: Seq<char>,
        local: Seq<Seq<char>>,
        name: Seq<char>,
        k: int,
    ) -> Option<int>
        decreases k,
    {
        if k <= 0 {
            None
        } else if self.scope_id(path_of(call, local.take(k - 1)), name) is Some {
            Some(k - 1)
        } else {
            self.nonlocal_depth(call, local, name, k - 1)
        }
    }

    /// The identifier that the scope at `path` binds `id` to. A nested
    /// scope that is missing under an existing call is reported by the
    /// first segment that names no scope; every other miss is a lookup
    /// error that names `id` and the scope as `shown`.
    fn get_scope_id(&self, path: &Vec<String>, id: &String, shown: String) -> (r: Result<
        u128,
        ErrorType,
    >)
        requires
            path.len() >= 1,
        ensures
            match self.scope_id(names_of(path@), id@) {
                Some(uuid) => r matches Ok(x) && x == uuid,
                None => if self.scope_exists(seq![names_of(path@)[0]]) && !self.scope_exists(
                    names_of(path@),
                ) {
                    r matches Err(ErrorType::NamespaceNotFound(e)) && e.basic_error.blank()
                        && exists|k: int|
                        1 <= k < path@.len() && e.namespace@ == #[trigger] names_of(path@)[k]
                } else {
                    r matches Err(ErrorType::GetVariableError(e)) && e.basic_error.blank()
                        && e.id@ == id@ && e.namespace
                        == shown
                },
            },
    {
        assert(names_of(path@)[0] == path@[0]@);
        let root = match find(&self.enclosing_namespace, &path[0]) {
            Some(i) => &self.enclosing_namespace[i].1,
            None => {
                return Err(GetVariableError::new(BasicError::default(), id.clone(), shown));
            },
        };
        assert(scope_from(*root, seq![names_of(path@)[0]], 1) is Some);
        match deref_local_namespace_non_mut(root, path, 1) {
            Ok(scope) => match find(&scope.namespace, id) {
                Some(i) => Ok(scope.namespace[i].1),
                None => Err(GetVariableError::new(BasicError::default(), id.clone(), shown)),
            },
            Err(e) => {
                proof {
                    if e is NamespaceNotFound {
                        let missing = e->NamespaceNotFound_0.namespace@;
                        let k = choose|k: int| 1 <= k < path.len() && missing == path@[k]@;
                        assert(names_of(path@)[k] == path@[k]@);
                    }
                }
                Err(e)
            },
        }
    }

    /// A name under which no scope is nested in the scope `scope`; for
    /// the global and the built-in scope, a name under which no call has
    /// a scope.
    pub fn unused_scope_name(&self, scope: &Namespace) -> (r: String)
        ensures
            !self.scope_exists(scope_path(scope@).push(r@)),
    {
        match scope {
            Namespace::Enclosing(x) => match find(&self.enclosing_namespace, x) {
                Some(i) => {
                    let r = unused_key(&self.enclosing_namespace[i].1.sub);
                    proof {
                        lemma_scope_extended(self.enclosing_namespace@[i as int].1, seq![x@], r@, 1);
                    }
                    r
                },
                None => String::from_str("0"),
            },
            Namespace::Local(x, y) => {
                let path = full_path(x, y);
                let r = match find(&self.enclosing_namespace, x) {
                    Some(i) => match deref_local_namespace_non_mut(
                        &self.enclosing_namespace[i].1,
                        &path,
                        1,
                    ) {
                        Ok(s) => unused_key(&s.sub),
                        Err(_) => String::from_str("0"),
                    },
                    None => String::from_str("0"),
                };
                proof {
                    assert(names_of(path@)[0] == x@);
                    if lookup(self.enclosing_namespace@, x@) is Some {
                        lemma_scope_extended(
                            lookup(self.enclosing_namespace@, x@).unwrap(),
                            names_of(path@),
                            r@,
                            1,
                        );
                    }
                }
                r
            },
            _ => {
                let r = unused_key(&self.enclosing_namespace);
                assert(scope_path(scope@).push(r@)[0] == r@);
                r
            },
        }
    }

    /// Whether the scope `scope` exists. The built-in scope and the global
    /// scope always do; the scope of a call and a nested scope do once
    /// they have been made or written to.
    pub fn has_scope(&self, scope: &Namespace) -> (r: bool)
        ensures
            r == (scope is Builtin || scope is Global || self.scope_exists(scope_path(scope@))),
    {
        match scope {
            Namespace::Builtin => true,
            Namespace::Global => true,
            Namespace::Enclosing(x) => {
                proof {
                    lemma_first_from(self.enclosing_namespace@, x@, 0);
                }
                find(&self.enclosing_namespace, x).is_some()
            },
            Namespace::Local(x, y) => {
                let path = full_path(x, y);
                assert(names_of(path@)[0] == x@);
                match find(&self.enclosing_namespace, x) {
                    Some(i) => deref_local_namespace_non_mut(
                        &self.enclosing_namespace[i].1,
                        &path,
                        1,
                    ).is_ok(),
                    None => false,
                }
            },
        }
    }

    /// The identifier that the scope `namespace` itself binds `id` to; the
    /// error of a miss is as [`PyNamespace::is_miss`] says.
    pub fn get_any_uuid(&self, namespace: Namespace, id: String) -> (r: Result<u128, ErrorType>)
        ensures
            match self.id_in(namespace@, id@) {
                Some(uuid) => r matches Ok(x) && x == uuid,
                None => r matches Err(e) && self.is_miss(e, namespace@, id@),
            },
    {
        let shown = namespace.to_string();
        match namespace {
            Namespace::Builtin => match find(&self.builtin_namespace, &id) {
                Some(i) => Ok(self.builtin_namespace[i].1),
                None => Err(GetVariableError::new(BasicError::default(), id, shown)),
            },
            Namespace::Global => match find(&self.global_namespace, &id) {
                Some(i) => Ok(self.global_namespace[i].1),
                None => Err(GetVariableError::new(BasicError::default(), id, shown)),
            },
            Namespace::Enclosing(x) => {
                let local: Vec<String> = Vec::new();
                let path = full_path(&x, &local);
                assert(names_of(path@) =~= seq![x@]);
                self.get_scope_id(&path, &id, shown)
            },
            Namespace::Local(x, y) => {
                let path = full_path(&x, &y);
                let r = self.get_scope_id(&path, &id, shown);
                proof {
                    let names = names_of(path@);
                    assert(names[0] == x@);
                    if r is Err && r->Err_0 is NamespaceNotFound {
                        let missing = r->Err_0->NamespaceNotFound_0.namespace@;
                        let k = choose|k: int|
                            1 <= k < path@.len() && missing == #[trigger] names[k];
                        assert(names_of(y@)[k - 1] == names[k]);
                    }
                }
                r
            },
        }
    }

    /// The value of `id` in the scope `namespace` itself. The error of a
    /// miss is as [`PyNamespace::is_miss`] says; an identifier that the
    /// pool does not hold is a lookup error too.
    pub fn get_any(&self, namespace: Namespace, id: String) -> (r: Result<PyObject, ErrorType>)
        requires
            self.wf(),
        ensures
            match self.value_in(namespace@, id@) {
                Some(v) => r matches Ok(o) && o@ == v,
                None => r matches Err(e) && self.is_lookup_error(e, namespace@, id@),
            },
    {
        let shown = namespace.to_string();
        let name = id.clone();
        match self.get_any_uuid(namespace, id) {
            Ok(uuid) => match self.variable_pool.get_value(uuid) {
                Some(o) => Ok(o),
                None => Err(GetVariableError::new(BasicError::default(), name, shown)),
            },
            Err(e) => Err(e),
        }
    }

    /// The value of `id` in the scope of the call `namespace_id`.
    pub fn get_enclosing(&self, namespace_id: String, id: String) -> (r: Result<
        PyObject,
        ErrorType,
    >)
        requires
            self.wf(),
        ensures
            match self.value_in(NamespaceView::Enclosing(namespace_id@), id@) {
                Some(v) => r matches Ok(o) && o@ == v,
                None => r matches Err(e) && self.is_lookup_error(
                    e,
                    NamespaceView::Enclosing(namespace_id@),
                    id@,
                ),
            },
    {
        self.get_any(Namespace::Enclosing(namespace_id), id)
    }

    /// The value of `id` in the scope at the path `local_id` under the
    /// call `namespace_id`.
    pub fn get_local(&self, namespace_id: String, local_id: Vec<String>, id: String) -> (r: Result<
        PyObject,
        ErrorType,
    >)
        requires
            self.wf(),
        ensures
            match self.value_in(NamespaceView::Local(namespace_id@, names_of(local_id@)), id@) {
                Some(v) => r matches Ok(o) && o@ == v,
                None => r matches Err(e) && self.is_lookup_error(
                    e,
                    NamespaceView::Local(namespace_id@, names_of(local_id@)),
                    id@,
                ),
            },
    {
        self.get_any(Namespace::Local(namespace_id, local_id), id)
    }

    /// The value of `id` in the innermost scope around the nested scope at
    /// `local_id` that binds it, and the path of that scope; an error
    /// where none of them binds it, and another where the pool does not
    /// hold what the name is bound to.
    pub fn get_nonlocal(&self, namespace_id: String, local_id: Vec<String>, id: String) -> (r:
        Result<(PyObject, Vec<String>), ErrorType>)
        requires
            self.wf(),
        ensures
            match self.nonlocal_depth(
                namespace_id@,
                names_of(local_id@),
                id@,
                local_id@.len() as int,
            ) {
                Some(depth) => match self.value_in(
                    NamespaceView::Local(namespace_id@, names_of(local_id@).take(depth)),
                    id@,
                ) {
                    Some(v) => r matches Ok(found) && found.0@ == v && names_of(found.1@)
                        == names_of(local_id@).take(depth),
                    None => r matches Err(ErrorType::GetVariableError(e)) && e.basic_error.blank()
                        && e.id@ == id@
                        && e.namespace@ == namespace_id@,
                },
                None => r matches Err(ErrorType::GetNonlocalVariableError(e))
                    && e.basic_error.blank() && e.id@ == id@
                    && e.namespace@ == namespace_id@,
            },
    {
        let ghost local = names_of(local_id@);
        let mut k: usize = local_id.len();
        while k > 0
            invariant
                k <= local_id.len(),
                self.wf(),
                local == names_of(local_id@),
                self.nonlocal_depth(namespace_id@, local, id@, local_id@.len() as int)
                    == self.nonlocal_depth(namespace_id@, local, id@, k as int),
            decreases k,
        {
            let outer = take_names(&local_id, k - 1);
            let path = full_path(&namespace_id, &outer);
            match self.get_scope_id(&path, &id, String::new()) {
                Ok(uuid) => {
                    return match self.variable_pool.get_value(uuid) {
                        Some(o) => Ok((o, outer)),
                        None => Err(
                            GetVariableError::new(BasicError::default(), id, namespace_id),
                        ),
                    };
                },
                Err(_) => {},
            }
            k -= 1;
        }
        Err(
            ErrorType::GetNonlocalVariableError(
                crate::error::environment::GetNonlocalVariableError {
                    basic_error: BasicError::default(),
                    id,
                    namespace: namespace_id,
                },
            ),
        )
    }

    /// The identifier that `id` resolves to when it is looked up from the
    /// scope `scope`, as [`PyNamespace::resolved`] says; the error names
    /// the identifier and the scope it was sought from.
    pub fn resolve(&self, scope: &Namespace, id: &String) -> (r: Result<u128, ErrorType>)
        ensures
            match self.resolved(scope@, id@) {
                Some(uuid) => r matches Ok(x) && x == uuid,
                None => r matches Err(ErrorType::GetVariableError(e)) && e.basic_error.blank()
                    && e.id@ == id@
                    && e.namespace@ == scope.text(),
            },
    {
        match scope {
            Namespace::Builtin => {},
            Namespace::Global => {},
            Namespace::Enclosing(x) => {
                match self.get_any_uuid(Namespace::Enclosing(x.clone()), id.clone()) {
                    Ok(uuid) => {
                        return Ok(uuid);
                    },
                    Err(_) => {},
                }
            },
            Namespace::Local(x, y) => {
                let copy = crate::object::clone_names(y);
                match self.get_any_uuid(Namespace::Local(x.clone(), copy), id.clone()) {
                    Ok(uuid) => {
                        return Ok(uuid);
                    },
                    Err(_) => {},
                }
                match self.get_any_uuid(Namespace::Enclosing(x.clone()), id.clone()) {
                    Ok(uuid) => {
                        return Ok(uuid);
                    },
                    Err(_) => {},
                }
            },
        }
        let in_global = match scope {
            Namespace::Builtin => None,
            _ => find(&self.global_namespace, id),
        };
        match in_global {
            Some(i) => Ok(self.global_namespace[i].1),
            None => match find(&self.builtin_namespace, id) {
                Some(i) => Ok(self.builtin_namespace[i].1),
                None => Err(
                    GetVariableError::new(BasicError::default(), id.clone(), scope.to_string()),
                ),
            },
        }
    }

    /// The value that `id` resolves to when it is looked up from the scope
    /// `scope`.
    pub fn lookup_variable(&self, scope: &Namespace, id: &String) -> (r: Result<
        PyObject,
        ErrorType,
    >)
        requires
            self.wf(),
        ensures
            match self.resolved(scope@, id@) {
                Some(uuid) => match self.value_of(uuid) {
                    Some(v) => r matches Ok(o) && o@ == v,
                    None => r matches Err(ErrorType::GetVariableError(e)) && e.basic_error.blank()
                        && e.id@ == id@
                        && e.namespace@ == scope.text(),
                },
                None => r matches Err(ErrorType::GetVariableError(e)) && e.basic_error.blank()
                    && e.id@ == id@
                    && e.namespace@ == scope.text(),
            },
    {
        match self.resolve(scope, id) {
            Ok(uuid) => match self.variable_pool.get_value(uuid) {
                Some(o) => Ok(o),
                None => Err(
                    GetVariableError::new(BasicError::default(), id.clone(), scope.to_string()),
                ),
            },
            Err(e) => Err(e),
        }
    }
}

/// A name that both the global scope and the scope of a call bind
/// resolves to the binding of the call when it is looked up from inside
/// the call, and to the global binding when it is looked up from the
/// global scope.
pub proof fn lemma_resolution_order(
    env: PyNamespace,
    call: Seq<char>,
    name: Seq<char>,
    inner: u128,
    outer: u128,
)
    requires
        env.id_in(NamespaceView::Enclosing(call), name) == Some(inner),
        env.id_in(NamespaceView::Global, name) == Some(outer),
    ensures
        env.resolved(NamespaceView::Enclosing(call), name) == Some(inner),
        env.resolved(NamespaceView::Global, name) == Some(outer),
{
}

/// A name that no scope of a call binds resolves, from inside the call, to
/// the global binding, and to the built-in one where the global scope
/// does not bind it either.
pub proof fn lemma_resolution_falls_back(env: PyNamespace, call: Seq<char>, name: Seq<char>)
    requires
        env.id_in(NamespaceView::Enclosing(call), name) is None,
    ensures
        env.resolved(NamespaceView::Enclosing(call), name) == env.resolved(
            NamespaceView::Global,
            name,
        ),
        env.id_in(NamespaceView::Global, name) is None ==> env.resolved(
            NamespaceView::Global,
            name,
        ) == env.id_in(NamespaceView::Builtin, name),
{
}

} // verus!
