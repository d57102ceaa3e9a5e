//! Lexical environments: scopes of names and values, each with a link to
//! the scope around it.
//!
//! The scopes live in one arena and are named by their index in it. A scope
//! is shared by all who hold its handle, and it stays as long as the arena
//! does, so a function that was made in a block still reaches the block's
//! variables after the block has ended. A scope's parent is older than the
//! scope, so no chain of parents ever comes back to where it started.
use crate::primitive::{object_view, LoxObject, ObjectView};
use vstd::prelude::*;

verus! {

pub enum EnvironmentError {
    AssignUndefinedVariable(String),
    ReadUndefinedVariable(String),
}

/// The mathematical value of a scope: its names with the value of each,
/// and the handle of its parent.
pub struct ScopeView {
    pub names: Seq<Seq<char>>,
    pub values: Seq<ObjectView>,
    pub parent: Option<nat>,
}

/// Where `name` stands in a list of names: the last place, where there are several.
pub open spec fn index_of(names: Seq<Seq<char>>, name: Seq<char>) -> Option<int>
    decreases names.len(),
{
    if names.len() == 0 {
        None
    } else if names.last() == name {
        Some(names.len() - 1)
    } else {
        index_of(names.drop_last(), name)
    }
}

impl ScopeView {
    /// Every name has its value, and no name occurs twice.
    pub open spec fn wf(self) -> bool {
        &&& self.names.len() == self.values.len()
        &&& forall|i: int, j: int|
            0 <= i < j < self.names.len() ==> self.names[i] != self.names[j]
    }

    /// The value that the scope itself gives to `name`.
    pub open spec fn own(self, name: Seq<char>) -> Option<ObjectView> {
        match index_of(self.names, name) {
            Some(i) => Some(self.values[i]),
            None => None,
        }
    }

    /// The scope with `name` bound to `value`, whether or not it was bound before.
    pub open spec fn with(self, name: Seq<char>, value: ObjectView) -> ScopeView {
        match index_of(self.names, name) {
            Some(i) => ScopeView { values: self.values.update(i, value), ..self },
            None => ScopeView {
                names: self.names.push(name),
                values: self.values.push(value),
                ..self
            },
        }
    }
}

/// Every scope is well formed and younger than its parent.
pub open spec fn chained(scopes: Seq<ScopeView>) -> bool {
    forall|i: int|
        0 <= i < scopes.len() ==> (#[trigger] scopes[i]).wf() && (scopes[i].parent matches Some(p)
            ==> p < i)
}

/// The nearest scope that binds `name`, from `scope` outwards.
pub open spec fn resolve(scopes: Seq<ScopeView>, scope: int, name: Seq<char>) -> Option<int>
    decreases scope,
{
    if !(0 <= scope < scopes.len()) {
        None
    } else if scopes[scope].own(name) is Some {
        Some(scope)
    } else {
        match scopes[scope].parent {
            Some(p) => if p < scope {
                resolve(scopes, p as int, name)
            } else {
                None
            },
            None => None,
        }
    }
}

/// The value of `name` as seen from `scope`.
pub open spec fn lookup(scopes: Seq<ScopeView>, scope: int, name: Seq<char>) -> Option<ObjectView> {
    match resolve(scopes, scope, name) {
        Some(s) => scopes[s].own(name),
        None => None,
    }
}

/// The scopes after `name` was defined in `scope`; a handle that names no
/// scope defines nothing.
pub open spec fn defined(scopes: Seq<ScopeView>, scope: int, name: Seq<char>, value: ObjectView) -> Seq<
    ScopeView,
> {
    if 0 <= scope < scopes.len() {
        scopes.update(scope, scopes[scope].with(name, value))
    } else {
        scopes
    }
}

/// The scopes and one more, empty, inside `parent`; a parent that names no
/// scope is no parent.
pub open spec fn extended(scopes: Seq<ScopeView>, parent: Option<nat>) -> Seq<ScopeView> {
    scopes.push(
        ScopeView {
            names: Seq::empty(),
            values: Seq::empty(),
            parent: match parent {
                Some(p) => if p < scopes.len() {
                    Some(p)
                } else {
                    None
                },
                None => None,
            },
        },
    )
}

/// The scopes after `value` was assigned to `name` as seen from `scope`; no
/// scope changes where the name is bound nowhere.
pub open spec fn assigned(scopes: Seq<ScopeView>, scope: int, name: Seq<char>, value: ObjectView) -> Seq<
    ScopeView,
> {
    match resolve(scopes, scope, name) {
        Some(s) => scopes.update(s, scopes[s].with(name, value)),
        None => scopes,
    }
}

/// The scopes and one more, which holds what `scope` holds and has the
/// parent that `scope` has; an empty one without parent where the handle
/// names no scope.
pub open spec fn copied(scopes: Seq<ScopeView>, scope: int) -> Seq<ScopeView> {
    if 0 <= scope < scopes.len() {
        scopes.push(scopes[scope])
    } else {
        extended(scopes, None)
    }
}

/// A name stands at the place that `index_of` gives, and nowhere where it gives none.
pub proof fn index_of_found(names: Seq<Seq<char>>, name: Seq<char>)
    ensures
        match index_of(names, name) {
            Some(i) => 0 <= i < names.len() && names[i] == name,
            None => forall|j: int| 0 <= j < names.len() ==> names[j] != name,
        },
    decreases names.len(),
{
    if names.len() > 0 && names.last() != name {
        index_of_found(names.drop_last(), name);
        if index_of(names, name) is None {
            assert forall|j: int| 0 <= j < names.len() implies names[j] != name by {
                if j < names.len() - 1 {
                    assert(names.drop_last()[j] == names[j]);
                }
            }
        }
    }
}

/// Binding a name changes what the scope gives that name, and nothing else.
pub proof fn with_binds(scope: ScopeView, name: Seq<char>, value: ObjectView, other: Seq<char>)
    requires
        scope.wf(),
    ensures
        scope.with(name, value).wf(),
        scope.with(name, value).parent == scope.parent,
        scope.with(name, value).own(name) == Some(value),
        other != name ==> scope.with(name, value).own(other) == scope.own(other),
{
    index_of_found(scope.names, name);
    let after = scope.with(name, value);
    match index_of(scope.names, name) {
        Some(i) => {
            assert(after.names == scope.names);
            index_of_found(scope.names, other);
        },
        None => {
            assert(after.names.drop_last() =~= scope.names);
            assert(after.values.drop_last() =~= scope.values);
            index_of_found(scope.names, other);
            assert forall|i: int, j: int| 0 <= i < j < after.names.len() implies after.names[i]
                != after.names[j] by {
                if j < scope.names.len() {
                    assert(after.names[i] == scope.names[i]);
                    assert(after.names[j] == scope.names[j]);
                } else {
                    assert(after.names[i] == scope.names[i]);
                }
            }
        },
    }
}

/// What a definition changes: the scope it is made in, and there the one name.
pub proof fn defined_scopes(
    scopes: Seq<ScopeView>,
    scope: int,
    name: Seq<char>,
    value: ObjectView,
)
    requires
        chained(scopes),
    ensures
        chained(defined(scopes, scope, name, value)),
        defined(scopes, scope, name, value).len() == scopes.len(),
{
    if 0 <= scope < scopes.len() {
        with_binds(scopes[scope], name, value, name);
    }
}

/// After `define(k, v)`, `get(k)` in the same scope is `v`.
pub proof fn define_then_get(scopes: Seq<ScopeView>, scope: int, name: Seq<char>, value: ObjectView)
    requires
        chained(scopes),
        0 <= scope < scopes.len(),
    ensures
        lookup(defined(scopes, scope, name, value), scope, name) == Some(value),
{
    with_binds(scopes[scope], name, value, name);
}

/// A definition does not touch any other name, seen from anywhere.
pub proof fn define_keeps_others(
    scopes: Seq<ScopeView>,
    scope: int,
    name: Seq<char>,
    value: ObjectView,
    from: int,
    other: Seq<char>,
)
    requires
        chained(scopes),
        other != name,
    ensures
        lookup(defined(scopes, scope, name, value), from, other) == lookup(scopes, from, other),
        resolve(defined(scopes, scope, name, value), from, other) == resolve(scopes, from, other),
    decreases from,
{
    if 0 <= scope < scopes.len() {
        with_binds(scopes[scope], name, value, other);
    }
    if 0 <= from < scopes.len() {
        let after = defined(scopes, scope, name, value);
        assert(after[from].own(other) == scopes[from].own(other));
        assert(after[from].parent == scopes[from].parent);
        if scopes[from].own(other) is None {
            if let Some(p) = scopes[from].parent {
                if p < from {
                    define_keeps_others(scopes, scope, name, value, p as int, other);
                }
            }
        }
    }
}

/// The scope that a name resolves to binds the name and lies in the arena.
pub proof fn resolve_found(scopes: Seq<ScopeView>, scope: int, name: Seq<char>)
    ensures
        match resolve(scopes, scope, name) {
            Some(s) => 0 <= s <= scope && s < scopes.len() && scopes[s].own(name) is Some,
            None => lookup(scopes, scope, name) is None,
        },
    decreases scope,
{
    if 0 <= scope < scopes.len() && scopes[scope].own(name) is None {
        if let Some(p) = scopes[scope].parent {
            if p < scope {
                resolve_found(scopes, p as int, name);
            }
        }
    }
}

/// An assignment keeps every name resolving to the scope it resolved to.
pub proof fn assign_keeps_resolution(
    scopes: Seq<ScopeView>,
    scope: int,
    name: Seq<char>,
    value: ObjectView,
    from: int,
    other: Seq<char>,
)
    requires
        chained(scopes),
    ensures
        resolve(assigned(scopes, scope, name, value), from, other) == resolve(scopes, from, other),
        chained(assigned(scopes, scope, name, value)),
        assigned(scopes, scope, name, value).len() == scopes.len(),
    decreases from,
{
    resolve_found(scopes, scope, name);
    if let Some(s) = resolve(scopes, scope, name) {
        with_binds(scopes[s], name, value, other);
        with_binds(scopes[s], name, value, name);
        let after = assigned(scopes, scope, name, value);
        if 0 <= from < scopes.len() {
            assert(after[from].parent == scopes[from].parent);
            assert(after[from].own(other) is Some == scopes[from].own(other) is Some);
            if scopes[from].own(other) is None {
                if let Some(p) = scopes[from].parent {
                    if p < from {
                        assign_keeps_resolution(scopes, scope, name, value, p as int, other);
                    }
                }
            }
        }
    }
}

/// An assignment to a name that no scope of the chain binds is an error,
/// and changes nothing; any other assignment is seen by a later `get`.
pub proof fn assign_then_get(scopes: Seq<ScopeView>, scope: int, name: Seq<char>, value: ObjectView)
    requires
        chained(scopes),
    ensures
        lookup(scopes, scope, name) is None ==> resolve(scopes, scope, name) is None && assigned(
            scopes,
            scope,
            name,
            value,
        ) == scopes,
        lookup(scopes, scope, name) is Some ==> lookup(
            assigned(scopes, scope, name, value),
            scope,
            name,
        ) == Some(value),
{
    resolve_found(scopes, scope, name);
    assign_keeps_resolution(scopes, scope, name, value, scope, name);
    if let Some(s) = resolve(scopes, scope, name) {
        with_binds(scopes[s], name, value, name);
    }
}

/// A closure sees the current value of a variable, not the value at the
/// time it was made: where the scope that a function captured and the
/// scope of an assignment resolve a name to the same binding, the function
/// reads what was assigned.
pub proof fn assignment_seen_through_closure(
    scopes: Seq<ScopeView>,
    scope: int,
    closure: int,
    name: Seq<char>,
    value: ObjectView,
)
    requires
        chained(scopes),
        resolve(scopes, scope, name) is Some,
        resolve(scopes, closure, name) == resolve(scopes, scope, name),
    ensures
        lookup(assigned(scopes, scope, name, value), closure, name) == Some(value),
{
    resolve_found(scopes, scope, name);
    assign_keeps_resolution(scopes, scope, name, value, closure, name);
    let s = resolve(scopes, scope, name)->0;
    with_binds(scopes[s], name, value, name);
}

/// One scope: its names, the value of each, and the handle of its parent.
#[derive(Debug)]
pub struct Scope {
    names: Vec<String>,
    values: Vec<LoxObject>,
    parent: Option<usize>,
}

impl View for Scope {
    type V = ScopeView;

    closed spec fn view(&self) -> ScopeView {
        ScopeView {
            names: Seq::new(self.names@.len(), |i: int| self.names@[i]@),
            values: Seq::new(self.values@.len(), |i: int| object_view(self.values@[i])),
            parent: match self.parent {
                Some(p) => Some(p as nat),
                None => None,
            },
        }
    }
}

impl Scope {
    fn new(parent: Option<usize>) -> (r: Scope)
        ensures
            r@ == (ScopeView {
                names: Seq::empty(),
                values: Seq::empty(),
                parent: match parent {
                    Some(p) => Some(p as nat),
                    None => None,
                },
            }),
    {
        let r = Scope { names: Vec::new(), values: Vec::new(), parent };
        proof {
            assert(r@.names =~= Seq::<Seq<char>>::empty());
            assert(r@.values =~= Seq::<ObjectView>::empty());
        }
        r
    }

    /// A scope that holds the same and has the same parent.
    fn deep_clone(&self) -> (r: Scope)
        requires
            self@.wf(),
        ensures
            r@ == self@,
    {
        let mut names: Vec<String> = Vec::new();
        let mut values: Vec<LoxObject> = Vec::new();
        let mut i: usize = 0;
        while i < self.names.len()
            invariant
                self@.wf(),
                i <= self.names.len(),
                names.len() == i,
                values.len() == i,
                forall|j: int| 0 <= j < i ==> names@[j]@ == self.names@[j]@,
                forall|j: int| 0 <= j < i ==> object_view(values@[j]) == object_view(self.values@[j]),
            decreases self.names.len() - i,
        {
            assert(self@.values.len() == self.values@.len());
            names.push(self.names[i].clone());
            values.push(self.values[i].clone());
            i = i + 1;
        }
        let r = Scope { names, values, parent: self.parent };
        proof {
            assert(self@.values.len() == self.values@.len());
            assert(r@.names =~= self@.names);
            assert(r@.values =~= self@.values);
        }
        r
    }

    fn parent(&self) -> (r: Option<usize>)
        ensures
            match r {
                Some(p) => self@.parent == Some(p as nat),
                None => self@.parent is None,
            },
    {
        self.parent
    }

    /// Where the scope holds `name`.
    fn find(&self, name: &String) -> (r: Option<usize>)
        requires
            self@.wf(),
        ensures
            match r {
                Some(i) => index_of(self@.names, name@) == Some(i as int) && i < self@.names.len(),
                None => index_of(self@.names, name@) is None,
            },
    {
        let mut i: usize = self.names.len();
        proof {
            assert(self@.names.take(i as int) =~= self@.names);
        }
        while i > 0
            invariant
                i <= self.names.len(),
                index_of(self@.names, name@) == index_of(self@.names.take(i as int), name@),
            decreases i,
        {
            i = i - 1;
            proof {
                let before = self@.names.take(i + 1);
                assert(before.last() == self@.names[i as int]);
                assert(before.drop_last() =~= self@.names.take(i as int));
            }
            if self.names[i] == *name {
                return Some(i);
            }
        }
        proof {
            assert(self@.names.take(0).len() == 0);
        }
        None
    }

    fn get(&self, name: &String) -> (r: Option<LoxObject>)
        requires
            self@.wf(),
        ensures
            match r {
                Some(v) => self@.own(name@) == Some(v@),
                None => self@.own(name@) is None,
            },
    {
        match self.find(name) {
            Some(i) => Some(self.values[i].clone()),
            None => None,
        }
    }

    fn define(&mut self, name: String, value: LoxObject)
        requires
            old(self)@.wf(),
        ensures
            final(self)@ == old(self)@.with(name@, value@),
    {
        match self.find(&name) {
            Some(i) => {
                self.values[i] = value;
                proof {
                    assert(final(self)@.names =~= old(self)@.names);
                    assert(final(self)@.values =~= old(self)@.values.update(i as int, value@));
                }
            },
            None => {
                self.names.push(name);
                self.values.push(value);
                proof {
                    assert(final(self)@.names =~= old(self)@.names.push(name@));
                    assert(final(self)@.values =~= old(self)@.values.push(value@));
                }
            },
        }
    }
}

/// The arena of scopes.
#[derive(Debug)]
pub struct Environment {
    scopes: Vec<Scope>,
}

impl View for Environment {
    type V = Seq<ScopeView>;

    closed spec fn view(&self) -> Seq<ScopeView> {
        Seq::new(self.scopes@.len(), |i: int| self.scopes@[i]@)
    }
}

impl Environment {
    /// Every scope is younger than its parent.
    pub open spec fn wf(&self) -> bool {
        chained(self@)
    }

    /// An arena without scopes.
    pub fn new() -> (r: Self)
        ensures
            r.wf(),
            r@.len() == 0,
    {
        Self { scopes: Vec::new() }
    }

    /// How many scopes the arena holds.
    pub fn len(&self) -> (r: usize)
        ensures
            r == self@.len(),
    {
        self.scopes.len()
    }

    /// Makes a scope inside `parent`, or one without parent, and gives its
    /// handle, which all its holders share. A parent that names no scope of
    /// the arena is no parent.
    pub fn new_rc(&mut self, parent: Option<usize>) -> (r: usize)
        requires
            old(self).wf(),
        ensures
            final(self).wf(),
            r == old(self)@.len(),
            final(self)@ == extended(
                old(self)@,
                match parent {
                    Some(p) => Some(p as nat),
                    None => None,
                },
            ),
    {
        let handle = self.scopes.len();
        let parent = match parent {
            Some(p) => if p < handle {
                Some(p)
            } else {
                None
            },
            None => None,
        };
        self.scopes.push(Scope::new(parent));
        proof {
            assert(final(self)@ =~= old(self)@.push(final(self)@[handle as int]));
        }
        handle
    }

    /// Makes a scope that holds what `scope` holds and has the parent that
    /// `scope` has, and gives its handle. What is defined in either scope
    /// later is not seen from the other. Of a handle that names no scope
    /// the copy is empty and has no parent.
    pub fn deep_clone(&mut self, scope: usize) -> (r: usize)
        requires
            old(self).wf(),
        ensures
            final(self).wf(),
            r == old(self)@.len(),
            final(self)@ == copied(old(self)@, scope as int),
    {
        if scope >= self.scopes.len() {
            return self.new_rc(None);
        }
        let handle = self.scopes.len();
        proof {
            assert(self@[scope as int].wf());
        }
        let copy = self.scopes[scope].deep_clone();
        self.scopes.push(copy);
        proof {
            assert(final(self)@ =~= old(self)@.push(old(self)@[scope as int]));
        }
        handle
    }

    /// Binds `k` to `v` in `scope` itself, whatever the scopes around it
    /// hold and whether or not `k` was bound there before.
    pub fn define(&mut self, scope: usize, k: String, v: LoxObject)
        requires
            old(self).wf(),
            scope < old(self)@.len(),
        ensures
            final(self).wf(),
            final(self)@ == defined(old(self)@, scope as int, k@, v@),
    {
        let ghost before = self@;
        proof {
            assert(before[scope as int].wf());
        }
        let mut target = Scope::new(None);
        core::mem::swap(&mut self.scopes[scope], &mut target);
        assert(target@ == before[scope as int]);
        target.define(k, v);
        core::mem::swap(&mut self.scopes[scope], &mut target);
        proof {
            assert(self@ =~= defined(before, scope as int, k@, v@));
            defined_scopes(before, scope as int, k@, v@);
        }
    }

    /// The value of `k` in the nearest scope that binds it, from `scope`
    /// outwards; `None` where no scope of the chain binds it.
    pub fn get(&self, scope: usize, k: &str) -> (r: Option<LoxObject>)
        requires
            self.wf(),
            scope < self@.len(),
        ensures
            match r {
                Some(v) => lookup(self@, scope as int, k@) == Some(v@),
                None => lookup(self@, scope as int, k@) is None,
            },
    {
        let name = k.to_owned();
        match self.find(scope, &name) {
            Some(s) => self.scopes[s].get(&name),
            None => None,
        }
    }

    /// The nearest scope that binds `name`, from `scope` outwards.
    fn find(&self, scope: usize, name: &String) -> (r: Option<usize>)
        requires
            self.wf(),
        ensures
            match r {
                Some(s) => resolve(self@, scope as int, name@) == Some(s as int) && s < self@.len(),
                None => resolve(self@, scope as int, name@) is None,
            },
    {
        if scope >= self.scopes.len() {
            return None;
        }
        let mut current = scope;
        loop
            invariant
                self.wf(),
                current < self@.len(),
                resolve(self@, scope as int, name@) == resolve(self@, current as int, name@),
            decreases current,
        {
            if self.scopes[current].find(name).is_some() {
                return Some(current);
            }
            match self.scopes[current].parent() {
                Some(p) => {
                    current = p;
                },
                None => {
                    return None;
                },
            }
        }
    }

    /// Gives `k` the value `v` in the nearest scope that binds it, from
    /// `scope` outwards. Where no scope of the chain binds `k`, that is an
    /// error and nothing changes.
    pub fn assign(&mut self, scope: usize, k: String, v: LoxObject) -> (r: Result<(), ()>)
        requires
            old(self).wf(),
            scope < old(self)@.len(),
        ensures
            final(self).wf(),
            final(self)@ == assigned(old(self)@, scope as int, k@, v@),
            r is Ok <==> lookup(old(self)@, scope as int, k@) is Some,
    {
        proof {
            resolve_found(self@, scope as int, k@);
            assign_keeps_resolution(self@, scope as int, k@, v@, scope as int, k@);
        }
        match self.find(scope, &k) {
            Some(s) => {
                self.define(s, k, v);
                Ok(())
            },
            None => Err(()),
        }
    }
}

} // verus!
