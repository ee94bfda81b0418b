//! Variable scopes. Every scope holds its own bindings and may enclose-link to
//! an outer scope; scopes are kept in one store and named by their index, so
//! that a closure can keep the scope it was made in.
use vstd::prelude::*;

use crate::token::Token;

verus! {

/// An error raised while running a program: the token it concerns and a message.
#[derive(Clone, Debug)]
pub struct RuntimeError {
    pub token: Token,
    pub message: String,
}

/// The message for a variable that no scope in reach defines.
pub open spec fn undefined_variable_message(name: Seq<char>) -> Seq<char> {
    "undefined variable \""@ + name + "\""@
}

/// The model of one scope: its names, the values bound to them (the first
/// occurrence of a name counts), and the scope that encloses it.
pub struct ScopeModel<V> {
    pub names: Seq<Seq<char>>,
    pub values: Seq<V>,
    pub enclosing: Option<usize>,
}

/// The first position at or after `i` where `names` holds `name`.
pub open spec fn position_from(names: Seq<Seq<char>>, name: Seq<char>, i: int) -> Option<int>
    decreases names.len() - i,
{
    if i < 0 || i >= names.len() {
        None
    } else if names[i] == name {
        Some(i)
    } else {
        position_from(names, name, i + 1)
    }
}

/// The first position where `names` holds `name`.
pub open spec fn position(names: Seq<Seq<char>>, name: Seq<char>) -> Option<int> {
    position_from(names, name, 0)
}

/// The store is well formed: each scope holds as many values as names, and
/// encloses-links only to an older scope.
pub open spec fn scopes_wf<V>(m: Seq<ScopeModel<V>>) -> bool {
    forall|s: int|
        0 <= s < m.len() ==> {
            &&& (#[trigger] m[s]).names.len() == m[s].values.len()
            &&& m[s].enclosing matches Some(p) ==> p < s
        }
}

/// The value that scope `s` binds to `name` itself, if any.
pub open spec fn local<V>(m: Seq<ScopeModel<V>>, s: int, name: Seq<char>) -> Option<V> {
    if 0 <= s < m.len() {
        match position(m[s].names, name) {
            Some(i) => Some(m[s].values[i]),
            None => None,
        }
    } else {
        None
    }
}

/// The scope that `name` resolves to from scope `s`: `s` itself when it binds
/// the name, otherwise what it resolves to from the enclosing scope.
pub open spec fn holder<V>(m: Seq<ScopeModel<V>>, s: int, name: Seq<char>) -> Option<int>
    decreases s,
{
    if !(0 <= s < m.len()) {
        None
    } else if local(m, s, name) is Some {
        Some(s)
    } else {
        match m[s].enclosing {
            Some(p) => if 0 <= p < s {
                holder(m, p as int, name)
            } else {
                None
            },
            None => None,
        }
    }
}

/// The value that `name` has when looked up from scope `s`.
pub open spec fn resolve<V>(m: Seq<ScopeModel<V>>, s: int, name: Seq<char>) -> Option<V> {
    match holder(m, s, name) {
        Some(h) => local(m, h, name),
        None => None,
    }
}

/// The scope `distance` enclosing steps out from `s`, if the chain is that long.
pub open spec fn ancestor_of<V>(m: Seq<ScopeModel<V>>, s: int, distance: nat) -> Option<int>
    decreases distance,
{
    if !(0 <= s < m.len()) {
        None
    } else if distance == 0 {
        Some(s)
    } else {
        match m[s].enclosing {
            Some(p) => ancestor_of(m, p as int, (distance - 1) as nat),
            None => None,
        }
    }
}

/// The store after scope `s` binds `name` to `value`: the binding is replaced
/// when the scope already has one, and added otherwise.
pub open spec fn bind<V>(m: Seq<ScopeModel<V>>, s: int, name: Seq<char>, value: V) -> Seq<
    ScopeModel<V>,
> {
    if !(0 <= s < m.len()) {
        m
    } else {
        match position(m[s].names, name) {
            Some(i) => m.update(s, ScopeModel { values: m[s].values.update(i, value), ..m[s] }),
            None => m.update(
                s,
                ScopeModel {
                    names: m[s].names.push(name),
                    values: m[s].values.push(value),
                    ..m[s]
                },
            ),
        }
    }
}

/// The store with one more, empty scope enclosed by `parent`.
pub open spec fn with_scope<V>(m: Seq<ScopeModel<V>>, parent: Option<usize>) -> Seq<ScopeModel<V>> {
    m.push(ScopeModel { names: Seq::empty(), values: Seq::empty(), enclosing: parent })
}

/// The position found from `i` lies at or after `i` and holds the name; no
/// position between `i` and it does.
pub proof fn lemma_position_from(names: Seq<Seq<char>>, name: Seq<char>, i: int)
    requires
        0 <= i,
    ensures
        position_from(names, name, i) matches Some(j) ==> i <= j < names.len() && names[j]
            == name && forall|k: int| i <= k < j ==> names[k] != name,
        position_from(names, name, i) is None ==> forall|k: int|
            i <= k < names.len() ==> names[k] != name,
    decreases names.len() - i,
{
    if i < names.len() && names[i] != name {
        lemma_position_from(names, name, i + 1);
    }
}

/// A position is the first one holding the name exactly when no earlier one does.
pub proof fn lemma_position_unique(names: Seq<Seq<char>>, name: Seq<char>, j: int)
    requires
        0 <= j < names.len(),
        names[j] == name,
        forall|k: int| 0 <= k < j ==> names[k] != name,
    ensures
        position(names, name) == Some(j),
{
    lemma_position_from(names, name, 0);
    match position(names, name) {
        Some(p) => {
            if p < j {
                assert(names[p] != name);
            }
            if j < p {
                assert(names[j] != name);
            }
        },
        None => {
            assert(names[j] != name);
        },
    }
}

/// Adding a name at the end keeps every earlier first position, and gives the
/// new name its position when it was absent.
pub proof fn lemma_position_push(names: Seq<Seq<char>>, added: Seq<char>, name: Seq<char>)
    ensures
        position(names.push(added), name) == match position(names, name) {
            Some(i) => Some(i),
            None => if name == added {
                Some(names.len() as int)
            } else {
                None
            },
        },
{
    lemma_position_from(names, name, 0);
    lemma_position_from(names.push(added), name, 0);
    match position(names, name) {
        Some(i) => {
            lemma_position_unique(names.push(added), name, i);
        },
        None => {
            if name == added {
                lemma_position_unique(names.push(added), name, names.len() as int);
            }
        },
    }
}


/// Two stores that agree, on every scope up to `s`, on the enclosing scope and on
/// what the scope itself binds to `name`, resolve `name` from `s` alike.
pub proof fn lemma_lookup_agree<V>(m1: Seq<ScopeModel<V>>, m2: Seq<ScopeModel<V>>, s: int, name: Seq<char>)
    requires
        0 <= s < m1.len(),
        s < m2.len(),
        forall|t: int|
            0 <= t <= s ==> local(m1, t, name) == local(m2, t, name) && #[trigger] m1[t].enclosing
                == m2[t].enclosing,
    ensures
        holder(m1, s, name) == holder(m2, s, name),
        resolve(m1, s, name) == resolve(m2, s, name),
    decreases s,
{
    if local(m1, s, name) is None {
        match m1[s].enclosing {
            Some(p) => if 0 <= p < s {
                lemma_lookup_agree(m1, m2, p as int, name);
            },
            None => {},
        }
    }
}

/// Binding a name in one scope leaves what every other scope binds itself, and
/// what that scope binds to other names, as it was; it changes no enclosing scope.
pub proof fn lemma_bind_local<V>(m: Seq<ScopeModel<V>>, s: int, name: Seq<char>, value: V, t: int, other: Seq<char>)
    requires
        scopes_wf(m),
        0 <= s < m.len(),
    ensures
        bind(m, s, name, value).len() == m.len(),
        0 <= t < m.len() ==> bind(m, s, name, value)[t].enclosing == m[t].enclosing,
        local(bind(m, s, name, value), s, name) == Some(value),
        (t != s || other != name) ==> local(bind(m, s, name, value), t, other) == local(m, t, other),
{
    let names = m[s].names;
    lemma_position_push(names, name, other);
    lemma_position_push(names, name, name);
    lemma_position_from(names, name, 0);
    lemma_position_from(names, other, 0);
}

/// After a scope binds a name, looking the name up from that scope gives the
/// value bound.
pub proof fn law_get_after_define<V>(m: Seq<ScopeModel<V>>, s: int, name: Seq<char>, value: V)
    requires
        scopes_wf(m),
        0 <= s < m.len(),
    ensures
        resolve(bind(m, s, name, value), s, name) == Some(value),
{
    lemma_bind_local(m, s, name, value, s, name);
}

/// Binding a name changes the lookup of no other name, from any scope.
pub proof fn law_define_keeps_other_names<V>(
    m: Seq<ScopeModel<V>>,
    s: int,
    name: Seq<char>,
    value: V,
    from: int,
    other: Seq<char>,
)
    requires
        scopes_wf(m),
        0 <= s < m.len(),
        0 <= from < m.len(),
        other != name,
    ensures
        resolve(bind(m, s, name, value), from, other) == resolve(m, from, other),
{
    let m2 = bind(m, s, name, value);
    assert forall|t: int| 0 <= t <= from implies local(m, t, other) == local(m2, t, other)
        && #[trigger] m[t].enclosing == m2[t].enclosing by {
        lemma_bind_local(m, s, name, value, t, other);
    }
    lemma_lookup_agree(m, m2, from, other);
}

/// Binding a name in a scope changes no lookup from a scope made before it, so an
/// inner scope shadows an outer binding without changing it.
pub proof fn law_define_keeps_outer_scopes<V>(
    m: Seq<ScopeModel<V>>,
    s: int,
    name: Seq<char>,
    value: V,
    from: int,
    other: Seq<char>,
)
    requires
        scopes_wf(m),
        0 <= from < s < m.len(),
    ensures
        resolve(bind(m, s, name, value), from, other) == resolve(m, from, other),
{
    let m2 = bind(m, s, name, value);
    assert forall|t: int| 0 <= t <= from implies local(m, t, other) == local(m2, t, other)
        && #[trigger] m[t].enclosing == m2[t].enclosing by {
        lemma_bind_local(m, s, name, value, t, other);
    }
    lemma_lookup_agree(m, m2, from, other);
}

/// What a scope resolves a name to stays the scope that holds it after that
/// binding is replaced.
pub proof fn lemma_holder_kept<V>(m: Seq<ScopeModel<V>>, s: int, h: int, name: Seq<char>, value: V)
    requires
        scopes_wf(m),
        0 <= s < m.len(),
        holder(m, s, name) == Some(h),
    ensures
        holder(bind(m, h, name, value), s, name) == Some(h),
    decreases s,
{
    let m2 = bind(m, h, name, value);
    assert(0 <= h < m.len()) by {
        lemma_holder_in_bounds(m, s, name);
    }
    lemma_bind_local(m, h, name, value, s, name);
    if s != h {
        match m[s].enclosing {
            Some(p) => if 0 <= p < s {
                lemma_holder_kept(m, p as int, h, name, value);
            },
            None => {},
        }
    }
}

/// The scope a name resolves to is a scope of the store.
pub proof fn lemma_holder_in_bounds<V>(m: Seq<ScopeModel<V>>, s: int, name: Seq<char>)
    ensures
        holder(m, s, name) matches Some(h) ==> 0 <= h < m.len() && local(m, h, name) is Some,
    decreases s,
{
    if 0 <= s < m.len() && local(m, s, name) is None {
        match m[s].enclosing {
            Some(p) => if 0 <= p < s {
                lemma_holder_in_bounds(m, p as int, name);
            },
            None => {},
        }
    }
}

/// After an assignment to a name in reach, looking the name up from the same
/// scope gives the value assigned.
pub proof fn law_get_after_assign<V>(m: Seq<ScopeModel<V>>, s: int, name: Seq<char>, value: V)
    requires
        scopes_wf(m),
        0 <= s < m.len(),
        holder(m, s, name) is Some,
    ensures
        resolve(bind(m, holder(m, s, name)->0, name, value), s, name) == Some(value),
{
    let h = holder(m, s, name)->0;
    lemma_holder_in_bounds(m, s, name);
    lemma_holder_kept(m, s, h, name, value);
    lemma_bind_local(m, h, name, value, h, name);
}

/// A new scope sees what its enclosing scope sees, and changes no lookup from
/// the scopes that were there before.
pub proof fn law_new_scope_sees_enclosing<V>(m: Seq<ScopeModel<V>>, parent: usize, from: int, name: Seq<char>)
    requires
        scopes_wf(m),
        parent < m.len(),
        0 <= from < m.len(),
    ensures
        resolve(with_scope(m, Some(parent)), m.len() as int, name) == resolve(m, parent as int, name),
        resolve(with_scope(m, Some(parent)), from, name) == resolve(m, from, name),
{
    let m2 = with_scope(m, Some(parent));
    assert forall|t: int| 0 <= t <= from implies local(m, t, name) == local(m2, t, name)
        && #[trigger] m[t].enclosing == m2[t].enclosing by {
        assert(m2[t] == m[t]);
    }
    lemma_lookup_agree(m, m2, from, name);
    assert forall|t: int| 0 <= t <= parent implies local(m, t, name) == local(m2, t, name)
        && #[trigger] m[t].enclosing == m2[t].enclosing by {
        assert(m2[t] == m[t]);
    }
    lemma_lookup_agree(m, m2, parent as int, name);
    assert(position(m2[m.len() as int].names, name) is None);
    assert(holder(m2, m.len() as int, name) == holder(m2, parent as int, name));
}

/// A scope of the store.
pub struct Scope<V> {
    names: Vec<String>,
    values: Vec<V>,
    enclosing: Option<usize>,
}

impl<V> Scope<V> {
    /// The model of this scope.
    closed spec fn model(self) -> ScopeModel<V> {
        ScopeModel {
            names: self.names@.map_values(|n: String| n@),
            values: self.values@,
            enclosing: self.enclosing,
        }
    }
}

/// The store of all scopes. Scope 0 is the global scope.
pub struct Environment<V> {
    scopes: Vec<Scope<V>>,
}

impl<V> View for Environment<V> {
    type V = Seq<ScopeModel<V>>;

    closed spec fn view(&self) -> Seq<ScopeModel<V>> {
        self.scopes@.map_values(
            |s: Scope<V>|
                ScopeModel {
                    names: s.names@.map_values(|n: String| n@),
                    values: s.values@,
                    enclosing: s.enclosing,
                },
        )
    }
}

impl<V> Environment<V> {
    /// The store is well formed.
    pub open spec fn wf(&self) -> bool {
        scopes_wf(self@)
    }

    /// A store that holds only the global scope.
    pub fn new() -> (env: Environment<V>)
        ensures
            env.wf(),
            env@ == with_scope(Seq::<ScopeModel<V>>::empty(), None),
    {
        let mut scopes: Vec<Scope<V>> = Vec::new();
        scopes.push(Scope { names: Vec::new(), values: Vec::new(), enclosing: None });
        let env = Environment { scopes };
        assert(env@[0].names =~= Seq::<Seq<char>>::empty());
        assert(env@[0].values =~= Seq::<V>::empty());
        assert(env@ =~= with_scope(Seq::<ScopeModel<V>>::empty(), None));
        env
    }

    /// The global scope.
    pub fn globals(&self) -> (s: usize)
        ensures
            s == 0,
    {
        0
    }

    /// The number of scopes in the store.
    pub fn len(&self) -> (n: usize)
        ensures
            n == self@.len(),
    {
        self.scopes.len()
    }

    /// A new, empty scope enclosed by `parent`.
    pub fn from_parent(&mut self, parent: usize) -> (s: usize)
        requires
            old(self).wf(),
            parent < old(self)@.len(),
        ensures
            final(self).wf(),
            s == old(self)@.len(),
            final(self)@ == with_scope(old(self)@, Some(parent)),
    {
        let s = self.scopes.len();
        self.scopes.push(Scope { names: Vec::new(), values: Vec::new(), enclosing: Some(parent) });
        assert(self@[s as int].names =~= Seq::<Seq<char>>::empty());
        assert(self@[s as int].values =~= Seq::<V>::empty());
        assert(self@ =~= with_scope(old(self)@, Some(parent)));
        s
    }

    /// The scope that encloses `scope`, if any.
    pub fn into_enclosing(&self, scope: usize) -> (p: Option<usize>)
        requires
            scope < self@.len(),
        ensures
            p == self@[scope as int].enclosing,
    {
        self.scopes[scope].enclosing
    }

    /// The first position in scope `scope` that holds `name`.
    fn find(&self, scope: usize, name: &String) -> (r: Option<usize>)
        requires
            scope < self@.len(),
        ensures
            r matches Some(i) ==> position(self@[scope as int].names, name@) == Some(i as int),
            r is None ==> position(self@[scope as int].names, name@) is None,
    {
        let ghost names = self@[scope as int].names;
        let frame = &self.scopes[scope];
        let mut i: usize = 0;
        assert(names == frame.names@.map_values(|n: String| n@));
        while i < frame.names.len()
            invariant
                scope < self@.len(),
                names == self@[scope as int].names,
                names == frame.names@.map_values(|n: String| n@),
                i <= frame.names@.len(),
                position(names, name@) == position_from(names, name@, i as int),
            decreases frame.names@.len() - i,
        {
            if frame.names[i] == *name {
                assert(names[i as int] == name@);
                return Some(i);
            }
            i += 1;
        }
        None
    }

    /// The value `name` has when looked up from `scope`, or an error naming the
    /// variable when no scope in reach binds it.
    pub fn get(&self, scope: usize, name: &Token) -> (r: Result<&V, RuntimeError>)
        requires
            self.wf(),
            scope < self@.len(),
        ensures
            match r {
                Ok(v) => resolve(self@, scope as int, name.lexeme@) == Some(*v),
                Err(e) => resolve(self@, scope as int, name.lexeme@) is None && e.token == *name
                    && e.message@ == undefined_variable_message(name.lexeme@),
            },
    {
        let mut current: usize = scope;
        loop
            invariant
                self.wf(),
                current < self@.len(),
                holder(self@, scope as int, name.lexeme@) == holder(
                    self@,
                    current as int,
                    name.lexeme@,
                ),
            decreases current,
        {
            match self.find(current, &name.lexeme) {
                Some(i) => {
                    proof {
                        lemma_position_from(self@[current as int].names, name.lexeme@, 0);
                    }
                    return Ok(&self.scopes[current].values[i]);
                },
                None => {},
            }
            match self.scopes[current].enclosing {
                Some(parent) => {
                    assert(self@[current as int].enclosing == Some(parent));
                    current = parent;
                },
                None => {
                    return Err(undefined_variable(name));
                },
            }
        }
    }

    /// Binds `name` to `value` in `scope`, replacing the binding it has there.
    pub fn define(&mut self, scope: usize, name: String, value: V)
        requires
            old(self).wf(),
            scope < old(self)@.len(),
        ensures
            final(self).wf(),
            final(self)@ == bind(old(self)@, scope as int, name@, value),
    {
        let ghost name_view = name@;
        let ghost expected = bind(old(self)@, scope as int, name_view, value);
        match self.find(scope, &name) {
            Some(i) => {
                proof {
                    lemma_position_from(self@[scope as int].names, name@, 0);
                }
                self.scopes[scope].values[i] = value;
            },
            None => {
                self.scopes[scope].names.push(name);
                self.scopes[scope].values.push(value);
            },
        }
        assert(self@[scope as int].names =~= expected[scope as int].names);
        assert(self@[scope as int].values =~= expected[scope as int].values);
        assert(self@ =~= expected);
    }

    /// The scope `distance` enclosing steps out from `scope`.
    pub fn ancestor(&self, scope: usize, distance: usize) -> (r: usize)
        requires
            self.wf(),
            ancestor_of(self@, scope as int, distance as nat) is Some,
        ensures
            ancestor_of(self@, scope as int, distance as nat) == Some(r as int),
            r < self@.len(),
    {
        let mut current: usize = scope;
        let mut steps: usize = 0;
        while steps < distance
            invariant
                self.wf(),
                steps <= distance,
                ancestor_of(self@, scope as int, distance as nat) == ancestor_of(
                    self@,
                    current as int,
                    (distance - steps) as nat,
                ),
                ancestor_of(self@, current as int, (distance - steps) as nat) is Some,
            decreases distance - steps,
        {
            current = match self.scopes[current].enclosing {
                Some(parent) => parent,
                None => {
                    assert(false);
                    current
                },
            };
            steps += 1;
        }
        current
    }

    /// The scope `distance` enclosing steps out from `scope`, if the chain is that long.
    pub fn try_ancestor(&self, scope: usize, distance: usize) -> (r: Option<usize>)
        requires
            self.wf(),
            scope < self@.len(),
        ensures
            r matches Some(a) ==> ancestor_of(self@, scope as int, distance as nat) == Some(
                a as int,
            ) && a < self@.len(),
            r is None ==> ancestor_of(self@, scope as int, distance as nat) is None,
    {
        let mut current: usize = scope;
        let mut steps: usize = 0;
        while steps < distance
            invariant
                self.wf(),
                steps <= distance,
                current < self@.len(),
                ancestor_of(self@, scope as int, distance as nat) == ancestor_of(
                    self@,
                    current as int,
                    (distance - steps) as nat,
                ),
            decreases distance - steps,
        {
            match self.scopes[current].enclosing {
                Some(parent) => {
                    assert(self@[current as int].enclosing == Some(parent));
                    current = parent;
                },
                None => {
                    assert(self@[current as int].enclosing is None);
                    return None;
                },
            }
            steps += 1;
        }
        Some(current)
    }

    /// Whether scope `scope` itself binds `name`.
    pub fn binds(&self, scope: usize, name: &String) -> (b: bool)
        requires
            scope < self@.len(),
        ensures
            b == (local(self@, scope as int, name@) is Some),
    {
        self.find(scope, name).is_some()
    }

    /// The value that the scope `distance` steps out from `scope` binds to `name`.
    pub fn get_at(&self, scope: usize, distance: usize, name: &String) -> (r: &V)
        requires
            self.wf(),
            ancestor_of(self@, scope as int, distance as nat) matches Some(a) && local(
                self@,
                a,
                name@,
            ) is Some,
        ensures
            local(self@, ancestor_of(self@, scope as int, distance as nat)->0, name@) == Some(*r),
    {
        let a = self.ancestor(scope, distance);
        match self.find(a, name) {
            Some(i) => {
                proof {
                    lemma_position_from(self@[a as int].names, name@, 0);
                }
                &self.scopes[a].values[i]
            },
            None => {
                assert(false);
                &self.scopes[a].values[0]
            },
        }
    }

    /// Binds `name` to `value` in the scope `distance` steps out from `scope`.
    pub fn assign_at(&mut self, scope: usize, distance: usize, name: &Token, value: V)
        requires
            old(self).wf(),
            ancestor_of(old(self)@, scope as int, distance as nat) is Some,
        ensures
            final(self).wf(),
            final(self)@ == bind(
                old(self)@,
                ancestor_of(old(self)@, scope as int, distance as nat)->0,
                name.lexeme@,
                value,
            ),
    {
        let a = self.ancestor(scope, distance);
        self.define(a, name.lexeme.clone(), value);
    }

    /// Rebinds `name` to `value` in the scope it resolves to from `scope`; an
    /// error naming the variable, and no change, when no scope in reach binds it.
    pub fn assign(&mut self, scope: usize, name: Token, value: V) -> (r: Result<(), RuntimeError>)
        requires
            old(self).wf(),
            scope < old(self)@.len(),
        ensures
            final(self).wf(),
            match holder(old(self)@, scope as int, name.lexeme@) {
                Some(h) => r is Ok && final(self)@ == bind(old(self)@, h, name.lexeme@, value),
                None => final(self)@ == old(self)@ && (r matches Err(e) && e.token == name
                    && e.message@ == undefined_variable_message(name.lexeme@)),
            },
    {
        let mut current: usize = scope;
        loop
            invariant
                self.wf(),
                *self == *old(self),
                current < self@.len(),
                holder(self@, scope as int, name.lexeme@) == holder(
                    self@,
                    current as int,
                    name.lexeme@,
                ),
            decreases current,
        {
            if self.find(current, &name.lexeme).is_some() {
                self.define(current, name.lexeme, value);
                return Ok(());
            }
            match self.scopes[current].enclosing {
                Some(parent) => {
                    assert(self@[current as int].enclosing == Some(parent));
                    current = parent;
                },
                None => {
                    return Err(undefined_variable(&name));
                },
            }
        }
    }
}

/// The error for a variable that no scope in reach binds.
fn undefined_variable(name: &Token) -> (e: RuntimeError)
    ensures
        e.token == *name,
        e.message@ == undefined_variable_message(name.lexeme@),
{
    let mut message = String::from_str("undefined variable \"");
    message.append(name.lexeme.as_str());
    message.append("\"");
    RuntimeError { token: name.duplicate(), message }
}

} // verus!
