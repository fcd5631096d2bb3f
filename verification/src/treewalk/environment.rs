//! Scopes: which value each name stands for, from the innermost scope
//! outwards.
//!
//! All scopes of a run live in one arena and are known by their place in it.
//! A scope maps names to values and may name the scope that encloses it,
//! which was made before it. A scope is never removed, so a function can keep
//! the scope in which it was declared for as long as it lives.

use vstd::prelude::*;
use crate::treewalk::runtime_error::{fault_at, Fault, RuntimeError};
use crate::treewalk::token::Token;
use crate::treewalk::token_type::{Object, ObjectView};

verus! {

/// A scope: the value of each name that it defines, and the scope around it.
pub struct ScopeView {
    pub bindings: Map<Seq<char>, ObjectView>,
    pub enclosing: Option<int>,
}

/// The nearest scope from `scope` outwards that defines `name`.
pub open spec fn holder(scopes: Seq<ScopeView>, scope: int, name: Seq<char>) -> Option<int>
    decreases scope,
{
    if scope < 0 || scope >= scopes.len() {
        None
    } else if scopes[scope].bindings.contains_key(name) {
        Some(scope)
    } else {
        match scopes[scope].enclosing {
            Some(outer) => if 0 <= outer < scope {
                holder(scopes, outer, name)
            } else {
                None
            },
            None => None,
        }
    }
}

/// The value of `name` as seen from `scope`, if a scope from there outwards
/// defines it.
pub open spec fn lookup(scopes: Seq<ScopeView>, scope: int, name: Seq<char>) -> Option<ObjectView> {
    match holder(scopes, scope, name) {
        Some(h) => Some(scopes[h].bindings[name]),
        None => None,
    }
}

/// The scopes after `name` was bound to `value` in scope `scope` itself.
pub open spec fn defined(scopes: Seq<ScopeView>, scope: int, name: Seq<char>, value: ObjectView)
    -> Seq<ScopeView> {
    if 0 <= scope < scopes.len() {
        scopes.update(
            scope,
            ScopeView { bindings: scopes[scope].bindings.insert(name, value), ..scopes[scope] },
        )
    } else {
        scopes
    }
}

/// The scopes after `value` was assigned to `name` as seen from `scope`: the
/// nearest scope that defines the name takes the value. Nothing changes if no
/// scope defines it.
pub open spec fn assigned(scopes: Seq<ScopeView>, scope: int, name: Seq<char>, value: ObjectView)
    -> Seq<ScopeView> {
    match holder(scopes, scope, name) {
        Some(h) => defined(scopes, h, name, value),
        None => scopes,
    }
}

/// The scopes with a new, empty one inside `enclosing`.
pub open spec fn extended(scopes: Seq<ScopeView>, enclosing: int) -> Seq<ScopeView> {
    scopes.push(ScopeView { bindings: Map::empty(), enclosing: Some(enclosing) })
}

/// What the first `n` bindings of a scope define: a later binding of a name
/// takes the place of an earlier one.
pub open spec fn bound(names: Seq<String>, values: Seq<Object>, n: int) -> Map<
    Seq<char>,
    ObjectView,
>
    decreases n,
{
    if n <= 0 || n > names.len() || n > values.len() {
        Map::empty()
    } else {
        bound(names, values, n - 1).insert(names[n - 1]@, values[n - 1]@)
    }
}

/// No binding from `from` up to `n` is one of `key`.
pub open spec fn absent_from(names: Seq<String>, key: Seq<char>, from: int, n: int) -> bool {
    forall|j: int| from <= j < n ==> (#[trigger] names[j])@ != key
}

proof fn bound_without(names: Seq<String>, values: Seq<Object>, n: int, key: Seq<char>)
    requires
        0 <= n <= names.len(),
        n <= values.len(),
        absent_from(names, key, 0, n),
    ensures
        !bound(names, values, n).contains_key(key),
    decreases n,
{
    if n > 0 {
        assert(names[n - 1]@ != key);
        bound_without(names, values, n - 1, key);
    }
}

proof fn bound_at(names: Seq<String>, values: Seq<Object>, n: int, key: Seq<char>, i: int)
    requires
        0 <= i < n <= names.len(),
        n <= values.len(),
        names[i]@ == key,
        absent_from(names, key, i + 1, n),
    ensures
        bound(names, values, n).contains_key(key),
        bound(names, values, n)[key] == values[i]@,
    decreases n,
{
    if n - 1 > i {
        assert(names[n - 1]@ != key);
        bound_at(names, values, n - 1, key, i);
    }
}

proof fn bound_same(names: Seq<String>, values: Seq<Object>, other: Seq<Object>, n: int)
    requires
        0 <= n <= names.len(),
        n <= values.len(),
        n <= other.len(),
        forall|j: int| 0 <= j < n ==> (#[trigger] values[j])@ == other[j]@,
    ensures
        bound(names, values, n) == bound(names, other, n),
    decreases n,
{
    if n > 0 {
        assert(values[n - 1]@ == other[n - 1]@);
        bound_same(names, values, other, n - 1);
    }
}

proof fn bound_updated(
    names: Seq<String>,
    values: Seq<Object>,
    n: int,
    key: Seq<char>,
    i: int,
    value: Object,
)
    requires
        0 <= i < n <= names.len(),
        n <= values.len(),
        names[i]@ == key,
        absent_from(names, key, i + 1, n),
    ensures
        bound(names, values.update(i, value), n) == bound(names, values, n).insert(key, value@),
    decreases n,
{
    let changed = values.update(i, value);
    if n - 1 > i {
        assert(names[n - 1]@ != key);
        bound_updated(names, values, n - 1, key, i, value);
        assert(bound(names, changed, n) =~= bound(names, values, n).insert(key, value@));
    } else {
        bound_same(names, values, changed, n - 1);
        assert(bound(names, changed, n) =~= bound(names, values, n).insert(key, value@));
    }
}

/// One scope: its bindings in the order in which they were made, and the
/// scope around it.
pub struct Scope {
    names: Vec<String>,
    values: Vec<Object>,
    enclosing: Option<usize>,
}

impl View for Scope {
    type V = ScopeView;

    closed spec fn view(&self) -> ScopeView {
        ScopeView {
            bindings: bound(self.names@, self.values@, self.names@.len() as int),
            enclosing: match self.enclosing {
                Some(outer) => Some(outer as int),
                None => None,
            },
        }
    }
}

impl Scope {
    closed spec fn well_formed(&self) -> bool {
        self.names@.len() == self.values@.len()
    }

    fn new(enclosing: Option<usize>) -> (r: Self)
        ensures
            r.well_formed(),
            r@ == (ScopeView {
                bindings: Map::empty(),
                enclosing: match enclosing {
                    Some(outer) => Some(outer as int),
                    None => None,
                },
            }),
    {
        Scope { names: Vec::new(), values: Vec::new(), enclosing }
    }

    /// The place of the last binding of `name`, if there is one.
    fn find(&self, name: &String) -> (r: Option<usize>)
        requires
            self.well_formed(),
        ensures
            match r {
                Some(i) => i < self.names@.len() && self.names@[i as int]@ == name@ && absent_from(
                    self.names@,
                    name@,
                    i + 1,
                    self.names@.len() as int,
                ) && self@.bindings.contains_key(name@) && self@.bindings[name@]
                    == self.values@[i as int]@,
                None => !self@.bindings.contains_key(name@),
            },
    {
        let mut i = self.names.len();
        while i > 0
            invariant
                i <= self.names@.len(),
                self.well_formed(),
                absent_from(self.names@, name@, i as int, self.names@.len() as int),
            decreases i,
        {
            i -= 1;
            if self.names[i] == *name {
                proof {
                    bound_at(self.names@, self.values@, self.names@.len() as int, name@, i as int);
                }
                return Some(i);
            }
        }
        proof {
            bound_without(self.names@, self.values@, self.names@.len() as int, name@);
        }
        None
    }
}

/// The scopes of a run.
pub struct Environ {
    scopes: Vec<Scope>,
}

impl View for Environ {
    type V = Seq<ScopeView>;

    closed spec fn view(&self) -> Seq<ScopeView> {
        Seq::new(self.scopes@.len(), |i: int| self.scopes@[i]@)
    }
}

impl Environ {
    pub closed spec fn well_formed(&self) -> bool {
        forall|i: int| 0 <= i < self.scopes@.len() ==> (#[trigger] self.scopes@[i]).well_formed()
    }

    /// The arena with the global scope, which is scope 0 and has none around it.
    pub fn new() -> (r: Self)
        ensures
            r.well_formed(),
            r@ == seq![ScopeView { bindings: Map::empty(), enclosing: None }],
    {
        let mut scopes: Vec<Scope> = Vec::new();
        scopes.push(Scope::new(None));
        let r = Environ { scopes };
        assert(r@ =~= seq![ScopeView { bindings: Map::empty(), enclosing: None }]);
        r
    }

    /// The number of scopes.
    pub fn len(&self) -> (r: usize)
        ensures
            r == self@.len(),
    {
        self.scopes.len()
    }

    /// Makes a new, empty scope inside `enclosing` and returns its place.
    pub fn child(&mut self, enclosing: usize) -> (r: usize)
        requires
            old(self).well_formed(),
        ensures
            final(self).well_formed(),
            final(self)@ == extended(old(self)@, enclosing as int),
            r == old(self)@.len(),
    {
        let r = self.scopes.len();
        self.scopes.push(Scope::new(Some(enclosing)));
        assert(self@ =~= extended(old(self)@, enclosing as int));
        r
    }

    /// Binds `name` to `value` in scope `scope` itself, whether or not the
    /// scope had the name before. A scope that does not exist takes nothing.
    pub fn define(&mut self, scope: usize, name: String, value: Object)
        requires
            old(self).well_formed(),
        ensures
            final(self).well_formed(),
            final(self)@ == defined(old(self)@, scope as int, name@, value@),
    {
        if scope < self.scopes.len() {
            self.scopes[scope].names.push(name);
            self.scopes[scope].values.push(value);
            assert(self.scopes@[scope as int].names@ == old(self).scopes@[scope as int].names@.push(
                name,
            ));
            assert(self.scopes@[scope as int].values@
                == old(self).scopes@[scope as int].values@.push(value));
            proof {
                let names = old(self).scopes@[scope as int].names@;
                let values = old(self).scopes@[scope as int].values@;
                assert(old(self).scopes@[scope as int].well_formed());
                let n = names.len() as int;
                bound_prefix(names.push(name), values.push(value), names, values, n);
            }
            assert(self@ =~= defined(old(self)@, scope as int, name@, value@));
        }
    }

    /// The nearest scope from `scope` outwards that defines `name`, and the
    /// place of the binding in it.
    fn resolve(&self, scope: usize, name: &String) -> (r: Option<(usize, usize)>)
        requires
            self.well_formed(),
        ensures
            match r {
                Some((h, i)) => holder(self@, scope as int, name@) == Some(h as int) && h
                    < self.scopes@.len() && i < self.scopes@[h as int].names@.len()
                    && self.scopes@[h as int].names@[i as int]@ == name@ && absent_from(
                    self.scopes@[h as int].names@,
                    name@,
                    i + 1,
                    self.scopes@[h as int].names@.len() as int,
                ) && self@[h as int].bindings[name@] == self.scopes@[h as int].values@[i as int]@,
                None => holder(self@, scope as int, name@) is None,
            },
    {
        let mut cur = scope;
        loop
            invariant
                self.well_formed(),
                holder(self@, cur as int, name@) == holder(self@, scope as int, name@),
            decreases cur,
        {
            if cur >= self.scopes.len() {
                return None;
            }
            assert(self.scopes@[cur as int].well_formed());
            match self.scopes[cur].find(name) {
                Some(i) => {
                    return Some((cur, i));
                },
                None => {},
            }
            match self.scopes[cur].enclosing {
                Some(outer) => {
                    if outer < cur {
                        cur = outer;
                    } else {
                        return None;
                    }
                },
                None => {
                    return None;
                },
            }
        }
    }

    /// The value of the variable `name` as seen from `scope`: that of the
    /// nearest scope, from `scope` outwards, that defines it. If none does, the
    /// error names the variable and its line.
    pub fn get(&self, scope: usize, name: &Token) -> (r: Result<Object, RuntimeError>)
        requires
            self.well_formed(),
        ensures
            match lookup(self@, scope as int, name@.lexeme) {
                Some(v) => r is Ok && r->Ok_0@ == v,
                None => r is Err && r->Err_0@ == fault_at(
                    Fault::UndefinedVariable,
                    name@.line,
                    name@.lexeme,
                ),
            },
    {
        match self.resolve(scope, &name.lexeme) {
            Some((h, i)) => {
                assert(self.scopes@[h as int].well_formed());
                Ok(self.scopes[h].values[i].duplicate())
            },
            None => Err(RuntimeError::at(Fault::UndefinedVariable, name.line, &name.lexeme)),
        }
    }

    /// Gives the variable `name`, as seen from `scope`, the value `value`:
    /// the nearest scope that defines it takes the value. If none does,
    /// nothing changes, and the error names the variable and its line.
    pub fn assign(&mut self, scope: usize, name: &Token, value: Object) -> (r: Result<
        (),
        RuntimeError,
    >)
        requires
            old(self).well_formed(),
        ensures
            final(self).well_formed(),
            final(self)@ == assigned(old(self)@, scope as int, name@.lexeme, value@),
            match holder(old(self)@, scope as int, name@.lexeme) {
                Some(_) => r is Ok,
                None => r is Err && r->Err_0@ == fault_at(
                    Fault::UndefinedVariable,
                    name@.line,
                    name@.lexeme,
                ),
            },
    {
        match self.resolve(scope, &name.lexeme) {
            Some((h, i)) => {
                assert(self.scopes@[h as int].well_formed());
                proof {
                    bound_updated(
                        self.scopes@[h as int].names@,
                        self.scopes@[h as int].values@,
                        self.scopes@[h as int].names@.len() as int,
                        name@.lexeme,
                        i as int,
                        value,
                    );
                }
                self.scopes[h].values[i] = value;
                assert(self@ =~= assigned(old(self)@, scope as int, name@.lexeme, value@));
                Ok(())
            },
            None => Err(RuntimeError::at(Fault::UndefinedVariable, name.line, &name.lexeme)),
        }
    }
}

/// Bindings that agree on their first `n` places define the same there.
proof fn bound_prefix(
    names: Seq<String>,
    values: Seq<Object>,
    short_names: Seq<String>,
    short_values: Seq<Object>,
    n: int,
)
    requires
        0 <= n <= short_names.len(),
        n <= short_values.len(),
        n <= names.len(),
        n <= values.len(),
        forall|j: int| 0 <= j < n ==> names[j] == short_names[j] && values[j] == short_values[j],
    ensures
        bound(names, values, n) == bound(short_names, short_values, n),
    decreases n,
{
    if n > 0 {
        bound_prefix(names, values, short_names, short_values, n - 1);
    }
}

/// A variable that was just defined in a scope is found from that scope, with
/// the value that it was given, whatever the scopes around it hold.
pub proof fn defined_is_found(scopes: Seq<ScopeView>, scope: int, name: Seq<char>, value: ObjectView)
    requires
        0 <= scope < scopes.len(),
    ensures
        lookup(defined(scopes, scope, name, value), scope, name) == Some(value),
{
}

/// A name that no scope from `scope` outwards defines is found neither by a
/// reading nor by an assignment, which then leaves all scopes as they were.
pub proof fn undefined_stays_undefined(
    scopes: Seq<ScopeView>,
    scope: int,
    name: Seq<char>,
    value: ObjectView,
)
    requires
        holder(scopes, scope, name) is None,
    ensures
        lookup(scopes, scope, name) is None,
        assigned(scopes, scope, name, value) == scopes,
{
}

/// Where a name is found from a scope depends on that scope and on scopes
/// made before it only.
proof fn holder_looks_outwards(
    scopes: Seq<ScopeView>,
    other: Seq<ScopeView>,
    scope: int,
    name: Seq<char>,
)
    requires
        scope < scopes.len(),
        scope < other.len(),
        forall|i: int| 0 <= i <= scope ==> scopes[i] == other[i],
    ensures
        holder(scopes, scope, name) == holder(other, scope, name),
        holder(scopes, scope, name) matches Some(h) ==> 0 <= h <= scope,
    decreases scope,
{
    if 0 <= scope && !scopes[scope].bindings.contains_key(name) {
        match scopes[scope].enclosing {
            Some(outer) => {
                if 0 <= outer < scope {
                    holder_looks_outwards(scopes, other, outer, name);
                }
            },
            None => {},
        }
    }
}

/// What is defined in a scope cannot be seen from a scope that was made
/// before it: after a block or a call, the names that it declared are out of
/// reach, and the names around it stand for what they stood for.
pub proof fn inner_definitions_stay_inside(
    scopes: Seq<ScopeView>,
    inner: int,
    outer: int,
    name: Seq<char>,
    value: ObjectView,
    seen: Seq<char>,
)
    requires
        0 <= outer < inner < scopes.len(),
    ensures
        lookup(defined(scopes, inner, name, value), outer, seen) == lookup(scopes, outer, seen),
{
    let after = defined(scopes, inner, name, value);
    holder_looks_outwards(scopes, after, outer, seen);
}

} // verus!
