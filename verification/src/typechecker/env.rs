//! Scopes of named entities.
use vstd::prelude::*;
use vstd::string::StringExecFns;
use crate::lexer::span::Span;
use crate::typechecker::error::{BindingKind, TypeError};
use crate::typechecker::types::{Ty, TyView};

verus! {

/// What is known of a name.
#[derive(Debug)]
pub struct EntityInfo {
    pub ty: Ty,
    pub kind: BindingKind,
    pub span: Span,
}

/// What is known of a name, as mathematical values.
pub struct EntityView {
    pub ty: TyView,
    pub kind: BindingKind,
    pub span: Span,
}

impl View for EntityInfo {
    type V = EntityView;

    open spec fn view(&self) -> EntityView {
        EntityView { ty: self.ty@, kind: self.kind, span: self.span }
    }
}

impl Clone for EntityInfo {
    fn clone(&self) -> (r: Self)
        ensures
            r@ == self@,
    {
        EntityInfo { ty: self.ty.duplicate(), kind: self.kind, span: self.span }
    }
}

/// One scope: its bindings in the order they were made.
pub type ScopeView = Seq<(Seq<char>, EntityView)>;

pub open spec fn scope_view(s: Seq<(String, EntityInfo)>) -> ScopeView {
    Seq::new(s.len(), |i: int| (s[i].0@, s[i].1@))
}

/// The binding of `name` in one scope: the latest one made.
pub open spec fn find_in_scope(scope: ScopeView, name: Seq<char>) -> Option<EntityView>
    decreases scope.len(),
{
    if scope.len() == 0 {
        None
    } else if scope.last().0 == name {
        Some(scope.last().1)
    } else {
        find_in_scope(scope.drop_last(), name)
    }
}

/// Whether `name` is bound in the scope.
pub open spec fn declared_in(scope: ScopeView, name: Seq<char>) -> bool {
    exists|i: int| 0 <= i < scope.len() && (#[trigger] scope[i]).0 == name
}

/// The binding `name` refers to: the one in the innermost scope that binds it.
pub open spec fn resolve(scopes: Seq<ScopeView>, name: Seq<char>) -> Option<EntityView>
    decreases scopes.len(),
{
    if scopes.len() == 0 {
        None
    } else {
        match find_in_scope(scopes.last(), name) {
            Some(e) => Some(e),
            None => resolve(scopes.drop_last(), name),
        }
    }
}

/// The scopes after a new, empty innermost scope is opened.
pub open spec fn spec_push(scopes: Seq<ScopeView>) -> Seq<ScopeView> {
    scopes.push(Seq::empty())
}

/// The scopes after the innermost one is closed (nothing changes when there is none).
pub open spec fn spec_pop(scopes: Seq<ScopeView>) -> Seq<ScopeView> {
    if scopes.len() == 0 {
        scopes
    } else {
        scopes.drop_last()
    }
}

/// The scopes after `name` is bound in the innermost one (which is opened first
/// when there is none).
pub open spec fn spec_define(scopes: Seq<ScopeView>, name: Seq<char>, info: EntityView) -> Seq<
    ScopeView,
> {
    let s = if scopes.len() == 0 {
        spec_push(scopes)
    } else {
        scopes
    };
    s.update(s.len() - 1, s.last().push((name, info)))
}

/// Nested scopes of names, innermost last. No scope binds a name twice.
pub struct Env {
    scopes: Vec<Vec<(String, EntityInfo)>>,
}

impl View for Env {
    type V = Seq<ScopeView>;

    closed spec fn view(&self) -> Seq<ScopeView> {
        Seq::new(self.scopes@.len(), |i: int| scope_view(self.scopes@[i]@))
    }
}

impl Env {
    /// No scope binds a name twice.
    #[verifier::type_invariant]
    closed spec fn names_apart(self) -> bool {
        distinct_names(self@)
    }
}

/// The view of a looked-up binding.
pub open spec fn info_view(r: Option<EntityInfo>) -> Option<EntityView> {
    match r {
        Some(e) => Some(e@),
        None => None,
    }
}

/// No scope binds a name twice.
pub open spec fn distinct_names(scopes: Seq<ScopeView>) -> bool {
    forall|s: int, i: int, j: int|
        0 <= s < scopes.len() && 0 <= i < j < scopes[s].len() ==> (#[trigger] scopes[s][i]).0
            != (#[trigger] scopes[s][j]).0
}

impl Default for Env {
    fn default() -> (e: Env)
        ensures
            e@ == Seq::<ScopeView>::empty(),
            distinct_names(e@),
    {
        Env { scopes: Vec::new() }
    }
}

impl Env {
    /// Opens a new, empty innermost scope.
    pub fn push(&mut self)
        ensures
            final(self)@ == spec_push(old(self)@),
            distinct_names(final(self)@),
    {
        proof {
            use_type_invariant(&*self);
        }
        let mut scopes: Vec<Vec<(String, EntityInfo)>> = Vec::new();
        std::mem::swap(&mut scopes, &mut self.scopes);
        scopes.push(Vec::new());
        let ghost after = Seq::new(scopes@.len(), |i: int| scope_view(scopes@[i]@));
        assert(after.last() =~= Seq::<(Seq<char>, EntityView)>::empty());
        assert(after =~= spec_push(old(self)@));
        self.scopes = scopes;
    }

    /// Closes the innermost scope, if there is one.
    pub fn pop(&mut self)
        ensures
            final(self)@ == spec_pop(old(self)@),
            distinct_names(final(self)@),
    {
        proof {
            use_type_invariant(&*self);
        }
        let mut scopes: Vec<Vec<(String, EntityInfo)>> = Vec::new();
        std::mem::swap(&mut scopes, &mut self.scopes);
        scopes.pop();
        let ghost after = Seq::new(scopes@.len(), |i: int| scope_view(scopes@[i]@));
        assert(after =~= spec_pop(old(self)@));
        self.scopes = scopes;
    }

    /// Binds `name` in the innermost scope, opening one when there is none. A
    /// name may be bound only once in a scope.
    pub fn define(&mut self, name: String, ty: Ty, kind: BindingKind, span: &Span) -> (r: Result<
        (),
        TypeError,
    >)
        requires
            old(self)@.len() > 0 ==> !declared_in(old(self)@.last(), name@),
        ensures
            r is Ok,
            final(self)@ == spec_define(
                old(self)@,
                name@,
                EntityView { ty: ty@, kind, span: *span },
            ),
            distinct_names(final(self)@),
    {
        if self.scopes.len() == 0 {
            self.push();
        }
        if self.defined_here(&name) {
            return vstd::pervasive::unreached();
        }
        proof {
            use_type_invariant(&*self);
        }
        let ghost before = self@;
        let mut scopes: Vec<Vec<(String, EntityInfo)>> = Vec::new();
        std::mem::swap(&mut scopes, &mut self.scopes);
        assert(before == Seq::new(scopes@.len(), |i: int| scope_view(scopes@[i]@)));
        let last = scopes.len() - 1;
        let ghost old_scope = scopes@[last as int]@;
        let ghost tyv = ty@;
        scopes[last].push((name, EntityInfo { ty, kind, span: *span }));
        proof {
            let after = Seq::new(scopes@.len(), |i: int| scope_view(scopes@[i]@));
            let target = spec_define(old(self)@, name@, EntityView { ty: tyv, kind, span: *span });
            assert(scope_view(scopes@[last as int]@) =~= scope_view(old_scope).push(
                (name@, EntityView { ty: tyv, kind, span: *span }),
            ));
            assert(after =~= target);
            assert forall|k: int, i: int, j: int|
                0 <= k < after.len() && 0 <= i < j < after[k].len() implies (#[trigger] after[k][i]).0
                    != (#[trigger] after[k][j]).0 by {
                if k == last && j == after[k].len() - 1 {
                    if after[k][i].0 == name@ {
                        assert(before.last()[i] == after[k][i]);
                    }
                } else if k != last {
                    assert(after[k] == before[k]);
                } else {
                    assert(after[k][i] == before[k][i]);
                    assert(after[k][j] == before[k][j]);
                }
            }
        }
        self.scopes = scopes;
        Ok(())
    }

    /// Whether `name` is bound in the innermost scope.
    #[verifier::loop_isolation(false)]
    pub fn defined_here(&self, name: &String) -> (r: bool)
        ensures
            r == (self@.len() > 0 && declared_in(self@.last(), name@)),
    {
        let n = self.scopes.len();
        if n == 0 {
            return false;
        }
        let scope = &self.scopes[n - 1];
        let ghost sv = scope_view(scope@);
        assert(sv == self@.last());
        let mut j: usize = 0;
        while j < scope.len()
            invariant
                j <= scope@.len(),
                sv == scope_view(scope@),
                forall|k: int| 0 <= k < j ==> sv[k].0 != name@,
            decreases scope@.len() - j,
        {
            if scope[j].0 == *name {
                assert(sv[j as int].0 == name@);
                assert(self@.last()[j as int].0 == name@);
                return true;
            }
            j = j + 1;
        }
        false
    }

    /// What `name` refers to: the binding in the innermost scope that binds it.
    #[verifier::loop_isolation(false)]
    pub fn lookup(&self, name: &str) -> (r: Option<EntityInfo>)
        ensures
            info_view(r) == resolve(self@, name@),
    {
        let key = String::from_str(name);
        let ghost all = self@;
        let mut i = self.scopes.len();
        assert(all.take(i as int) =~= all);
        while i > 0
            invariant
                i <= self.scopes@.len(),
                all == self@,
                key@ == name@,
                resolve(all, name@) == resolve(all.take(i as int), name@),
            decreases i,
        {
            i = i - 1;
            let scope = &self.scopes[i];
            let ghost sv = scope_view(scope@);
            assert(all.take(i + 1).last() == sv);
            assert(all.take(i + 1).drop_last() =~= all.take(i as int));
            let mut j = scope.len();
            assert(sv.take(j as int) =~= sv);
            while j > 0
                invariant
                    j <= scope@.len(),
                    sv == scope_view(scope@),
                    key@ == name@,
                    find_in_scope(sv, name@) == find_in_scope(sv.take(j as int), name@),
                decreases j,
            {
                j = j - 1;
                assert(sv.take(j + 1).drop_last() =~= sv.take(j as int));
                if scope[j].0 == key {
                    assert(sv.take(j + 1).last() == sv[j as int]);
                    let found = scope[j].1.clone();
                    assert(found@ == sv[j as int].1);
                    return Some(found);
                }
            }
            assert(sv.take(0) =~= Seq::<(Seq<char>, EntityView)>::empty());
        }
        None
    }
}

// ---------------------------------------------------------------------------
// Laws of scopes

/// A name just bound is what the name then refers to.
pub proof fn law_lookup_after_define(scopes: Seq<ScopeView>, name: Seq<char>, info: EntityView)
    ensures
        resolve(spec_define(scopes, name, info), name) == Some(info),
{
    let s = if scopes.len() == 0 {
        spec_push(scopes)
    } else {
        scopes
    };
    let d = spec_define(scopes, name, info);
    assert(d.last() == s.last().push((name, info)));
}

/// Binding a name leaves what every other name refers to unchanged.
pub proof fn law_define_keeps_other_names(
    scopes: Seq<ScopeView>,
    name: Seq<char>,
    info: EntityView,
    other: Seq<char>,
)
    requires
        other != name,
    ensures
        resolve(spec_define(scopes, name, info), other) == resolve(scopes, other),
{
    let s = if scopes.len() == 0 {
        spec_push(scopes)
    } else {
        scopes
    };
    let d = spec_define(scopes, name, info);
    assert(d.last().drop_last() =~= s.last());
    assert(d.drop_last() =~= s.drop_last());
    if scopes.len() == 0 {
        assert(s.drop_last() =~= scopes);
        assert(s.last() =~= Seq::<(Seq<char>, EntityView)>::empty());
    }
}

/// Closing a scope just opened gives back the scopes there were.
pub proof fn law_pop_after_push(scopes: Seq<ScopeView>)
    ensures
        spec_pop(spec_push(scopes)) == scopes,
{
    assert(spec_push(scopes).drop_last() =~= scopes);
}

/// A binding in an inner scope hides the outer bindings of the same name while
/// that scope is open, and closing the scope makes the outer binding visible again.
pub proof fn law_shadowing(scopes: Seq<ScopeView>, name: Seq<char>, info: EntityView)
    ensures
        resolve(spec_define(spec_push(scopes), name, info), name) == Some(info),
        resolve(spec_pop(spec_define(spec_push(scopes), name, info)), name) == resolve(scopes, name),
{
    law_lookup_after_define(spec_push(scopes), name, info);
    let d = spec_define(spec_push(scopes), name, info);
    assert(d.drop_last() =~= scopes);
}

/// Opening a new scope changes what no name refers to.
pub proof fn law_push_keeps_names(scopes: Seq<ScopeView>, name: Seq<char>)
    ensures
        resolve(spec_push(scopes), name) == resolve(scopes, name),
{
    assert(spec_push(scopes).drop_last() =~= scopes);
}

} // verus!
