//! The scope / variable-binding store.
//!
//! Scopes and variable bindings live in two arenas and are addressed by
//! index.  Each scope holds an association list from names to variable ids;
//! lookup walks outward through the parent chain, so a name unresolved in the
//! innermost scope and all of its ancestors is unresolved overall.  A binding
//! records the scope that introduced it, an optional free-name resolution,
//! and an optional chain of tags (most recent first) attached by plugins.

use vstd::prelude::*;

verus! {

pub type ScopeInfoId = usize;

pub type VariableInfoId = usize;

/// How a binding resolves as a "free" (globally meaningful) name:
/// free but not known to forward to a literal name, or free and known to
/// resolve to the literal external name carried here.
pub enum FreeName {
    True,
    Named(String),
}

/// Tag payloads are opaque plugin-supplied data, carried through the store
/// and never inspected by it; `serde_json::Value` is their interchange form.
#[verifier::external_type_specification]
#[verifier::external_body]
pub struct ExValue(serde_json::Value);

/// One tag attached to a binding: an opaque label, opaque plugin-supplied
/// payload data, and the previously attached tag, if any.
pub struct TagInfo {
    pub tag: String,
    pub data: Option<std::rc::Rc<serde_json::Value>>,
    pub next: Option<Box<TagInfo>>,
}

/// A named entry, unique per (scope, name) pair.
pub struct VariableInfo {
    pub declared_scope: ScopeInfoId,
    pub free_name: Option<FreeName>,
    pub tag_info: Option<TagInfo>,
}

/// A lexical scope: its enclosing scope, its strict-mode flag, and its
/// bindings as an association list with pairwise distinct names.
pub struct ScopeInfo {
    pub parent: Option<ScopeInfoId>,
    pub is_strict: bool,
    pub bindings: Vec<(String, VariableInfoId)>,
}

/// The store: a scope arena and a variable arena.
pub struct ScopeInfoDB {
    pub scopes: Vec<ScopeInfo>,
    pub variables: Vec<VariableInfo>,
}

// ------------------------------------------------------------------
// Mathematical model
// ------------------------------------------------------------------

pub enum FreeNameV {
    True,
    Named(Seq<char>),
}

/// One tag in a chain, at the spec level.
pub struct TagV {
    pub label: Seq<char>,
    pub data: Option<std::rc::Rc<serde_json::Value>>,
}

pub struct VariableInfoV {
    pub declared_scope: int,
    pub free_name: Option<FreeNameV>,
    pub tags: Seq<TagV>,
}

pub struct ScopeV {
    pub parent: Option<int>,
    pub is_strict: bool,
    pub bindings: Map<Seq<char>, int>,
}

pub struct ScopeInfoDBV {
    pub scopes: Seq<ScopeV>,
    pub variables: Seq<VariableInfoV>,
}

pub open spec fn free_name_view(f: Option<FreeName>) -> Option<FreeNameV> {
    match f {
        None => None,
        Some(FreeName::True) => Some(FreeNameV::True),
        Some(FreeName::Named(s)) => Some(FreeNameV::Named(s@)),
    }
}

/// The tag chain as a sequence, most recent tag first.
pub open spec fn tag_chain_view(t: TagInfo) -> Seq<TagV>
    decreases t,
{
    let head = TagV { label: t.tag@, data: t.data };
    match t.next {
        None => seq![head],
        Some(n) => seq![head] + tag_chain_view(*n),
    }
}

pub open spec fn tags_view(t: Option<TagInfo>) -> Seq<TagV> {
    match t {
        None => Seq::empty(),
        Some(t) => tag_chain_view(t),
    }
}

/// A record carries tag info exactly when its chain view is non-empty.
pub proof fn lemma_tags_view_nonempty(t: Option<TagInfo>)
    ensures
        tags_view(t).len() > 0 <==> t is Some,
{
    match t {
        None => {},
        Some(x) => {
            assert(tag_chain_view(x).len() > 0);
        },
    }
}

impl View for VariableInfo {
    type V = VariableInfoV;

    open spec fn view(&self) -> VariableInfoV {
        VariableInfoV {
            declared_scope: self.declared_scope as int,
            free_name: free_name_view(self.free_name),
            tags: tags_view(self.tag_info),
        }
    }
}

/// The association list as a map, later entries overriding earlier ones
/// (with distinct names the order is immaterial).
pub open spec fn assoc_map(s: Seq<(String, VariableInfoId)>) -> Map<Seq<char>, int>
    decreases s.len(),
{
    if s.len() == 0 {
        Map::empty()
    } else {
        assoc_map(s.drop_last()).insert(s.last().0@, s.last().1 as int)
    }
}

/// Pairwise distinct names in an association list.
pub open spec fn unique_keys(s: Seq<(String, VariableInfoId)>) -> bool {
    forall|i: int, j: int| 0 <= i < j < s.len() ==> s[i].0@ != s[j].0@
}

impl View for ScopeInfo {
    type V = ScopeV;

    open spec fn view(&self) -> ScopeV {
        ScopeV {
            parent: match self.parent {
                None => None,
                Some(p) => Some(p as int),
            },
            is_strict: self.is_strict,
            bindings: assoc_map(self.bindings@),
        }
    }
}

impl View for ScopeInfoDB {
    type V = ScopeInfoDBV;

    open spec fn view(&self) -> ScopeInfoDBV {
        ScopeInfoDBV {
            scopes: Seq::new(self.scopes@.len(), |i: int| self.scopes@[i]@),
            variables: Seq::new(self.variables@.len(), |i: int| self.variables@[i]@),
        }
    }
}

impl ScopeInfoDBV {
    /// Every parent reference points at an earlier scope, and every binding
    /// and declared-scope index is in range.
    pub open spec fn wf(self) -> bool {
        &&& forall|i: int|
            0 <= i < self.scopes.len() ==> ((#[trigger] self.scopes[i]).parent matches Some(p)
                ==> 0 <= p < i)
        &&& forall|i: int, n: Seq<char>|
            0 <= i < self.scopes.len() && #[trigger] self.scopes[i].bindings.contains_key(n)
                ==> 0 <= self.scopes[i].bindings[n] < self.variables.len()
        &&& forall|v: int|
            0 <= v < self.variables.len() ==> 0 <= (#[trigger] self.variables[v]).declared_scope
                < self.scopes.len()
    }

    /// Shadow-aware lookup: the innermost binding for `name`, found by
    /// walking outward from scope `sid` through the parent chain.
    pub open spec fn resolve(self, sid: int, name: Seq<char>) -> Option<int>
        decreases sid,
        when self.wf() && 0 <= sid < self.scopes.len()
    {
        let sc = self.scopes[sid];
        if sc.bindings.contains_key(name) {
            Some(sc.bindings[name])
        } else {
            match sc.parent {
                Some(p) => self.resolve(p, name),
                None => None,
            }
        }
    }
}

// ------------------------------------------------------------------
// Declaration and tagging, at the spec level
// ------------------------------------------------------------------

/// The labels of a binding's tag chain, most recent first.
pub open spec fn chain_labels(v: Option<VariableInfoV>) -> Seq<Seq<char>> {
    match v {
        None => Seq::empty(),
        Some(v) => v.tags.map_values(|t: TagV| t.label),
    }
}

impl ScopeInfoDBV {
    /// The content bound to `name` in scope `sid` itself (not in enclosing
    /// scopes).
    pub open spec fn binding_in_scope(self, sid: int, name: Seq<char>) -> Option<VariableInfoV> {
        if self.scopes[sid].bindings.contains_key(name) {
            Some(self.variables[self.scopes[sid].bindings[name]])
        } else {
            None
        }
    }

    /// The content of the innermost binding visible from scope `sid`.
    pub open spec fn resolved_variable(self, sid: int, name: Seq<char>) -> Option<VariableInfoV> {
        match self.resolve(sid, name) {
            Some(v) => Some(self.variables[v]),
            None => None,
        }
    }

    /// Declaring `name` in scope `sid`: a no-op when a binding declared in
    /// this very scope already carries tag info, else a fresh untagged
    /// binding replacing whatever `name` was bound to here.
    pub open spec fn spec_define(self, sid: int, name: Seq<char>) -> ScopeInfoDBV {
        let tagged_here = match self.resolve(sid, name) {
            Some(v) => self.variables[v].tags.len() > 0 && self.variables[v].declared_scope == sid,
            None => false,
        };
        if tagged_here {
            self
        } else {
            let id = self.variables.len() as int;
            ScopeInfoDBV {
                scopes: self.scopes.update(
                    sid,
                    ScopeV {
                        parent: self.scopes[sid].parent,
                        is_strict: self.scopes[sid].is_strict,
                        bindings: self.scopes[sid].bindings.insert(name, id),
                    },
                ),
                variables: self.variables.push(
                    VariableInfoV { declared_scope: sid, free_name: None, tags: Seq::empty() },
                ),
            }
        }
    }

    /// Tagging `name` from scope `sid`: prepends to the chain of the
    /// resolved binding (forcing its free name to the unnamed marker), or
    /// creates a binding that is free under its own literal name.  The new
    /// record is bound in scope `sid`; a resolved binding's old record is
    /// cleared in place.
    pub open spec fn spec_tag(
        self,
        sid: int,
        name: Seq<char>,
        label: Seq<char>,
        data: Option<std::rc::Rc<serde_json::Value>>,
    ) -> ScopeInfoDBV {
        match self.resolve(sid, name) {
            Some(old_id) => {
                let old = self.variables[old_id];
                let newv = VariableInfoV {
                    declared_scope: old.declared_scope,
                    free_name: Some(FreeNameV::True),
                    tags: seq![TagV { label, data }] + old.tags,
                };
                let cleared = VariableInfoV {
                    declared_scope: old.declared_scope,
                    free_name: None,
                    tags: Seq::empty(),
                };
                let id = self.variables.len() as int;
                ScopeInfoDBV {
                    scopes: self.scopes.update(
                        sid,
                        ScopeV {
                            parent: self.scopes[sid].parent,
                            is_strict: self.scopes[sid].is_strict,
                            bindings: self.scopes[sid].bindings.insert(name, id),
                        },
                    ),
                    variables: self.variables.update(old_id, cleared).push(newv),
                }
            },
            None => {
                let id = self.variables.len() as int;
                ScopeInfoDBV {
                    scopes: self.scopes.update(
                        sid,
                        ScopeV {
                            parent: self.scopes[sid].parent,
                            is_strict: self.scopes[sid].is_strict,
                            bindings: self.scopes[sid].bindings.insert(name, id),
                        },
                    ),
                    variables: self.variables.push(
                        VariableInfoV {
                            declared_scope: sid,
                            free_name: Some(FreeNameV::Named(name)),
                            tags: seq![TagV { label, data }],
                        },
                    ),
                }
            },
        }
    }
}

impl ScopeInfoDBV {
    /// Declaring a list of names in order.
    pub open spec fn spec_define_all(self, sid: int, names: Seq<Seq<char>>) -> ScopeInfoDBV
        decreases names.len(),
    {
        if names.len() == 0 {
            self
        } else {
            self.spec_define(sid, names[0]).spec_define_all(sid, names.drop_first())
        }
    }
}

pub proof fn lemma_define_all_preserves_wf(db: ScopeInfoDBV, sid: int, names: Seq<Seq<char>>)
    requires
        db.wf(),
        0 <= sid < db.scopes.len(),
    ensures
        db.spec_define_all(sid, names).wf(),
        db.spec_define_all(sid, names).scopes.len() == db.scopes.len(),
    decreases names.len(),
{
    if names.len() > 0 {
        lemma_define_preserves_wf(db, sid, names[0]);
        lemma_define_all_preserves_wf(db.spec_define(sid, names[0]), sid, names.drop_first());
    }
}

/// Declaring a concatenation of name lists declares the first list, then
/// the second.
pub proof fn lemma_define_all_append(
    db: ScopeInfoDBV,
    sid: int,
    a: Seq<Seq<char>>,
    b: Seq<Seq<char>>,
)
    ensures
        db.spec_define_all(sid, a + b) == db.spec_define_all(sid, a).spec_define_all(sid, b),
    decreases a.len(),
{
    if a.len() == 0 {
        assert(a + b =~= b);
    } else {
        assert((a + b)[0] == a[0]);
        assert((a + b).drop_first() =~= a.drop_first() + b);
        lemma_define_all_append(db.spec_define(sid, a[0]), sid, a.drop_first(), b);
    }
}

pub proof fn lemma_resolve_in_range(db: ScopeInfoDBV, sid: int, name: Seq<char>)
    requires
        db.wf(),
        0 <= sid < db.scopes.len(),
    ensures
        db.resolve(sid, name) matches Some(v) ==> 0 <= v < db.variables.len(),
    decreases sid,
{
    if !db.scopes[sid].bindings.contains_key(name) {
        match db.scopes[sid].parent {
            Some(p) => {
                lemma_resolve_in_range(db, p, name);
            },
            None => {},
        }
    }
}

pub proof fn lemma_define_preserves_wf(db: ScopeInfoDBV, sid: int, name: Seq<char>)
    requires
        db.wf(),
        0 <= sid < db.scopes.len(),
    ensures
        db.spec_define(sid, name).wf(),
        db.spec_define(sid, name).scopes.len() == db.scopes.len(),
{
    let db2 = db.spec_define(sid, name);
    assert forall|i: int, n: Seq<char>|
        0 <= i < db2.scopes.len() && #[trigger] db2.scopes[i].bindings.contains_key(n) implies 0
        <= db2.scopes[i].bindings[n] < db2.variables.len() by {
        if i != sid || db2 == db {
            assert(db.scopes[i].bindings.contains_key(n));
        }
    }
}

pub proof fn lemma_tag_preserves_wf(
    db: ScopeInfoDBV,
    sid: int,
    name: Seq<char>,
    label: Seq<char>,
    data: Option<std::rc::Rc<serde_json::Value>>,
)
    requires
        db.wf(),
        0 <= sid < db.scopes.len(),
    ensures
        db.spec_tag(sid, name, label, data).wf(),
        db.spec_tag(sid, name, label, data).scopes.len() == db.scopes.len(),
{
    let db2 = db.spec_tag(sid, name, label, data);
    lemma_resolve_in_range(db, sid, name);
    assert forall|i: int, n: Seq<char>|
        0 <= i < db2.scopes.len() && #[trigger] db2.scopes[i].bindings.contains_key(n) implies 0
        <= db2.scopes[i].bindings[n] < db2.variables.len() by {
        if i != sid || !(n == name) {
            assert(db.scopes[i].bindings.contains_key(n));
        }
    }
    assert forall|v: int| 0 <= v < db2.variables.len() implies 0 <= (
    #[trigger] db2.variables[v]).declared_scope < db2.scopes.len() by {
        if v < db.variables.len() {
            assert(0 <= db.variables[v].declared_scope < db.scopes.len());
        }
    }
}

/// Law: declaring the same name twice in the same scope leaves every binding
/// of that scope with the same content as declaring it once; in particular a
/// binding that already carries tag info is left untouched (no chain growth).
pub proof fn lemma_define_idempotent(db: ScopeInfoDBV, sid: int, name: Seq<char>)
    ensures
        db.wf() && 0 <= sid < db.scopes.len() ==> forall|m: Seq<char>|
            #![all_triggers]
            db.spec_define(sid, name).spec_define(sid, name).binding_in_scope(sid, m)
                == db.spec_define(sid, name).binding_in_scope(sid, m),
{
    if db.wf() && 0 <= sid < db.scopes.len() {
        let db1 = db.spec_define(sid, name);
        let db2 = db1.spec_define(sid, name);
        lemma_define_preserves_wf(db, sid, name);
        if db1 == db {
            assert(db2 == db1);
        } else {
            let id1 = db.variables.len() as int;
            assert(db1.scopes[sid].bindings.contains_key(name));
            assert(db1.resolve(sid, name) == Some(id1));
            assert(db1.variables[id1].tags.len() == 0);
            assert(db2 != db1 ==> db2.variables == db1.variables.push(
                VariableInfoV { declared_scope: sid, free_name: None, tags: Seq::empty() },
            ));
            assert forall|m: Seq<char>|
                #![all_triggers]
                db2.binding_in_scope(sid, m) == db1.binding_in_scope(sid, m) by {
                if m == name {
                    assert(db2.binding_in_scope(sid, m) == Some(
                        VariableInfoV { declared_scope: sid, free_name: None, tags: Seq::empty() },
                    ));
                    assert(db1.binding_in_scope(sid, m) == Some(
                        VariableInfoV { declared_scope: sid, free_name: None, tags: Seq::empty() },
                    ));
                }
            }
        }
    }
}

/// Law: tagging prepends — after tagging a name, the labels at its binding
/// are the new label followed by exactly the labels the resolved binding
/// carried before, so every earlier tag stays recoverable through the chain.
pub proof fn lemma_tag_prepends(
    db: ScopeInfoDBV,
    sid: int,
    name: Seq<char>,
    label: Seq<char>,
    data: Option<std::rc::Rc<serde_json::Value>>,
)
    requires
        db.wf(),
        0 <= sid < db.scopes.len(),
    ensures
        chain_labels(db.spec_tag(sid, name, label, data).binding_in_scope(sid, name)) == seq![
            label,
        ] + chain_labels(db.resolved_variable(sid, name)),
{
    let db2 = db.spec_tag(sid, name, label, data);
    lemma_resolve_in_range(db, sid, name);
    match db.resolve(sid, name) {
        Some(old_id) => {
            let old = db.variables[old_id];
            let t = TagV { label, data };
            assert(db2.binding_in_scope(sid, name) == Some(
                VariableInfoV {
                    declared_scope: old.declared_scope,
                    free_name: Some(FreeNameV::True),
                    tags: seq![t] + old.tags,
                },
            ));
            assert((seq![t] + old.tags).map_values(|x: TagV| x.label) =~= seq![label]
                + old.tags.map_values(|x: TagV| x.label));
        },
        None => {
            let t = TagV { label, data };
            assert(db2.binding_in_scope(sid, name) == Some(
                VariableInfoV {
                    declared_scope: sid,
                    free_name: Some(FreeNameV::Named(name)),
                    tags: seq![t],
                },
            ));
            assert(seq![t].map_values(|x: TagV| x.label) =~= seq![label]);
        },
    }
}

/// Sequential tagging: applies the labels in order, each with no payload.
pub open spec fn spec_tag_all(
    db: ScopeInfoDBV,
    sid: int,
    name: Seq<char>,
    labels: Seq<Seq<char>>,
) -> ScopeInfoDBV
    decreases labels.len(),
{
    if labels.len() == 0 {
        db
    } else {
        spec_tag_all(db.spec_tag(sid, name, labels[0], None), sid, name, labels.drop_first())
    }
}

proof fn lemma_tag_all_bound(db: ScopeInfoDBV, sid: int, name: Seq<char>, labels: Seq<Seq<char>>)
    requires
        db.wf(),
        0 <= sid < db.scopes.len(),
        db.scopes[sid].bindings.contains_key(name),
    ensures
        spec_tag_all(db, sid, name, labels).wf(),
        0 <= sid < spec_tag_all(db, sid, name, labels).scopes.len(),
        spec_tag_all(db, sid, name, labels).scopes[sid].bindings.contains_key(name),
        chain_labels(spec_tag_all(db, sid, name, labels).binding_in_scope(sid, name))
            == labels.reverse() + chain_labels(db.binding_in_scope(sid, name)),
    decreases labels.len(),
{
    if labels.len() == 0 {
        assert(labels.reverse() =~= Seq::<Seq<char>>::empty());
        assert(labels.reverse() + chain_labels(db.binding_in_scope(sid, name)) =~= chain_labels(
            db.binding_in_scope(sid, name),
        ));
    } else {
        let db1 = db.spec_tag(sid, name, labels[0], None);
        lemma_tag_preserves_wf(db, sid, name, labels[0], None);
        lemma_tag_prepends(db, sid, name, labels[0], None);
        assert(db.resolve(sid, name) == Some(db.scopes[sid].bindings[name]));
        assert(db.resolved_variable(sid, name) == db.binding_in_scope(sid, name));
        lemma_tag_all_bound(db1, sid, name, labels.drop_first());
        assert(labels.drop_first().reverse() + (seq![labels[0]] + chain_labels(
            db.binding_in_scope(sid, name),
        )) =~= labels.reverse() + chain_labels(db.binding_in_scope(sid, name)));
    }
}

/// Law: the chain length after `k` sequential tags on the same unshadowed,
/// initially unbound name is exactly `k`, and the labels read back most
/// recent first.
pub proof fn lemma_tag_chain_length(
    db: ScopeInfoDBV,
    sid: int,
    name: Seq<char>,
    labels: Seq<Seq<char>>,
)
    requires
        db.wf(),
        0 <= sid < db.scopes.len(),
        db.resolve(sid, name) is None,
    ensures
        chain_labels(spec_tag_all(db, sid, name, labels).binding_in_scope(sid, name))
            == labels.reverse(),
        chain_labels(spec_tag_all(db, sid, name, labels).binding_in_scope(sid, name)).len()
            == labels.len(),
{
    if labels.len() == 0 {
        assert(!db.scopes[sid].bindings.contains_key(name));
        assert(labels.reverse() =~= Seq::<Seq<char>>::empty());
    } else {
        let db1 = db.spec_tag(sid, name, labels[0], None);
        lemma_tag_preserves_wf(db, sid, name, labels[0], None);
        lemma_tag_prepends(db, sid, name, labels[0], None);
        lemma_tag_all_bound(db1, sid, name, labels.drop_first());
        assert(chain_labels(db1.binding_in_scope(sid, name)) =~= seq![labels[0]]);
        assert(labels.drop_first().reverse() + seq![labels[0]] =~= labels.reverse());
    }
}

// ------------------------------------------------------------------
// Association-list lemmas
// ------------------------------------------------------------------

pub proof fn lemma_assoc_map_domain(s: Seq<(String, VariableInfoId)>, k: Seq<char>)
    ensures
        assoc_map(s).contains_key(k) <==> exists|i: int| 0 <= i < s.len() && s[i].0@ == k,
    decreases s.len(),
{
    if s.len() > 0 {
        lemma_assoc_map_domain(s.drop_last(), k);
        if s.last().0@ == k {
            assert(s[s.len() - 1].0@ == k);
        } else {
            if assoc_map(s).contains_key(k) {
                let i = choose|i: int| 0 <= i < s.drop_last().len() && s.drop_last()[i].0@ == k;
                assert(s[i].0@ == k);
            }
            if exists|i: int| 0 <= i < s.len() && s[i].0@ == k {
                let i = choose|i: int| 0 <= i < s.len() && s[i].0@ == k;
                assert(i < s.len() - 1);
                assert(s.drop_last()[i].0@ == k);
            }
        }
    }
}

pub proof fn lemma_assoc_map_index(s: Seq<(String, VariableInfoId)>, i: int)
    requires
        unique_keys(s),
        0 <= i < s.len(),
    ensures
        assoc_map(s).contains_key(s[i].0@),
        assoc_map(s)[s[i].0@] == s[i].1 as int,
    decreases s.len(),
{
    if i == s.len() - 1 {
    } else {
        assert(unique_keys(s.drop_last()));
        assert(s.drop_last()[i] == s[i]);
        lemma_assoc_map_index(s.drop_last(), i);
        assert(s.last().0@ != s[i].0@);
    }
}

pub proof fn lemma_assoc_map_update(s: Seq<(String, VariableInfoId)>, i: int, p: (String, VariableInfoId))
    requires
        unique_keys(s),
        0 <= i < s.len(),
        p.0@ == s[i].0@,
    ensures
        unique_keys(s.update(i, p)),
        assoc_map(s.update(i, p)) == assoc_map(s).insert(p.0@, p.1 as int),
    decreases s.len(),
{
    let t = s.update(i, p);
    assert(forall|j: int| 0 <= j < s.len() && j != i ==> t[j] == s[j]);
    if i == s.len() - 1 {
        assert(t.drop_last() =~= s.drop_last());
        assert(assoc_map(t) =~= assoc_map(s).insert(p.0@, p.1 as int));
    } else {
        assert(unique_keys(s.drop_last()));
        assert(s.drop_last()[i] == s[i]);
        lemma_assoc_map_update(s.drop_last(), i, p);
        assert(t.drop_last() =~= s.drop_last().update(i, p));
        assert(t.last() == s.last());
        assert(assoc_map(t) =~= assoc_map(s).insert(p.0@, p.1 as int));
    }
}

pub proof fn lemma_assoc_map_remove(s: Seq<(String, VariableInfoId)>, i: int)
    requires
        unique_keys(s),
        0 <= i < s.len(),
    ensures
        unique_keys(s.remove(i)),
        assoc_map(s.remove(i)) == assoc_map(s).remove(s[i].0@),
    decreases s.len(),
{
    let t = s.remove(i);
    assert(forall|j: int| 0 <= j < i ==> t[j] == s[j]);
    assert(forall|j: int| i <= j < t.len() ==> t[j] == s[j + 1]);
    if i == s.len() - 1 {
        assert(t =~= s.drop_last());
        lemma_assoc_map_domain(s.drop_last(), s[i].0@);
        assert(!assoc_map(s.drop_last()).contains_key(s[i].0@));
        assert(assoc_map(t) =~= assoc_map(s).remove(s[i].0@));
    } else {
        assert(unique_keys(s.drop_last()));
        assert(s.drop_last()[i] == s[i]);
        lemma_assoc_map_remove(s.drop_last(), i);
        assert(t.drop_last() =~= s.drop_last().remove(i));
        assert(t.last() == s.last());
        assert(s.last().0@ != s[i].0@);
        assert(assoc_map(t) =~= assoc_map(s).remove(s[i].0@));
    }
}

proof fn lemma_assoc_map_push(s: Seq<(String, VariableInfoId)>, p: (String, VariableInfoId))
    ensures
        assoc_map(s.push(p)) == assoc_map(s).insert(p.0@, p.1 as int),
{
    assert(s.push(p).drop_last() =~= s);
    assert(s.push(p).last() == p);
}

// ------------------------------------------------------------------
// Executable binding-list operations
// ------------------------------------------------------------------

/// Looks `name` up in one scope's binding list.
fn bindings_get(b: &Vec<(String, VariableInfoId)>, name: &String) -> (r: Option<VariableInfoId>)
    requires
        unique_keys(b@),
    ensures
        match r {
            Some(id) => assoc_map(b@).contains_key(name@) && assoc_map(b@)[name@] == id as int,
            None => !assoc_map(b@).contains_key(name@),
        },
{
    let n = b.len();
    let mut i: usize = 0;
    while i < n
        invariant
            n == b@.len(),
            i <= n,
            unique_keys(b@),
            forall|j: int| 0 <= j < i ==> b@[j].0@ != name@,
        decreases n - i,
    {
        if b[i].0 == *name {
            proof {
                lemma_assoc_map_index(b@, i as int);
            }
            return Some(b[i].1);
        }
        i = i + 1;
    }
    proof {
        lemma_assoc_map_domain(b@, name@);
    }
    None
}

/// Binds `name` to `id` in one scope's binding list, replacing any
/// existing binding of the same name.
fn bindings_set(b: &mut Vec<(String, VariableInfoId)>, name: String, id: VariableInfoId)
    requires
        unique_keys(old(b)@),
    ensures
        unique_keys(final(b)@),
        assoc_map(final(b)@) == assoc_map(old(b)@).insert(name@, id as int),
{
    let n = b.len();
    let mut i: usize = 0;
    while i < n
        invariant
            n == b@.len(),
            i <= n,
            b@ == old(b)@,
            unique_keys(b@),
            forall|j: int| 0 <= j < i ==> b@[j].0@ != name@,
        decreases n - i,
    {
        if b[i].0 == *(&name) {
            proof {
                lemma_assoc_map_update(b@, i as int, (name, id));
            }
            b[i] = (name, id);
            return;
        }
        i = i + 1;
    }
    proof {
        lemma_assoc_map_domain(b@, name@);
        lemma_assoc_map_push(b@, (name, id));
        assert(forall|j: int| 0 <= j < b@.len() ==> b@.push((name, id))[j] == b@[j]);
    }
    b.push((name, id));
}

/// Removes the binding of `name`, if any, from one scope's binding list.
fn bindings_delete(b: &mut Vec<(String, VariableInfoId)>, name: &String)
    requires
        unique_keys(old(b)@),
    ensures
        unique_keys(final(b)@),
        assoc_map(final(b)@) == assoc_map(old(b)@).remove(name@),
{
    let n = b.len();
    let mut i: usize = 0;
    while i < n
        invariant
            n == b@.len(),
            i <= n,
            b@ == old(b)@,
            unique_keys(b@),
            forall|j: int| 0 <= j < i ==> b@[j].0@ != name@,
        decreases n - i,
    {
        if b[i].0 == *name {
            proof {
                lemma_assoc_map_remove(b@, i as int);
            }
            b.remove(i);
            return;
        }
        i = i + 1;
    }
    proof {
        lemma_assoc_map_domain(b@, name@);
        assert(assoc_map(b@) =~= assoc_map(b@).remove(name@));
    }
}

// ------------------------------------------------------------------
// Store operations
// ------------------------------------------------------------------

impl ScopeInfoDB {
    /// The binding lists of every scope have pairwise distinct names.
    pub open spec fn inv(&self) -> bool {
        &&& self@.wf()
        &&& forall|i: int|
            0 <= i < self.scopes@.len() ==> unique_keys((#[trigger] self.scopes@[i]).bindings@)
    }

    pub fn new() -> (db: ScopeInfoDB)
        ensures
            db.inv(),
            db@.scopes.len() == 0,
            db@.variables.len() == 0,
    {
        let db = ScopeInfoDB { scopes: Vec::new(), variables: Vec::new() };
        proof {
            assert(db@.scopes =~= Seq::<ScopeV>::empty());
            assert(db@.variables =~= Seq::<VariableInfoV>::empty());
        }
        db
    }

    /// Creates a fresh root scope (no parent, not strict) and returns its id.
    pub fn create(&mut self) -> (sid: ScopeInfoId)
        requires
            old(self).inv(),
        ensures
            final(self).inv(),
            sid as int == old(self)@.scopes.len(),
            final(self)@.variables == old(self)@.variables,
            final(self)@.scopes == old(self)@.scopes.push(
                ScopeV { parent: None, is_strict: false, bindings: Map::empty() },
            ),
    {
        let sid = self.scopes.len();
        self.scopes.push(ScopeInfo { parent: None, is_strict: false, bindings: Vec::new() });
        proof {
            assert(final(self)@.scopes =~= old(self)@.scopes.push(
                ScopeV { parent: None, is_strict: false, bindings: Map::empty() },
            )) by {
                assert(assoc_map(Seq::<(String, VariableInfoId)>::empty()) =~= Map::<
                    Seq<char>,
                    int,
                >::empty());
            }
            assert(final(self)@.variables =~= old(self)@.variables);
        }
        sid
    }

    /// Stores `info` as a fresh variable and binds `name` to it in scope
    /// `sid`, replacing any previous binding of `name` there.
    pub fn set(&mut self, sid: ScopeInfoId, name: String, info: VariableInfo) -> (id:
        VariableInfoId)
        requires
            old(self).inv(),
            (sid as int) < old(self)@.scopes.len(),
            (info.declared_scope as int) < old(self)@.scopes.len(),
        ensures
            final(self).inv(),
            id as int == old(self)@.variables.len(),
            final(self)@.variables == old(self)@.variables.push(info@),
            final(self)@.scopes == old(self)@.scopes.update(
                sid as int,
                ScopeV {
                    parent: old(self)@.scopes[sid as int].parent,
                    is_strict: old(self)@.scopes[sid as int].is_strict,
                    bindings: old(self)@.scopes[sid as int].bindings.insert(name@, id as int),
                },
            ),
    {
        let id = self.variables.len();
        self.variables.push(info);
        bindings_set(&mut self.scopes[sid].bindings, name, id);
        proof {
            assert(final(self)@.variables =~= old(self)@.variables.push(info@));
            assert(final(self)@.scopes =~= old(self)@.scopes.update(
                sid as int,
                ScopeV {
                    parent: old(self)@.scopes[sid as int].parent,
                    is_strict: old(self)@.scopes[sid as int].is_strict,
                    bindings: old(self)@.scopes[sid as int].bindings.insert(name@, id as int),
                },
            ));
        }
        id
    }

    /// Removes the binding of `name` from scope `sid` itself (never from an
    /// enclosing scope).
    pub fn delete(&mut self, sid: ScopeInfoId, name: &String)
        requires
            old(self).inv(),
            (sid as int) < old(self)@.scopes.len(),
        ensures
            final(self).inv(),
            final(self)@.variables == old(self)@.variables,
            final(self)@.scopes == old(self)@.scopes.update(
                sid as int,
                ScopeV {
                    parent: old(self)@.scopes[sid as int].parent,
                    is_strict: old(self)@.scopes[sid as int].is_strict,
                    bindings: old(self)@.scopes[sid as int].bindings.remove(name@),
                },
            ),
    {
        bindings_delete(&mut self.scopes[sid].bindings, name);
        proof {
            assert(final(self)@.variables =~= old(self)@.variables);
            assert(final(self)@.scopes =~= old(self)@.scopes.update(
                sid as int,
                ScopeV {
                    parent: old(self)@.scopes[sid as int].parent,
                    is_strict: old(self)@.scopes[sid as int].is_strict,
                    bindings: old(self)@.scopes[sid as int].bindings.remove(name@),
                },
            ));
        }
    }

    /// Sets the strict-mode flag of scope `sid`.
    pub fn set_strict(&mut self, sid: ScopeInfoId, value: bool)
        requires
            old(self).inv(),
            (sid as int) < old(self)@.scopes.len(),
        ensures
            final(self).inv(),
            final(self)@.variables == old(self)@.variables,
            final(self)@.scopes == old(self)@.scopes.update(
                sid as int,
                ScopeV {
                    parent: old(self)@.scopes[sid as int].parent,
                    is_strict: value,
                    bindings: old(self)@.scopes[sid as int].bindings,
                },
            ),
    {
        self.scopes[sid].is_strict = value;
        proof {
            assert(final(self)@.variables =~= old(self)@.variables);
            assert(final(self)@.scopes =~= old(self)@.scopes.update(
                sid as int,
                ScopeV {
                    parent: old(self)@.scopes[sid as int].parent,
                    is_strict: value,
                    bindings: old(self)@.scopes[sid as int].bindings,
                },
            ));
        }
    }

    /// Reads the strict-mode flag of scope `sid`.
    pub fn is_strict(&self, sid: ScopeInfoId) -> (r: bool)
        requires
            self.inv(),
            (sid as int) < self@.scopes.len(),
        ensures
            r == self@.scopes[sid as int].is_strict,
    {
        self.scopes[sid].is_strict
    }

    /// Reads the variable record with id `id`.
    pub fn expect_get_variable(&self, id: VariableInfoId) -> (v: &VariableInfo)
        requires
            self.inv(),
            (id as int) < self@.variables.len(),
        ensures
            v@ == self@.variables[id as int],
    {
        &self.variables[id]
    }

    /// Moves the variable record with id `id` out of the store, leaving an
    /// empty record (same declared scope, no free name, no tags) behind.
    pub fn take_variable(&mut self, id: VariableInfoId) -> (v: VariableInfo)
        requires
            old(self).inv(),
            (id as int) < old(self)@.variables.len(),
        ensures
            final(self).inv(),
            v@ == old(self)@.variables[id as int],
            (v.declared_scope as int) < final(self)@.scopes.len(),
            final(self)@.scopes == old(self)@.scopes,
            final(self)@.variables == old(self)@.variables.update(
                id as int,
                VariableInfoV {
                    declared_scope: v@.declared_scope,
                    free_name: None,
                    tags: Seq::empty(),
                },
            ),
    {
        proof {
            assert(0 <= old(self)@.variables[id as int].declared_scope);
            assert(old(self)@.variables[id as int].declared_scope < old(self)@.scopes.len());
        }
        let ds = self.variables[id].declared_scope;
        let mut tmp = VariableInfo { declared_scope: ds, free_name: None, tag_info: None };
        core::mem::swap(&mut self.variables[id], &mut tmp);
        proof {
            assert(final(self)@.scopes =~= old(self)@.scopes);
            assert(final(self)@.variables =~= old(self)@.variables.update(
                id as int,
                VariableInfoV {
                    declared_scope: tmp@.declared_scope,
                    free_name: None,
                    tags: Seq::empty(),
                },
            ));
            assert(forall|v: int|
                0 <= v < final(self)@.variables.len() ==> 0 <= (
                #[trigger] final(self)@.variables[v]).declared_scope < final(self)@.scopes.len())
                by {
                assert(forall|v: int|
                    0 <= v < old(self)@.variables.len() && v != id as int
                        ==> final(self)@.variables[v] == old(self)@.variables[v]);
            }
        }
        tmp
    }

    /// Looks `name` up from scope `sid` outward through the parent chain.
    pub fn get(&self, sid: ScopeInfoId, name: &String) -> (r: Option<VariableInfoId>)
        requires
            self.inv(),
            (sid as int) < self@.scopes.len(),
        ensures
            match r {
                Some(id) => self@.resolve(sid as int, name@) == Some(id as int),
                None => self@.resolve(sid as int, name@) is None,
            },
    {
        let mut cur: usize = sid;
        loop
            invariant
                self.inv(),
                (cur as int) < self@.scopes.len(),
                self@.resolve(sid as int, name@) == self@.resolve(cur as int, name@),
            decreases cur,
        {
            let r = bindings_get(&self.scopes[cur].bindings, name);
            if let Some(id) = r {
                return Some(id);
            }
            match self.scopes[cur].parent {
                Some(p) => {
                    cur = p;
                },
                None => {
                    return None;
                },
            }
        }
    }
}

} // verus!
