//! The plugin registry: the registered plugins, looked up by name and by prefix,
//! with the lifecycle's transition rules enforced on state updates.

use vstd::prelude::*;
use vstd::string::*;
use crate::instance::InstanceView;
use crate::instance::PluginInstance;
use crate::instance::instances_view;
use crate::state::PluginState;
use crate::state::StateView;
use crate::state::is_active;
use crate::state::state_debug_text;
use crate::state::valid_transition;
use crate::seqs::lemma_push_contains;
use crate::text::concat3;
use crate::text::starts_with;
use crate::text::str_eq;

verus! {

/// No two plugins share a name.
pub open spec fn names_unique(s: Seq<InstanceView>) -> bool {
    forall|i: int, j: int|
        0 <= i < s.len() && 0 <= j < s.len() && i != j ==> s[i].manifest.name != s[j].manifest.name
}

/// Some plugin has the name `id`.
pub open spec fn has_name(s: Seq<InstanceView>, id: Seq<char>) -> bool {
    exists|i: int| 0 <= i < s.len() && s[i].manifest.name == id
}

/// The position of the plugin named `id` (meaningful where `has_name`).
pub open spec fn index_of(s: Seq<InstanceView>, id: Seq<char>) -> int {
    choose|i: int| 0 <= i < s.len() && s[i].manifest.name == id
}

/// The plugin named `id`, if any.
pub open spec fn lookup(s: Seq<InstanceView>, id: Seq<char>) -> Option<InstanceView> {
    if has_name(s, id) {
        Some(s[index_of(s, id)])
    } else {
        None
    }
}

/// A plugin answers a prefix query when it has a prefix and either the query is a
/// prefix of it or it is a prefix of the query.
pub open spec fn prefix_matches(p: InstanceView, query: Seq<char>) -> bool {
    match p.manifest.prefix {
        Some(pre) => query.is_prefix_of(pre) || pre.is_prefix_of(query),
        None => false,
    }
}

/// The plugins that answer a prefix query, in registration order.
pub open spec fn matching(s: Seq<InstanceView>, query: Seq<char>) -> Seq<InstanceView>
    decreases s.len(),
{
    if s.len() == 0 {
        s
    } else {
        let r = matching(s.drop_last(), query);
        if prefix_matches(s.last(), query) {
            r.push(s.last())
        } else {
            r
        }
    }
}

/// The plugins in state `Ready` or `Cached`, in registration order.
pub open spec fn active(s: Seq<InstanceView>) -> Seq<InstanceView>
    decreases s.len(),
{
    if s.len() == 0 {
        s
    } else {
        let r = active(s.drop_last());
        if is_active(s.last().state) {
            r.push(s.last())
        } else {
            r
        }
    }
}

/// The characters of an optional plugin record.
pub open spec fn opt_instance(o: Option<PluginInstance>) -> Option<InstanceView> {
    match o {
        Some(p) => Some(p@),
        None => None,
    }
}

/// The message of a refused registration.
pub open spec fn duplicate_message(id: Seq<char>) -> Seq<char> {
    "Plugin '"@ + id + "' already registered"@
}

/// The message for a name that is not registered.
pub open spec fn not_found_message(id: Seq<char>) -> Seq<char> {
    "Plugin '"@ + id + "' not found"@
}

/// The message of a refused state transition.
pub open spec fn transition_message(from: StateView, to: StateView, id: Seq<char>) -> Seq<char> {
    "Invalid state transition: "@ + state_debug_text(from) + " -> "@ + state_debug_text(to)
        + " for plugin '"@ + id + "'"@
}

/// Read after register: once a plugin with a fresh name is registered, looking up
/// that name gives it back, names stay unique, and every other name gives what it
/// gave before.
pub proof fn law_register_then_get(s: Seq<InstanceView>, p: InstanceView, other: Seq<char>)
    requires
        names_unique(s),
        !has_name(s, p.manifest.name),
    ensures
        names_unique(s.push(p)),
        lookup(s.push(p), p.manifest.name) == Some(p),
        other != p.manifest.name ==> lookup(s.push(p), other) == lookup(s, other),
{
    let t = s.push(p);
    assert forall|i: int, j: int|
        0 <= i < t.len() && 0 <= j < t.len() && i != j implies t[i].manifest.name
        != t[j].manifest.name by {
        if i < s.len() && j < s.len() {
            assert(t[i] == s[i] && t[j] == s[j]);
        } else if i < s.len() {
            assert(t[i] == s[i]);
        } else {
            assert(t[j] == s[j]);
        }
    }
    let n = s.len() as int;
    assert(t[n] == p);
    let k = index_of(t, p.manifest.name);
    assert(has_name(t, p.manifest.name));
    if k != n {
        assert(t[k].manifest.name != t[n].manifest.name);
    }
    if other != p.manifest.name {
        if has_name(s, other) {
            let a = index_of(s, other);
            assert(t[a] == s[a]);
            assert(has_name(t, other));
            let b = index_of(t, other);
            if b != a {
                assert(t[b].manifest.name != t[a].manifest.name);
            }
        } else {
            if has_name(t, other) {
                let b = index_of(t, other);
                assert(b < s.len());
                assert(s[b] == t[b]);
            }
        }
    }
}

/// Unregister undoes register: registering a plugin with a fresh name and then
/// unregistering that name leaves the registry as it was.
pub proof fn law_unregister_undoes_register(s: Seq<InstanceView>, p: InstanceView)
    requires
        names_unique(s),
        !has_name(s, p.manifest.name),
    ensures
        has_name(s.push(p), p.manifest.name),
        s.push(p).remove(index_of(s.push(p), p.manifest.name)) == s,
{
    law_register_then_get(s, p, p.manifest.name);
    let t = s.push(p);
    let k = index_of(t, p.manifest.name);
    assert(k == s.len() as int) by {
        let n = s.len() as int;
        assert(t[n] == p);
        if k != n {
            assert(t[k].manifest.name != t[n].manifest.name);
        }
    }
    assert(t.remove(k) =~= s);
}

/// After unregistering a name, that name is no longer registered, names stay
/// unique, and the registry holds one plugin fewer.
pub proof fn law_unregister_removes(s: Seq<InstanceView>, id: Seq<char>)
    requires
        names_unique(s),
        has_name(s, id),
    ensures
        !has_name(s.remove(index_of(s, id)), id),
        names_unique(s.remove(index_of(s, id))),
        s.remove(index_of(s, id)).len() == s.len() - 1,
{
    let k = index_of(s, id);
    let t = s.remove(k);
    if has_name(t, id) {
        let j = choose|j: int| 0 <= j < t.len() && t[j].manifest.name == id;
        let j2 = if j < k { j } else { j + 1 };
        assert(t[j] == s[j2]);
        assert(s[k].manifest.name == id);
    }
    assert forall|a: int, b: int|
        0 <= a < t.len() && 0 <= b < t.len() && a != b implies t[a].manifest.name
        != t[b].manifest.name by {
        let a2 = if a < k { a } else { a + 1 };
        let b2 = if b < k { b } else { b + 1 };
        assert(t[a] == s[a2]);
        assert(t[b] == s[b2]);
    }
}

/// A state update keeps the registered names, their number, and every other
/// plugin; the updated plugin differs only in its state.
pub proof fn law_update_keeps_others(s: Seq<InstanceView>, id: Seq<char>, st: StateView, other: Seq<char>)
    requires
        names_unique(s),
        has_name(s, id),
    ensures
        names_unique(s.update(index_of(s, id), InstanceView { state: st, ..s[index_of(s, id)] })),
        s.update(index_of(s, id), InstanceView { state: st, ..s[index_of(s, id)] }).len()
            == s.len(),
        lookup(s.update(index_of(s, id), InstanceView { state: st, ..s[index_of(s, id)] }), id)
            == Some(InstanceView { state: st, ..s[index_of(s, id)] }),
        other != id ==> lookup(
            s.update(index_of(s, id), InstanceView { state: st, ..s[index_of(s, id)] }),
            other,
        ) == lookup(s, other),
{
    let k = index_of(s, id);
    let q = InstanceView { state: st, ..s[k] };
    let t = s.update(k, q);
    assert forall|a: int, b: int|
        0 <= a < t.len() && 0 <= b < t.len() && a != b implies t[a].manifest.name
        != t[b].manifest.name by {
        assert(t[a].manifest.name == s[a].manifest.name);
        assert(t[b].manifest.name == s[b].manifest.name);
    }
    assert(t[k] == q);
    assert(has_name(t, id));
    let k2 = index_of(t, id);
    if k2 != k {
        assert(t[k2].manifest.name != t[k].manifest.name);
    }
    if other != id {
        if has_name(s, other) {
            let a = index_of(s, other);
            assert(t[a] == s[a]);
            assert(has_name(t, other));
            let b = index_of(t, other);
            if b != a {
                assert(t[b].manifest.name != t[a].manifest.name);
            }
        } else {
            if has_name(t, other) {
                let b = index_of(t, other);
                assert(t[b].manifest.name == s[b].manifest.name);
            }
        }
    }
}

/// Every state may stay as it is: the transition relation is reflexive.
pub proof fn law_transition_reflexive(st: StateView)
    ensures
        valid_transition(st, st),
{
}

/// A plugin is among the active plugins exactly when it is registered and its
/// state is `Ready` or `Cached`.
pub proof fn law_active_membership(s: Seq<InstanceView>, x: InstanceView)
    ensures
        active(s).contains(x) <==> (s.contains(x) && is_active(x.state)),
        active(s).len() <= s.len(),
    decreases s.len(),
{
    if s.len() > 0 {
        law_active_membership(s.drop_last(), x);
        assert(s =~= s.drop_last().push(s.last()));
        let r = active(s.drop_last());
        if is_active(s.last().state) {
            lemma_push_contains(r, s.last(), x);
        }
        lemma_push_contains(s.drop_last(), s.last(), x);
    } else {
        assert(active(s) =~= s);
    }
}

/// A plugin answers a prefix query exactly when it is registered, has a prefix,
/// and the query and that prefix are prefixes one of the other.
pub proof fn law_search_membership(s: Seq<InstanceView>, q: Seq<char>, x: InstanceView)
    ensures
        matching(s, q).contains(x) <==> (s.contains(x) && prefix_matches(x, q)),
        matching(s, q).len() <= s.len(),
    decreases s.len(),
{
    if s.len() > 0 {
        law_search_membership(s.drop_last(), q, x);
        assert(s =~= s.drop_last().push(s.last()));
        let r = matching(s.drop_last(), q);
        if prefix_matches(s.last(), q) {
            lemma_push_contains(r, s.last(), x);
        }
        lemma_push_contains(s.drop_last(), s.last(), x);
    }
}

/// A prefix search never answers the same plugin name twice.
pub proof fn law_search_no_duplicate_names(s: Seq<InstanceView>, q: Seq<char>)
    requires
        names_unique(s),
    ensures
        names_unique(matching(s, q)),
    decreases s.len(),
{
    if s.len() > 0 {
        let d = s.drop_last();
        assert(names_unique(d)) by {
            assert forall|i: int, j: int|
                0 <= i < d.len() && 0 <= j < d.len() && i != j implies d[i].manifest.name
                != d[j].manifest.name by {
                assert(d[i] == s[i] && d[j] == s[j]);
            }
        }
        law_search_no_duplicate_names(d, q);
        let r = matching(d, q);
        if prefix_matches(s.last(), q) {
            let t = r.push(s.last());
            assert forall|i: int, j: int|
                0 <= i < t.len() && 0 <= j < t.len() && i != j implies t[i].manifest.name
                != t[j].manifest.name by {
                if i < r.len() && j < r.len() {
                    assert(t[i] == r[i] && t[j] == r[j]);
                } else if i < r.len() {
                    assert(t[i] == r[i]);
                    law_search_membership(d, q, r[i]);
                    assert(r.contains(r[i]));
                    let m = choose|m: int| 0 <= m < d.len() && d[m] == r[i];
                    assert(s[m] == d[m]);
                    assert(s[s.len() - 1] == s.last());
                } else {
                    assert(t[j] == r[j]);
                    law_search_membership(d, q, r[j]);
                    assert(r.contains(r[j]));
                    let m = choose|m: int| 0 <= m < d.len() && d[m] == r[j];
                    assert(s[m] == d[m]);
                    assert(s[s.len() - 1] == s.last());
                }
            }
        }
    }
}

/// The registry of plugins, by name and prefix.
pub struct PluginRegistry {
    instances: Vec<PluginInstance>,
}

impl View for PluginRegistry {
    type V = Seq<InstanceView>;

    open spec fn view(&self) -> Seq<InstanceView> {
        self.contents()
    }
}

impl PluginRegistry {
    /// The registered plugins, in registration order.
    pub closed spec fn contents(&self) -> Seq<InstanceView> {
        instances_view(self.instances@)
    }

    /// The registry's invariant: plugin names are unique.
    pub open spec fn wf(&self) -> bool {
        names_unique(self@)
    }

    /// An empty registry.
    pub fn new() -> (r: Self)
        ensures
            r@ == Seq::<InstanceView>::empty(),
            r.wf(),
    {
        let r = PluginRegistry { instances: Vec::new() };
        assert(r@ =~= Seq::<InstanceView>::empty());
        r
    }

    fn position(&self, id: &str) -> (r: Option<usize>)
        requires
            self.wf(),
        ensures
            match r {
                Some(i) => i < self@.len() && has_name(self@, id@) && i == index_of(self@, id@),
                None => !has_name(self@, id@),
            },
    {
        let mut i: usize = 0;
        while i < self.instances.len()
            invariant
                i <= self.instances@.len(),
                self@.len() == self.instances@.len(),
                self@ == instances_view(self.instances@),
                names_unique(self@),
                forall|j: int| 0 <= j < i ==> self@[j].manifest.name != id@,
            decreases self.instances.len() - i,
        {
            if str_eq(self.instances[i].manifest.name.as_str(), id) {
                proof {
                    assert(self@[i as int].manifest.name == id@);
                    let k = index_of(self@, id@);
                    assert(0 <= k < self@.len() && self@[k].manifest.name == id@);
                    if k != i as int {
                        assert(self@[k].manifest.name != self@[i as int].manifest.name);
                    }
                }
                return Some(i);
            }
            i = i + 1;
        }
        None
    }

    /// Registers a plugin under its manifest name; refuses a name already registered.
    pub fn register(&mut self, instance: PluginInstance) -> (r: Result<(), String>)
        requires
            old(self).wf(),
        ensures
            final(self).wf(),
            has_name(old(self)@, instance@.manifest.name) ==> (r matches Err(e) && e@
                == duplicate_message(instance@.manifest.name) && final(self)@ == old(self)@),
            !has_name(old(self)@, instance@.manifest.name) ==> (r is Ok && final(self)@ == old(
                self,
            )@.push(instance@)),
    {
        match self.position(instance.manifest.name.as_str()) {
            Some(_) => {
                Err(concat3("Plugin '", instance.manifest.name.as_str(), "' already registered"))
            },
            None => {
                let ghost name = instance@.manifest.name;
                self.instances.push(instance);
                assert(self@ =~= old(self)@.push(instance@));
                assert forall|i: int, j: int|
                    0 <= i < self@.len() && 0 <= j < self@.len() && i != j implies self@[i].manifest.name
                    != self@[j].manifest.name by {
                    if i < old(self)@.len() && j < old(self)@.len() {
                    } else if i < old(self)@.len() {
                        assert(old(self)@[i].manifest.name != name);
                    } else {
                        assert(old(self)@[j].manifest.name != name);
                    }
                }
                Ok(())
            },
        }
    }

    /// Removes the plugin named `id`; an unknown name is an error.
    pub fn unregister(&mut self, id: &str) -> (r: Result<(), String>)
        requires
            old(self).wf(),
        ensures
            final(self).wf(),
            !has_name(old(self)@, id@) ==> (r matches Err(e) && e@ == not_found_message(id@)
                && final(self)@ == old(self)@),
            has_name(old(self)@, id@) ==> (r is Ok && final(self)@ == old(self)@.remove(
                index_of(old(self)@, id@),
            )),
    {
        match self.position(id) {
            None => Err(concat3("Plugin '", id, "' not found")),
            Some(i) => {
                self.instances.remove(i);
                assert(self@ =~= old(self)@.remove(i as int));
                assert forall|a: int, b: int|
                    0 <= a < self@.len() && 0 <= b < self@.len() && a != b implies self@[a].manifest.name
                    != self@[b].manifest.name by {
                    let a2 = if a < i { a } else { a + 1 };
                    let b2 = if b < i { b } else { b + 1 };
                    assert(self@[a] == old(self)@[a2]);
                    assert(self@[b] == old(self)@[b2]);
                }
                Ok(())
            },
        }
    }

    /// The plugin named `id`, as a copy.
    pub fn get(&self, id: &str) -> (r: Option<PluginInstance>)
        requires
            self.wf(),
        ensures
            opt_instance(r) == lookup(self@, id@),
    {
        match self.position(id) {
            Some(i) => {
                let p = self.instances[i].clone();
                assert(p@ == self@[i as int]);
                Some(p)
            },
            None => None,
        }
    }

    /// The plugins whose prefix is a prefix of `query` or has `query` as a prefix.
    pub fn search_by_prefix(&self, query: &str) -> (r: Vec<PluginInstance>)
        ensures
            instances_view(r@) == matching(self@, query@),
    {
        let mut out: Vec<PluginInstance> = Vec::new();
        let mut i: usize = 0;
        while i < self.instances.len()
            invariant
                i <= self.instances@.len(),
                self@ == instances_view(self.instances@),
                instances_view(out@) == matching(self@.take(i as int), query@),
            decreases self.instances.len() - i,
        {
            let ghost before = out@;
            let ok = match &self.instances[i].manifest.prefix {
                Some(p) => starts_with(p.as_str(), query) || starts_with(query, p.as_str()),
                None => false,
            };
            if ok {
                out.push(self.instances[i].clone());
            }
            proof {
                let t = self@.take(i + 1);
                assert(t.drop_last() =~= self@.take(i as int));
                assert(t.last() == self@[i as int]);
                if ok {
                    assert(instances_view(out@) =~= instances_view(before).push(self@[i as int]));
                } else {
                    assert(instances_view(out@) =~= instances_view(before));
                }
            }
            i = i + 1;
        }
        assert(self@.take(self.instances.len() as int) =~= self@);
        out
    }

    /// The plugins in state `Ready` or `Cached`.
    pub fn get_active_plugins(&self) -> (r: Vec<PluginInstance>)
        ensures
            instances_view(r@) == active(self@),
    {
        let mut out: Vec<PluginInstance> = Vec::new();
        let mut i: usize = 0;
        while i < self.instances.len()
            invariant
                i <= self.instances@.len(),
                self@ == instances_view(self.instances@),
                instances_view(out@) == active(self@.take(i as int)),
            decreases self.instances.len() - i,
        {
            let ghost before = out@;
            let ok = self.instances[i].state.is_active_state();
            if ok {
                out.push(self.instances[i].clone());
            }
            proof {
                let t = self@.take(i + 1);
                assert(t.drop_last() =~= self@.take(i as int));
                assert(t.last() == self@[i as int]);
                if ok {
                    assert(instances_view(out@) =~= instances_view(before).push(self@[i as int]));
                } else {
                    assert(instances_view(out@) =~= instances_view(before));
                }
            }
            i = i + 1;
        }
        assert(self@.take(self.instances.len() as int) =~= self@);
        out
    }

    /// All registered plugins, as copies, in registration order.
    pub fn list_all(&self) -> (r: Vec<PluginInstance>)
        ensures
            instances_view(r@) == self@,
    {
        let mut out: Vec<PluginInstance> = Vec::new();
        let mut i: usize = 0;
        while i < self.instances.len()
            invariant
                i <= self.instances@.len(),
                self@ == instances_view(self.instances@),
                out@.len() == i,
                forall|j: int| 0 <= j < i ==> out@[j]@ == self@[j],
            decreases self.instances.len() - i,
        {
            out.push(self.instances[i].clone());
            i = i + 1;
        }
        assert(instances_view(out@) =~= self@);
        out
    }

    /// Sets the state of the plugin named `id`, if the lifecycle allows the transition.
    pub fn update_state(&mut self, id: &str, new_state: PluginState) -> (r: Result<(), String>)
        requires
            old(self).wf(),
        ensures
            final(self).wf(),
            !has_name(old(self)@, id@) ==> (r matches Err(e) && e@ == not_found_message(id@)
                && final(self)@ == old(self)@),
            has_name(old(self)@, id@) && !valid_transition(
                old(self)@[index_of(old(self)@, id@)].state,
                new_state@,
            ) ==> (r matches Err(e) && e@ == transition_message(
                old(self)@[index_of(old(self)@, id@)].state,
                new_state@,
                id@,
            ) && final(self)@ == old(self)@),
            has_name(old(self)@, id@) && valid_transition(
                old(self)@[index_of(old(self)@, id@)].state,
                new_state@,
            ) ==> (r is Ok && final(self)@ == old(self)@.update(
                index_of(old(self)@, id@),
                InstanceView { state: new_state@, ..old(self)@[index_of(old(self)@, id@)] },
            )),
    {
        match self.position(id) {
            None => Err(concat3("Plugin '", id, "' not found")),
            Some(i) => {
                if !Self::is_valid_transition(&self.instances[i].state, &new_state) {
                    let mut msg = String::from_str("Invalid state transition: ");
                    let a = self.instances[i].state.to_debug_string();
                    msg.append(a.as_str());
                    msg.append(" -> ");
                    let b = new_state.to_debug_string();
                    msg.append(b.as_str());
                    msg.append(" for plugin '");
                    msg.append(id);
                    msg.append("'");
                    assert(msg@ =~= transition_message(self@[i as int].state, new_state@, id@));
                    return Err(msg);
                }
                let mut inst = self.instances[i].clone();
                inst.state = new_state;
                self.instances.set(i, inst);
                assert(self@ =~= old(self)@.update(
                    i as int,
                    InstanceView { state: new_state@, ..old(self)@[i as int] },
                ));
                Ok(())
            },
        }
    }

    /// Whether the lifecycle allows a plugin to go from `from` to `to`.
    pub fn is_valid_transition(from: &PluginState, to: &PluginState) -> (b: bool)
        ensures
            b == valid_transition(from@, to@),
    {
        match (from, to) {
            (PluginState::MetaLoaded, PluginState::Loading) => true,
            (PluginState::MetaLoaded, PluginState::Unloaded) => true,
            (PluginState::Loading, PluginState::Ready) => true,
            (PluginState::Loading, PluginState::Cached) => true,
            (PluginState::Loading, PluginState::Error(_)) => true,
            (PluginState::Ready, PluginState::Cached) => true,
            (PluginState::Ready, PluginState::Unloaded) => true,
            (PluginState::Ready, PluginState::Error(_)) => true,
            (PluginState::Cached, PluginState::Loading) => true,
            (PluginState::Cached, PluginState::Unloaded) => true,
            (PluginState::Unloaded, PluginState::Loading) => true,
            (PluginState::Error(_), PluginState::Loading) => true,
            (PluginState::Error(_), PluginState::Unloaded) => true,
            _ => from.same_as(to),
        }
    }

    /// The number of registered plugins.
    pub fn count(&self) -> (n: usize)
        ensures
            n == self@.len(),
    {
        self.instances.len()
    }

    /// Removes every plugin.
    pub fn clear(&mut self)
        ensures
            final(self)@ == Seq::<InstanceView>::empty(),
            final(self).wf(),
    {
        self.instances.clear();
        assert(self@ =~= Seq::<InstanceView>::empty());
    }
}

/// The state of the plugin named `id` as `Debug` renders it, or the not-found
/// message.
pub fn get_plugin_state(registry: &PluginRegistry, id: &str) -> (r: Result<String, String>)
    requires
        registry.wf(),
    ensures
        match lookup(registry@, id@) {
            Some(p) => r matches Ok(t) && t@ == state_debug_text(p.state),
            None => r matches Err(e) && e@ == not_found_message(id@),
        },
{
    match registry.get(id) {
        Some(instance) => Ok(instance.state.to_debug_string()),
        None => Err(concat3("Plugin '", id, "' not found")),
    }
}

} // verus!
