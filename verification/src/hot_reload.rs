//! Hot reload: comparing the plugin names found by successive scans of the plugins
//! directory, and reporting which plugins appeared and which disappeared.

use vstd::prelude::*;
use crate::manifest::strings_view;
use crate::seqs::lemma_push_contains;
use crate::text::list_contains;

verus! {

/// A change in the plugins directory.
#[derive(Debug)]
pub enum HotReloadEvent {
    PluginAdded(String),
    PluginRemoved(String),
    PluginModified(String),
}

/// The value of a change: the plugin's name by its characters.
pub enum EventView {
    Added(Seq<char>),
    Removed(Seq<char>),
    Modified(Seq<char>),
}

impl View for HotReloadEvent {
    type V = EventView;

    open spec fn view(&self) -> EventView {
        match self {
            HotReloadEvent::PluginAdded(n) => EventView::Added(n@),
            HotReloadEvent::PluginRemoved(n) => EventView::Removed(n@),
            HotReloadEvent::PluginModified(n) => EventView::Modified(n@),
        }
    }
}

/// The values of a list of changes.
pub open spec fn events_view(v: Seq<HotReloadEvent>) -> Seq<EventView> {
    v.map_values(|e: HotReloadEvent| e@)
}

/// `k` with each name of `names` added that it does not hold yet, in order.
pub open spec fn add_all(k: Seq<Seq<char>>, names: Seq<Seq<char>>) -> Seq<Seq<char>>
    decreases names.len(),
{
    if names.len() == 0 {
        k
    } else {
        let r = add_all(k, names.drop_last());
        if r.contains(names.last()) {
            r
        } else {
            r.push(names.last())
        }
    }
}

/// A `PluginAdded` for each scanned name that was not known, in scan order.
pub open spec fn added_events(names: Seq<Seq<char>>, known: Seq<Seq<char>>) -> Seq<EventView>
    decreases names.len(),
{
    if names.len() == 0 {
        Seq::empty()
    } else {
        let r = added_events(names.drop_last(), known);
        if known.contains(names.last()) {
            r
        } else {
            r.push(EventView::Added(names.last()))
        }
    }
}

/// A `PluginRemoved` for each known name that the scan did not find, in the order
/// the names became known.
pub open spec fn removed_events(known: Seq<Seq<char>>, names: Seq<Seq<char>>) -> Seq<EventView>
    decreases known.len(),
{
    if known.len() == 0 {
        Seq::empty()
    } else {
        let r = removed_events(known.drop_last(), names);
        if names.contains(known.last()) {
            r
        } else {
            r.push(EventView::Removed(known.last()))
        }
    }
}

/// The value of a hot reloader: the directory it watches and the plugin names it
/// knows.
pub struct HotReloaderView {
    pub plugins_dir: Seq<char>,
    pub known: Seq<Seq<char>>,
}

/// Watches the plugins directory for plugins that appear or disappear.
pub struct HotReloader {
    plugins_dir: String,
    known_plugins: Vec<String>,
}

impl View for HotReloader {
    type V = HotReloaderView;

    closed spec fn view(&self) -> HotReloaderView {
        HotReloaderView { plugins_dir: self.plugins_dir@, known: strings_view(self.known_plugins@) }
    }
}

/// Membership in `add_all`: a name is there when it was already or was added.
pub proof fn lemma_add_all_contains(k: Seq<Seq<char>>, names: Seq<Seq<char>>, x: Seq<char>)
    ensures
        add_all(k, names).contains(x) <==> (k.contains(x) || names.contains(x)),
    decreases names.len(),
{
    if names.len() > 0 {
        let d = names.drop_last();
        lemma_add_all_contains(k, d, x);
        let r = add_all(k, d);
        lemma_push_contains(r, names.last(), x);
        assert(names =~= d.push(names.last()));
        lemma_push_contains(d, names.last(), x);
    }
}

/// With nothing known missing, a scan of the same names reports nothing added.
proof fn lemma_no_added(names: Seq<Seq<char>>, known: Seq<Seq<char>>)
    requires
        forall|i: int| 0 <= i < names.len() ==> known.contains(#[trigger] names[i]),
    ensures
        added_events(names, known).len() == 0,
    decreases names.len(),
{
    if names.len() > 0 {
        let d = names.drop_last();
        assert forall|i: int| 0 <= i < d.len() implies known.contains(#[trigger] d[i]) by {
            assert(d[i] == names[i]);
        }
        lemma_no_added(d, known);
        assert(known.contains(names[names.len() - 1]));
    }
}

/// With every known name scanned, nothing is reported removed.
proof fn lemma_no_removed(known: Seq<Seq<char>>, names: Seq<Seq<char>>)
    requires
        forall|i: int| 0 <= i < known.len() ==> names.contains(#[trigger] known[i]),
    ensures
        removed_events(known, names).len() == 0,
    decreases known.len(),
{
    if known.len() > 0 {
        let d = known.drop_last();
        assert forall|i: int| 0 <= i < d.len() implies names.contains(#[trigger] d[i]) by {
            assert(d[i] == known[i]);
        }
        lemma_no_removed(d, names);
        assert(names.contains(known[known.len() - 1]));
    }
}

/// A scan that finds the same plugins as the one before reports no change.
pub proof fn law_rescan_quiet(names: Seq<Seq<char>>)
    ensures
        added_events(names, add_all(Seq::empty(), names)) + removed_events(add_all(Seq::empty(), names), names)
            == Seq::<EventView>::empty(),
{
    let k = add_all(Seq::empty(), names);
    assert forall|i: int| 0 <= i < names.len() implies k.contains(#[trigger] names[i]) by {
        lemma_add_all_contains(Seq::empty(), names, names[i]);
        assert(names.contains(names[i]));
    }
    lemma_no_added(names, k);
    assert forall|i: int| 0 <= i < k.len() implies names.contains(#[trigger] k[i]) by {
        lemma_add_all_contains(Seq::empty(), names, k[i]);
        assert(k.contains(k[i]));
    }
    lemma_no_removed(k, names);
    assert(added_events(names, k) + removed_events(k, names) =~= Seq::<EventView>::empty());
}

impl HotReloader {
    /// A reloader for `plugins_dir` that knows no plugin yet.
    pub fn new(plugins_dir: String) -> (r: Self)
        ensures
            r@.plugins_dir == plugins_dir@,
            r@.known == Seq::<Seq<char>>::empty(),
    {
        let r = HotReloader { plugins_dir, known_plugins: Vec::new() };
        assert(r@.known =~= Seq::<Seq<char>>::empty());
        r
    }

    /// The directory being watched.
    pub fn plugins_dir(&self) -> (r: &str)
        ensures
            r@ == self@.plugins_dir,
    {
        self.plugins_dir.as_str()
    }

    /// The names known, in the order they became known.
    pub fn known_plugins(&self) -> (r: Vec<String>)
        ensures
            strings_view(r@) == self@.known,
    {
        let mut out: Vec<String> = Vec::new();
        let mut i: usize = 0;
        while i < self.known_plugins.len()
            invariant
                i <= self.known_plugins@.len(),
                strings_view(out@) == self@.known.take(i as int),
            decreases self.known_plugins.len() - i,
        {
            let ghost before = out@;
            out.push(self.known_plugins[i].clone());
            assert(strings_view(out@) =~= strings_view(before).push(self@.known[i as int]));
            assert(self@.known.take(i + 1) =~= self@.known.take(i as int).push(self@.known[i as int]));
            i = i + 1;
        }
        assert(self@.known.take(self.known_plugins.len() as int) =~= self@.known);
        out
    }

    /// Learns the plugin names of a first scan.
    pub fn initial_scan(&mut self, names: &Vec<String>)
        ensures
            final(self)@.plugins_dir == old(self)@.plugins_dir,
            final(self)@.known == add_all(old(self)@.known, strings_view(names@)),
    {
        let ghost ns = strings_view(names@);
        let ghost k0 = self@.known;
        let mut i: usize = 0;
        while i < names.len()
            invariant
                ns == strings_view(names@),
                i <= names@.len(),
                self@.plugins_dir == old(self)@.plugins_dir,
                self@.known == add_all(k0, ns.take(i as int)),
            decreases names.len() - i,
        {
            proof {
                let t = ns.take(i + 1);
                assert(t.drop_last() =~= ns.take(i as int));
                assert(t.last() == ns[i as int]);
            }
            if !list_contains(&self.known_plugins, names[i].as_str()) {
                let ghost before = self@.known;
                self.known_plugins.push(names[i].clone());
                assert(self@.known =~= before.push(ns[i as int]));
            }
            i = i + 1;
        }
        assert(ns.take(names.len() as int) =~= ns);
    }

    /// Compares the plugin names of a new scan with those known: reports each
    /// scanned name not known as added (in scan order), then each known name not
    /// scanned as removed; afterwards the scanned names are the ones known.
    pub fn check_for_changes(&mut self, names: &Vec<String>) -> (events: Vec<HotReloadEvent>)
        ensures
            final(self)@.plugins_dir == old(self)@.plugins_dir,
            events_view(events@) == added_events(strings_view(names@), old(self)@.known) + removed_events(
                old(self)@.known,
                strings_view(names@),
            ),
            final(self)@.known == add_all(Seq::empty(), strings_view(names@)),
    {
        let ghost ns = strings_view(names@);
        let ghost k0 = self@.known;
        let mut events: Vec<HotReloadEvent> = Vec::new();
        let mut current: Vec<String> = Vec::new();
        let mut i: usize = 0;
        while i < names.len()
            invariant
                ns == strings_view(names@),
                k0 == self@.known,
                i <= names@.len(),
                events_view(events@) == added_events(ns.take(i as int), k0),
                strings_view(current@) == add_all(Seq::empty(), ns.take(i as int)),
            decreases names.len() - i,
        {
            proof {
                let t = ns.take(i + 1);
                assert(t.drop_last() =~= ns.take(i as int));
                assert(t.last() == ns[i as int]);
            }
            let name = &names[i];
            if !list_contains(&current, name.as_str()) {
                let ghost before = strings_view(current@);
                current.push(name.clone());
                assert(strings_view(current@) =~= before.push(ns[i as int]));
            }
            if !list_contains(&self.known_plugins, name.as_str()) {
                let ghost before = events_view(events@);
                events.push(HotReloadEvent::PluginAdded(name.clone()));
                assert(events_view(events@) =~= before.push(EventView::Added(ns[i as int])));
            }
            i = i + 1;
        }
        assert(ns.take(names.len() as int) =~= ns);
        let ghost added = events_view(events@);
        let mut j: usize = 0;
        while j < self.known_plugins.len()
            invariant
                ns == strings_view(names@),
                k0 == self@.known,
                j <= k0.len(),
                events_view(events@) == added + removed_events(k0.take(j as int), ns),
            decreases self.known_plugins.len() - j,
        {
            proof {
                let t = k0.take(j + 1);
                assert(t.drop_last() =~= k0.take(j as int));
                assert(t.last() == k0[j as int]);
            }
            let old_name = &self.known_plugins[j];
            if !list_contains(names, old_name.as_str()) {
                let ghost before = events_view(events@);
                events.push(HotReloadEvent::PluginRemoved(old_name.clone()));
                assert(events_view(events@) =~= before.push(EventView::Removed(k0[j as int])));
                assert(added + removed_events(k0.take(j + 1), ns) =~= (added + removed_events(
                    k0.take(j as int),
                    ns,
                )).push(EventView::Removed(k0[j as int])));
            }
            j = j + 1;
        }
        assert(k0.take(k0.len() as int) =~= k0);
        self.known_plugins = current;
        events
    }
}

} // verus!
