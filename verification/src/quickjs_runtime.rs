//! The pool of JavaScript VMs: limits, idle eviction, and bookkeeping by VM id.
//! The engine behind each VM is a handle of the host's choosing.

use vstd::prelude::*;
use vstd::string::*;
use crate::manifest::strings_view;
use crate::seqs::keep;
use crate::seqs::lemma_keep_contains;
use crate::seqs::lemma_keep_ext;
use crate::seqs::lemma_keep_len;
use crate::seqs::lemma_push_contains;
use crate::text::append_decimal;
use crate::text::decimal;
use crate::text::lemma_decimal_digits;
use crate::text::lemma_decimal_injective;
use crate::text::list_contains;
use crate::text::str_eq;

verus! {

/// Limits of the VM pool.
#[derive(Debug, Clone, Copy)]
pub struct QuickJSConfig {
    pub max_memory_bytes: usize,
    pub max_execution_time_ms: u64,
    pub max_vm_count: usize,
    pub idle_timeout_secs: u64,
}

impl Default for QuickJSConfig {
    fn default() -> (r: Self)
        ensures
            r.max_memory_bytes == 50 * 1024 * 1024,
            r.max_execution_time_ms == 5000,
            r.max_vm_count == 10,
            r.idle_timeout_secs == 300,
    {
        QuickJSConfig {
            max_memory_bytes: 50 * 1024 * 1024,
            max_execution_time_ms: 5000,
            max_vm_count: 10,
            idle_timeout_secs: 300,
        }
    }
}

/// Whole seconds from `t` to `now` (milliseconds), zero when `now` is earlier.
pub open spec fn elapsed_secs(now: u64, t: u64) -> u64 {
    if now >= t {
        ((now - t) / 1000) as u64
    } else {
        0
    }
}

/// Whole seconds from `t` to `now`, as the host's monotonic clock gives them.
pub fn elapsed_seconds(now: u64, t: u64) -> (r: u64)
    ensures
        r == elapsed_secs(now, t),
{
    if now >= t {
        (now - t) / 1000
    } else {
        0
    }
}

/// The value of a pooled VM.
pub struct VmView<H> {
    pub id: Seq<char>,
    pub engine: H,
    pub created_at: u64,
    pub last_used_at: u64,
}

/// A pooled VM: its id, its engine, and when it was created and last used
/// (milliseconds on the host's monotonic clock).
pub struct VmInstance<H> {
    pub id: String,
    engine: H,
    created_at: u64,
    last_used_at: u64,
}

impl<H> View for VmInstance<H> {
    type V = VmView<H>;

    closed spec fn view(&self) -> VmView<H> {
        VmView { id: self.id@, engine: self.engine, created_at: self.created_at, last_used_at: self.last_used_at }
    }
}

/// A VM has been idle for at least the timeout.
pub open spec fn is_idle<H>(v: VmView<H>, timeout_secs: u64, now: u64) -> bool {
    elapsed_secs(now, v.last_used_at) >= timeout_secs
}

/// VMs whose id differs from `id`.
pub open spec fn other_id<H>(id: Seq<char>) -> spec_fn(VmView<H>) -> bool {
    |v: VmView<H>| v.id != id
}

/// VM `j` was used before VM `i` (ties broken by position).
pub open spec fn used_before<H>(s: Seq<VmView<H>>, j: int, i: int) -> bool {
    s[j].last_used_at < s[i].last_used_at || (s[j].last_used_at == s[i].last_used_at && j < i)
}

/// How many of the first `n` VMs were used before VM `i`.
pub open spec fn count_older<H>(s: Seq<VmView<H>>, i: int, n: int) -> nat
    decreases n,
{
    if n <= 0 {
        0
    } else {
        count_older(s, i, n - 1) + if used_before(s, n - 1, i) {
            1nat
        } else {
            0nat
        }
    }
}

/// VM `i` is among the `count` least recently used.
pub open spec fn chosen<H>(s: Seq<VmView<H>>, count: nat, i: int) -> bool {
    count_older(s, i, s.len() as int) < count
}

/// The positions of the VMs idle at `now`.
pub open spec fn idle_at<H>(s: Seq<VmView<H>>, timeout_secs: u64, now: u64) -> spec_fn(int) -> bool {
    |i: int| is_idle(s[i], timeout_secs, now)
}

/// The positions of the `count` least recently used VMs.
pub open spec fn oldest<H>(s: Seq<VmView<H>>, count: nat) -> spec_fn(int) -> bool {
    |i: int| chosen(s, count, i)
}

/// A VM survives a cleanup when no picked VM shares its id.
pub open spec fn spared_by<H>(s: Seq<VmView<H>>, picked: spec_fn(int) -> bool) -> spec_fn(VmView<H>) -> bool {
    |v: VmView<H>| forall|i: int| 0 <= i < s.len() && #[trigger] picked(i) ==> s[i].id != v.id
}

/// VMs whose id is not in the list.
pub open spec fn not_listed<H>(ids: Seq<Seq<char>>) -> spec_fn(VmView<H>) -> bool {
    |v: VmView<H>| !ids.contains(v.id)
}

/// Dropping the VMs whose ids were listed, where the list holds exactly the ids of
/// the picked VMs, is dropping every VM that shares an id with a picked one.
proof fn lemma_listed_spared<H>(
    s: Seq<VmView<H>>,
    picked: spec_fn(int) -> bool,
    ids: Seq<Seq<char>>,
    at: Seq<int>,
)
    requires
        at.len() == ids.len(),
        forall|m: int|
            0 <= m < ids.len() ==> 0 <= #[trigger] at[m] < s.len() && picked(at[m]) && s[at[m]].id == ids[m],
        forall|k: int| 0 <= k < s.len() && #[trigger] picked(k) ==> ids.contains(s[k].id),
    ensures
        keep(s, not_listed::<H>(ids)) == keep(s, spared_by(s, picked)),
{
    let p = not_listed::<H>(ids);
    let q = spared_by(s, picked);
    assert forall|j: int| 0 <= j < s.len() implies p(#[trigger] s[j]) == q(s[j]) by {
        if ids.contains(s[j].id) {
            let m = choose|m: int| 0 <= m < ids.len() && ids[m] == s[j].id;
            assert(picked(at[m]));
            assert(!q(s[j]));
        } else {
            assert forall|i: int| 0 <= i < s.len() && #[trigger] picked(i) implies s[i].id != s[j].id by {
                assert(ids.contains(s[i].id));
            }
        }
    }
    lemma_keep_ext(s, p, q);
}

/// The value of the pool.
pub struct PoolView<H> {
    pub config: QuickJSConfig,
    pub vms: Seq<VmView<H>>,
}

/// The pool after dropping, at `now`, every VM that shares an id with an idle VM.
pub open spec fn pool_cleaned<H>(r: PoolView<H>, now: u64) -> PoolView<H> {
    PoolView {
        config: r.config,
        vms: keep(r.vms, spared_by(r.vms, idle_at(r.vms, r.config.idle_timeout_secs, now))),
    }
}

/// The pool after dropping every VM with id `id`.
pub open spec fn pool_without<H>(r: PoolView<H>, id: Seq<char>) -> PoolView<H> {
    PoolView { config: r.config, vms: keep(r.vms, other_id::<H>(id)) }
}

/// The values of a list of pooled VMs.
pub open spec fn vms_view<H>(v: Seq<VmInstance<H>>) -> Seq<VmView<H>> {
    v.map_values(|x: VmInstance<H>| x@)
}

/// The message of a refused VM creation.
pub open spec fn pool_full_message(max: usize, current: nat) -> Seq<char> {
    "VM pool is full (max: "@ + decimal(max as nat) + ", current: "@ + decimal(current) + ")"@
}

/// The message for an unknown VM id.
pub open spec fn vm_not_found_message(id: Seq<char>) -> Seq<char> {
    "VM not found: "@ + id
}

/// Age summary of a pooled VM, in seconds.
#[derive(Debug)]
pub struct VmStats {
    pub id: String,
    pub created_at_secs: u64,
    pub last_used_at_secs: u64,
    pub is_idle: bool,
}

/// The pool of JavaScript VMs.
pub struct QuickJSRuntime<H> {
    config: QuickJSConfig,
    vm_pool: Vec<VmInstance<H>>,
}

impl<H> View for QuickJSRuntime<H> {
    type V = PoolView<H>;

    open spec fn view(&self) -> PoolView<H> {
        self.model()
    }
}

impl<H> QuickJSRuntime<H> {
    /// The pool's limits and VMs.
    pub closed spec fn model(&self) -> PoolView<H> {
        PoolView { config: self.config, vms: vms_view(self.vm_pool@) }
    }

    /// An empty pool with the default limits.
    pub fn new() -> (r: Self)
        ensures
            r@.vms.len() == 0,
            r@.config.max_vm_count == 10,
            r@.config.idle_timeout_secs == 300,
            r@.config.max_memory_bytes == 50 * 1024 * 1024,
            r@.config.max_execution_time_ms == 5000,
    {
        QuickJSRuntime { config: QuickJSConfig::default(), vm_pool: Vec::new() }
    }

    /// An empty pool with the given limits.
    pub fn with_config(config: QuickJSConfig) -> (r: Self)
        ensures
            r@.vms.len() == 0,
            r@.config == config,
    {
        QuickJSRuntime { config, vm_pool: Vec::new() }
    }

    /// The pool's limits.
    pub fn config(&self) -> (c: QuickJSConfig)
        ensures
            c == self@.config,
    {
        self.config
    }

    /// Drops every VM whose id is listed.
    fn remove_ids(&mut self, ids: &Vec<String>) -> (removed: usize)
        ensures
            final(self)@.vms == keep(old(self)@.vms, not_listed::<H>(strings_view(ids@))),
            final(self)@.config == old(self)@.config,
            removed == old(self)@.vms.len() - final(self)@.vms.len(),
    {
        let ghost s = self@.vms;
        let ghost p = not_listed::<H>(strings_view(ids@));
        let mut kept: Vec<VmInstance<H>> = Vec::new();
        let old_len = self.vm_pool.len();
        while self.vm_pool.len() > 0
            invariant
                self.config == old(self).config,
                s == old(self)@.vms,
                p == not_listed::<H>(strings_view(ids@)),
                old_len == s.len(),
                self.vm_pool@.len() <= s.len(),
                vms_view(self.vm_pool@) == s.skip(s.len() - self.vm_pool@.len()),
                vms_view(kept@) == keep(s.take(s.len() - self.vm_pool@.len()), p),
            decreases self.vm_pool.len(),
        {
            let ghost before = kept@;
            let ghost k = s.len() - self.vm_pool@.len();
            let ghost pool_before = self.vm_pool@;
            let vm = self.vm_pool.remove(0);
            proof {
                assert(vms_view(pool_before)[0] == s.skip(k)[0]);
                assert(vm@ == s[k]);
                assert forall|j: int| 0 <= j < vms_view(self.vm_pool@).len() implies vms_view(self.vm_pool@)[j]
                    == s.skip(k + 1)[j] by {
                    assert(self.vm_pool@[j] == pool_before[j + 1]);
                    assert(vms_view(pool_before)[j + 1] == s.skip(k)[j + 1]);
                }
                assert(vms_view(self.vm_pool@) =~= s.skip(k + 1));
                let t = s.take(k + 1);
                assert(t.drop_last() =~= s.take(k));
                assert(t.last() == s[k]);
            }
            if !list_contains(ids, vm.id.as_str()) {
                kept.push(vm);
                assert(vms_view(kept@) =~= vms_view(before).push(s[k]));
            } else {
                assert(vms_view(kept@) =~= vms_view(before));
            }
        }
        assert(s.take(s.len() as int) =~= s);
        proof {
            lemma_keep_len(s, p);
        }
        self.vm_pool = kept;
        old_len - self.vm_pool.len()
    }

    /// Drops every VM that shares an id with a VM idle at `now`.
    fn remove_idle(&mut self, now: u64) -> (removed: usize)
        ensures
            final(self)@.vms == keep(
                old(self)@.vms,
                spared_by(old(self)@.vms, idle_at(old(self)@.vms, old(self)@.config.idle_timeout_secs, now)),
            ),
            final(self)@.config == old(self)@.config,
            removed == old(self)@.vms.len() - final(self)@.vms.len(),
    {
        let ghost s = self@.vms;
        let timeout = self.config.idle_timeout_secs;
        let ghost picked = idle_at(s, timeout, now);
        let mut ids: Vec<String> = Vec::new();
        let ghost mut at: Seq<int> = Seq::empty();
        let mut i: usize = 0;
        while i < self.vm_pool.len()
            invariant
                s == self@.vms,
                timeout == self@.config.idle_timeout_secs,
                picked == idle_at(s, timeout, now),
                i <= s.len(),
                at.len() == ids@.len(),
                forall|m: int|
                    0 <= m < ids@.len() ==> 0 <= #[trigger] at[m] < s.len() && picked(at[m]) && s[at[m]].id
                        == strings_view(ids@)[m],
                forall|k: int| 0 <= k < i && #[trigger] picked(k) ==> strings_view(ids@).contains(s[k].id),
            decreases self.vm_pool.len() - i,
        {
            if elapsed_seconds(now, self.vm_pool[i].last_used_at) >= timeout {
                let ghost before = strings_view(ids@);
                ids.push(self.vm_pool[i].id.clone());
                proof {
                    at = at.push(i as int);
                    assert(strings_view(ids@) =~= before.push(s[i as int].id));
                    assert forall|k: int| 0 <= k < i + 1 && #[trigger] picked(k) implies strings_view(
                        ids@,
                    ).contains(s[k].id) by {
                        lemma_push_contains(before, s[i as int].id, s[k].id);
                    }
                }
            }
            i = i + 1;
        }
        proof {
            lemma_listed_spared(s, picked, strings_view(ids@), at);
        }
        self.remove_ids(&ids)
    }

    /// Makes room for one more VM: drops the idle VMs, then refuses when the pool
    /// is still full.
    pub fn reserve_slot(&mut self, now: u64) -> (r: Result<(), String>)
        ensures
            final(self)@.vms == keep(
                old(self)@.vms,
                spared_by(old(self)@.vms, idle_at(old(self)@.vms, old(self)@.config.idle_timeout_secs, now)),
            ),
            final(self)@.config == old(self)@.config,
            r is Ok <==> final(self)@.vms.len() < final(self)@.config.max_vm_count,
            r matches Err(e) ==> e@ == pool_full_message(
                final(self)@.config.max_vm_count,
                final(self)@.vms.len(),
            ),
    {
        let _ = self.remove_idle(now);
        if self.vm_pool.len() >= self.config.max_vm_count {
            let mut msg = String::from_str("VM pool is full (max: ");
            append_decimal(&mut msg, self.config.max_vm_count as u128);
            msg.append(", current: ");
            append_decimal(&mut msg, self.vm_pool.len() as u128);
            msg.append(")");
            assert(msg@ =~= pool_full_message(self@.config.max_vm_count, self@.vms.len()));
            return Err(msg);
        }
        Ok(())
    }

    /// Adds a VM created at `now`, in a slot that `reserve_slot` made.
    pub fn insert_vm(&mut self, id: String, engine: H, now: u64)
        requires
            old(self)@.vms.len() < old(self)@.config.max_vm_count,
        ensures
            final(self)@.config == old(self)@.config,
            final(self)@.vms == old(self)@.vms.push(
                VmView { id: id@, engine, created_at: now, last_used_at: now },
            ),
    {
        let ghost v = VmView { id: id@, engine, created_at: now, last_used_at: now };
        self.vm_pool.push(VmInstance { id, engine, created_at: now, last_used_at: now });
        assert(self@.vms =~= old(self)@.vms.push(v));
    }

    /// Removes every VM with that id; an id that no VM has is an error.
    pub fn destroy_vm(&mut self, vm_id: &str) -> (r: Result<(), String>)
        ensures
            final(self)@.config == old(self)@.config,
            final(self)@.vms == keep(old(self)@.vms, other_id::<H>(vm_id@)),
            r is Ok <==> final(self)@.vms.len() != old(self)@.vms.len(),
            r matches Err(e) ==> e@ == vm_not_found_message(vm_id@),
            final(self)@ == pool_without(old(self)@, vm_id@),
    {
        let ghost s = self@.vms;
        let ghost p = other_id::<H>(vm_id@);
        let mut kept: Vec<VmInstance<H>> = Vec::new();
        let old_len = self.vm_pool.len();
        while self.vm_pool.len() > 0
            invariant
                self.config == old(self).config,
                s == old(self)@.vms,
                p == other_id::<H>(vm_id@),
                old_len == s.len(),
                self.vm_pool@.len() <= s.len(),
                vms_view(self.vm_pool@) == s.skip(s.len() - self.vm_pool@.len()),
                vms_view(kept@) == keep(s.take(s.len() - self.vm_pool@.len()), p),
            decreases self.vm_pool.len(),
        {
            let ghost before = kept@;
            let ghost k = s.len() - self.vm_pool@.len();
            let ghost pool_before = self.vm_pool@;
            let vm = self.vm_pool.remove(0);
            proof {
                assert(vms_view(pool_before)[0] == s.skip(k)[0]);
                assert(vm@ == s[k]);
                assert forall|j: int| 0 <= j < vms_view(self.vm_pool@).len() implies vms_view(self.vm_pool@)[j]
                    == s.skip(k + 1)[j] by {
                    assert(self.vm_pool@[j] == pool_before[j + 1]);
                    assert(vms_view(pool_before)[j + 1] == s.skip(k)[j + 1]);
                }
                assert(vms_view(self.vm_pool@) =~= s.skip(k + 1));
                let t = s.take(k + 1);
                assert(t.drop_last() =~= s.take(k));
                assert(t.last() == s[k]);
            }
            if !str_eq(vm.id.as_str(), vm_id) {
                kept.push(vm);
                assert(vms_view(kept@) =~= vms_view(before).push(s[k]));
            } else {
                assert(vms_view(kept@) =~= vms_view(before));
            }
        }
        assert(s.take(s.len() as int) =~= s);
        proof {
            lemma_keep_len(s, p);
        }
        self.vm_pool = kept;
        if self.vm_pool.len() == old_len {
            let mut msg = String::from_str("VM not found: ");
            msg.append(vm_id);
            return Err(msg);
        }
        Ok(())
    }

    /// Finds the first VM with that id and marks it used at `now`.
    pub fn touch_vm(&mut self, vm_id: &str, now: u64) -> (r: Result<usize, String>)
        ensures
            final(self)@.config == old(self)@.config,
            match r {
                Ok(i) => {
                    &&& i < old(self)@.vms.len()
                    &&& old(self)@.vms[i as int].id == vm_id@
                    &&& forall|j: int| 0 <= j < i ==> old(self)@.vms[j].id != vm_id@
                    &&& final(self)@.vms == old(self)@.vms.update(
                        i as int,
                        VmView { last_used_at: now, ..old(self)@.vms[i as int] },
                    )
                },
                Err(e) => {
                    &&& e@ == vm_not_found_message(vm_id@)
                    &&& forall|j: int| 0 <= j < old(self)@.vms.len() ==> old(self)@.vms[j].id != vm_id@
                    &&& final(self)@.vms == old(self)@.vms
                },
            },
    {
        let mut i: usize = 0;
        while i < self.vm_pool.len()
            invariant
                self.vm_pool == old(self).vm_pool,
                self.config == old(self).config,
                i <= self.vm_pool@.len(),
                forall|j: int| 0 <= j < i ==> self@.vms[j].id != vm_id@,
            decreases self.vm_pool.len() - i,
        {
            if str_eq(self.vm_pool[i].id.as_str(), vm_id) {
                let ghost before = self@.vms;
                let mut vms = Vec::new();
                std::mem::swap(&mut vms, &mut self.vm_pool);
                let mut vm = vms.remove(i);
                vm.last_used_at = now;
                vms.insert(i, vm);
                self.vm_pool = vms;
                assert(self@.vms =~= before.update(i as int, VmView { last_used_at: now, ..before[i as int] }));
                return Ok(i);
            }
            i = i + 1;
        }
        let mut msg = String::from_str("VM not found: ");
        msg.append(vm_id);
        Err(msg)
    }

    /// The position of the first VM with that id, without marking it used.
    pub fn find_vm(&self, vm_id: &str) -> (r: Option<usize>)
        ensures
            match r {
                Some(i) => i < self@.vms.len() && self@.vms[i as int].id == vm_id@ && forall|j: int|
                    0 <= j < i ==> self@.vms[j].id != vm_id@,
                None => forall|j: int| 0 <= j < self@.vms.len() ==> self@.vms[j].id != vm_id@,
            },
    {
        let mut i: usize = 0;
        while i < self.vm_pool.len()
            invariant
                i <= self.vm_pool@.len(),
                forall|j: int| 0 <= j < i ==> self@.vms[j].id != vm_id@,
            decreases self.vm_pool.len() - i,
        {
            if str_eq(self.vm_pool[i].id.as_str(), vm_id) {
                return Some(i);
            }
            i = i + 1;
        }
        None
    }

    /// The engine of the VM at a position of the pool.
    pub fn engine_at(&self, i: usize) -> (e: &H)
        requires
            i < self@.vms.len(),
        ensures
            *e == self@.vms[i as int].engine,
    {
        &self.vm_pool[i].engine
    }

    /// The number of VMs in the pool.
    pub fn active_vm_count(&self) -> (n: usize)
        ensures
            n == self@.vms.len(),
    {
        self.vm_pool.len()
    }

    /// Drops every VM idle for at least the configured timeout; returns how many.
    pub fn cleanup(&mut self, now: u64) -> (removed: usize)
        ensures
            final(self)@.vms == keep(
                old(self)@.vms,
                spared_by(old(self)@.vms, idle_at(old(self)@.vms, old(self)@.config.idle_timeout_secs, now)),
            ),
            final(self)@.config == old(self)@.config,
            removed == old(self)@.vms.len() - final(self)@.vms.len(),
            final(self)@ == pool_cleaned(old(self)@, now),
    {
        self.remove_idle(now)
    }

    fn age_rank(&self, i: usize) -> (r: usize)
        requires
            i < self@.vms.len(),
        ensures
            r == count_older(self@.vms, i as int, self@.vms.len() as int),
    {
        let mut c: usize = 0;
        let mut j: usize = 0;
        while j < self.vm_pool.len()
            invariant
                i < self.vm_pool@.len(),
                j <= self.vm_pool@.len(),
                c == count_older(self@.vms, i as int, j as int),
                c <= j,
            decreases self.vm_pool.len() - j,
        {
            let a = self.vm_pool[j].last_used_at;
            let b = self.vm_pool[i].last_used_at;
            if a < b || (a == b && j < i) {
                c = c + 1;
            }
            j = j + 1;
        }
        c
    }

    /// Drops the `count` least recently used VMs (and any VM sharing an id with
    /// one of them); returns how many VMs left the pool.
    pub fn cleanup_oldest(&mut self, count: usize) -> (removed: usize)
        ensures
            final(self)@.config == old(self)@.config,
            final(self)@.vms == keep(old(self)@.vms, spared_by(old(self)@.vms, oldest(old(self)@.vms, count as nat))),
            removed == old(self)@.vms.len() - final(self)@.vms.len(),
    {
        let ghost s = self@.vms;
        let ghost picked = oldest(s, count as nat);
        let mut ids: Vec<String> = Vec::new();
        let ghost mut at: Seq<int> = Seq::empty();
        let mut i: usize = 0;
        while i < self.vm_pool.len()
            invariant
                s == self@.vms,
                picked == oldest(s, count as nat),
                i <= s.len(),
                at.len() == ids@.len(),
                forall|m: int|
                    0 <= m < ids@.len() ==> 0 <= #[trigger] at[m] < s.len() && picked(at[m]) && s[at[m]].id
                        == strings_view(ids@)[m],
                forall|k: int| 0 <= k < i && #[trigger] picked(k) ==> strings_view(ids@).contains(s[k].id),
            decreases self.vm_pool.len() - i,
        {
            let r = self.age_rank(i);
            if r < count {
                let ghost before = strings_view(ids@);
                ids.push(self.vm_pool[i].id.clone());
                proof {
                    at = at.push(i as int);
                    assert(strings_view(ids@) =~= before.push(s[i as int].id));
                    assert forall|k: int| 0 <= k < i + 1 && #[trigger] picked(k) implies strings_view(
                        ids@,
                    ).contains(s[k].id) by {
                        lemma_push_contains(before, s[i as int].id, s[k].id);
                    }
                }
            }
            i = i + 1;
        }
        proof {
            lemma_listed_spared(s, picked, strings_view(ids@), at);
        }
        self.remove_ids(&ids)
    }

    /// Drops every VM; returns how many there were.
    pub fn cleanup_all(&mut self) -> (removed: usize)
        ensures
            final(self)@.config == old(self)@.config,
            final(self)@.vms.len() == 0,
            removed == old(self)@.vms.len(),
    {
        let n = self.vm_pool.len();
        self.vm_pool.clear();
        n
    }

    /// Age summaries of the VMs at `now`, in pool order.
    pub fn get_vm_stats(&self, now: u64) -> (r: Vec<VmStats>)
        ensures
            r@.len() == self@.vms.len(),
            forall|i: int|
                0 <= i < r@.len() ==> {
                    &&& (#[trigger] r@[i]).id@ == self@.vms[i].id
                    &&& r@[i].created_at_secs == elapsed_secs(now, self@.vms[i].created_at)
                    &&& r@[i].last_used_at_secs == elapsed_secs(now, self@.vms[i].last_used_at)
                    &&& r@[i].is_idle == is_idle(self@.vms[i], self@.config.idle_timeout_secs, now)
                },
    {
        let mut out: Vec<VmStats> = Vec::new();
        let mut i: usize = 0;
        while i < self.vm_pool.len()
            invariant
                i <= self.vm_pool@.len(),
                out@.len() == i,
                forall|k: int|
                    0 <= k < i ==> {
                        &&& (#[trigger] out@[k]).id@ == self@.vms[k].id
                        &&& out@[k].created_at_secs == elapsed_secs(now, self@.vms[k].created_at)
                        &&& out@[k].last_used_at_secs == elapsed_secs(now, self@.vms[k].last_used_at)
                        &&& out@[k].is_idle == is_idle(self@.vms[k], self@.config.idle_timeout_secs, now)
                    },
            decreases self.vm_pool.len() - i,
        {
            let vm = &self.vm_pool[i];
            let last = elapsed_seconds(now, vm.last_used_at);
            out.push(VmStats {
                id: vm.id.clone(),
                created_at_secs: elapsed_seconds(now, vm.created_at),
                last_used_at_secs: last,
                is_idle: last >= self.config.idle_timeout_secs,
            });
            i = i + 1;
        }
        out
    }

    /// Whether some VM has that id.
    pub fn vm_exists(&self, vm_id: &str) -> (b: bool)
        ensures
            b == exists|i: int| 0 <= i < self@.vms.len() && self@.vms[i].id == vm_id@,
    {
        let mut i: usize = 0;
        while i < self.vm_pool.len()
            invariant
                i <= self.vm_pool@.len(),
                forall|j: int| 0 <= j < i ==> self@.vms[j].id != vm_id@,
            decreases self.vm_pool.len() - i,
        {
            if str_eq(self.vm_pool[i].id.as_str(), vm_id) {
                assert(self@.vms[i as int].id == vm_id@);
                return true;
            }
            i = i + 1;
        }
        false
    }
}

/// The id given to a new VM: `vm_`, the creation time in milliseconds since the
/// Unix epoch, `_`, and a random number.
pub open spec fn vm_id_text(timestamp_ms: u128, random: u32) -> Seq<char> {
    "vm_"@ + decimal(timestamp_ms as nat) + "_"@ + decimal(random as nat)
}

/// Renders a VM id from its creation time and random part.
pub fn format_vm_id(timestamp_ms: u128, random: u32) -> (id: String)
    ensures
        id@ == vm_id_text(timestamp_ms, random),
{
    let mut s = String::from_str("vm_");
    append_decimal(&mut s, timestamp_ms);
    s.append("_");
    append_decimal(&mut s, random as u128);
    s
}

/// Milliseconds since the Unix epoch on the system clock (`SystemTime::elapsed`
/// of `UNIX_EPOCH`), or zero when the clock is before the epoch. Nothing is stated
/// of the value: it is the time.
#[verifier::external_body]
fn unix_time_ms() -> u128 {
    std::time::SystemTime::UNIX_EPOCH.elapsed().unwrap_or_default().as_millis()
}

/// A random `u32` from `rand::random`. Nothing is stated of the value: it is chance.
#[verifier::external_body]
fn random_u32() -> u32 {
    rand::random::<u32>()
}

/// A fresh VM id from the current time and a random number.
pub fn generate_vm_id() -> (id: String)
    ensures
        exists|t: u128, r: u32| id@ == vm_id_text(t, r),
{
    let t = unix_time_ms();
    let r = random_u32();
    format_vm_id(t, r)
}

/// Among the first `n` VMs, at most `n` were used before VM `i`, and VM `i` itself
/// is not counted.
proof fn lemma_count_older_bound<H>(s: Seq<VmView<H>>, i: int, n: int)
    requires
        0 <= n,
    ensures
        count_older(s, i, n) <= n,
        0 <= i < n ==> count_older(s, i, n) <= n - 1,
    decreases n,
{
    if n > 0 {
        lemma_count_older_bound(s, i, n - 1);
    }
}

/// A predicate that no element of `s` satisfies keeps nothing.
proof fn lemma_keep_none<A>(s: Seq<A>, p: spec_fn(A) -> bool)
    requires
        forall|j: int| 0 <= j < s.len() ==> !p(#[trigger] s[j]),
    ensures
        keep(s, p).len() == 0,
{
    let r = keep(s, p);
    if r.len() > 0 {
        lemma_keep_contains(s, p, r[0]);
        assert(r.contains(r[0]));
        let j = choose|j: int| 0 <= j < s.len() && s[j] == r[0];
        assert(!p(s[j]));
    }
}

/// After a cleanup at `now`, no VM left in the pool is idle at `now`.
pub proof fn law_cleanup_leaves_no_idle<H>(s: Seq<VmView<H>>, timeout_secs: u64, now: u64)
    ensures
        forall|j: int|
            0 <= j < keep(s, spared_by(s, idle_at(s, timeout_secs, now))).len() ==> !is_idle(
                #[trigger] keep(s, spared_by(s, idle_at(s, timeout_secs, now)))[j],
                timeout_secs,
                now,
            ),
{
    let picked = idle_at(s, timeout_secs, now);
    let p = spared_by(s, picked);
    let r = keep(s, p);
    assert forall|j: int| 0 <= j < r.len() implies !is_idle(#[trigger] r[j], timeout_secs, now) by {
        lemma_keep_contains(s, p, r[j]);
        assert(r.contains(r[j]));
        let i = choose|i: int| 0 <= i < s.len() && s[i] == r[j];
        if is_idle(r[j], timeout_secs, now) {
            assert(picked(i));
            assert(s[i].id == r[j].id);
        }
    }
}

/// A cleanup at `now` keeps every VM that is not idle and whose id no idle VM has.
pub proof fn law_cleanup_keeps_busy<H>(s: Seq<VmView<H>>, timeout_secs: u64, now: u64, v: VmView<H>)
    requires
        s.contains(v),
        forall|i: int| 0 <= i < s.len() && is_idle(s[i], timeout_secs, now) ==> s[i].id != v.id,
    ensures
        keep(s, spared_by(s, idle_at(s, timeout_secs, now))).contains(v),
{
    lemma_keep_contains(s, spared_by(s, idle_at(s, timeout_secs, now)), v);
}

/// After a VM is destroyed, no VM with its id is left, and every VM with another id
/// stays.
pub proof fn law_destroy_removes_id<H>(s: Seq<VmView<H>>, id: Seq<char>, v: VmView<H>)
    ensures
        keep(s, other_id::<H>(id)).contains(v) <==> (s.contains(v) && v.id != id),
{
    lemma_keep_contains(s, other_id::<H>(id), v);
}

/// Forcing out at least as many VMs as the pool holds empties the pool.
pub proof fn law_cleanup_oldest_all<H>(s: Seq<VmView<H>>, count: nat)
    requires
        count >= s.len(),
    ensures
        keep(s, spared_by(s, oldest(s, count))).len() == 0,
{
    let picked = oldest(s, count);
    let p = spared_by(s, picked);
    assert forall|j: int| 0 <= j < s.len() implies !p(#[trigger] s[j]) by {
        lemma_count_older_bound(s, j, s.len() as int);
        assert(picked(j));
    }
    lemma_keep_none(s, p);
}

/// A VM inserted into the pool is then found by its id.
pub proof fn law_insert_then_exists<H>(s: Seq<VmView<H>>, v: VmView<H>)
    ensures
        exists|i: int| 0 <= i < s.push(v).len() && #[trigger] s.push(v)[i].id == v.id,
{
    assert(s.push(v)[s.len() as int].id == v.id);
}

/// How many of the positions `0..n` satisfy `f`.
pub open spec fn count_idx(n: int, f: spec_fn(int) -> bool) -> nat
    decreases n,
{
    if n <= 0 {
        0
    } else {
        count_idx(n - 1, f) + if f(n - 1) {
            1nat
        } else {
            0nat
        }
    }
}

/// Predicates that agree on `0..n` count alike.
proof fn lemma_count_ext(n: int, f: spec_fn(int) -> bool, g: spec_fn(int) -> bool)
    requires
        forall|k: int| 0 <= k < n ==> #[trigger] f(k) == g(k),
    ensures
        count_idx(n, f) == count_idx(n, g),
    decreases n,
{
    if n > 0 {
        lemma_count_ext(n - 1, f, g);
    }
}

/// Counting without one position `x` of `0..n`.
proof fn lemma_count_without(n: int, f: spec_fn(int) -> bool, x: int)
    requires
        0 <= x < n,
    ensures
        count_idx(n, f) == count_idx(n, |k: int| f(k) && k != x) + if f(x) {
            1nat
        } else {
            0nat
        },
    decreases n,
{
    let g = |k: int| f(k) && k != x;
    if x < n - 1 {
        lemma_count_without(n - 1, f, x);
    } else {
        lemma_count_ext(n - 1, f, g);
    }
}

/// A count and the count of the complement make up all of `0..n`.
proof fn lemma_count_complement(n: int, f: spec_fn(int) -> bool)
    requires
        n >= 0,
    ensures
        count_idx(n, f) + count_idx(n, |k: int| !f(k)) == n,
    decreases n,
{
    if n > 0 {
        lemma_count_complement(n - 1, f);
    }
}

/// A positive count has a witness.
proof fn lemma_count_witness(n: int, f: spec_fn(int) -> bool)
    requires
        count_idx(n, f) > 0,
    ensures
        exists|k: int| 0 <= k < n && #[trigger] f(k),
    decreases n,
{
    if n > 0 && !f(n - 1) {
        lemma_count_witness(n - 1, f);
    }
}

/// `count_older` counts the positions used before VM `i`.
proof fn lemma_count_older_idx<H>(s: Seq<VmView<H>>, i: int, n: int)
    ensures
        count_older(s, i, n) == count_idx(n, |k: int| used_before(s, k, i)),
    decreases n,
{
    if n > 0 {
        lemma_count_older_idx(s, i, n - 1);
    }
}

/// Among the positions `L` of `0..n`, some VM was used last.
proof fn lemma_latest_exists<H>(s: Seq<VmView<H>>, n: int, l: spec_fn(int) -> bool)
    requires
        count_idx(n, l) > 0,
    ensures
        exists|x: int|
            0 <= x < n && #[trigger] l(x) && forall|k: int| 0 <= k < n && l(k) && k != x ==> used_before(s, k, x),
    decreases n,
{
    if count_idx(n - 1, l) > 0 {
        lemma_latest_exists(s, n - 1, l);
        let y = choose|x: int|
            0 <= x < n - 1 && #[trigger] l(x) && forall|k: int| 0 <= k < n - 1 && l(k) && k != x ==> used_before(s, k, x);
        if l(n - 1) && used_before(s, y, n - 1) {
            assert forall|k: int| 0 <= k < n && #[trigger] l(k) && k != n - 1 implies used_before(s, k, n - 1) by {
                if k != y {
                    assert(used_before(s, k, y));
                }
            }
        } else {
            assert forall|k: int| 0 <= k < n && l(k) && k != y implies used_before(s, k, y) by {
                if k == n - 1 {
                    assert(!used_before(s, y, n - 1));
                }
            }
        }
    } else {
        assert(l(n - 1));
        assert forall|k: int| 0 <= k < n && #[trigger] l(k) && k != n - 1 implies used_before(s, k, n - 1) by {
            if 0 <= k < n - 1 && l(k) {
                lemma_count_without(n - 1, l, k);
            }
        }
    }
}

/// Within any set `L` of positions, the positions whose rank (how many of `L`
/// were used before them) is under `c` number `min(c, |L|)`.
proof fn lemma_rank_count<H>(s: Seq<VmView<H>>, n: int, l: spec_fn(int) -> bool, c: nat)
    requires
        n >= 0,
    ensures
        count_idx(n, |i: int| l(i) && count_idx(n, |k: int| l(k) && used_before(s, k, i)) < c) == if c
            <= count_idx(n, l) {
            c
        } else {
            count_idx(n, l)
        },
    decreases count_idx(n, l),
{
    let size = count_idx(n, l);
    let lo = |i: int| l(i) && count_idx(n, |k: int| l(k) && used_before(s, k, i)) < c;
    if size == 0 {
        assert forall|i: int| 0 <= i < n implies !#[trigger] lo(i) by {
            if l(i) {
                lemma_count_without(n, l, i);
            }
        }
        lemma_count_ext(n, lo, |i: int| false);
        lemma_count_complement(n, |i: int| false);
        lemma_count_ext(n, |k: int| !(|i: int| false)(k), |k: int| true);
        assert(count_idx(n, |k: int| true) == n) by {
            lemma_count_true(n);
        }
    } else {
        lemma_latest_exists(s, n, l);
        let x = choose|x: int|
            0 <= x < n && #[trigger] l(x) && forall|k: int| 0 <= k < n && l(k) && k != x ==> used_before(s, k, x);
        let l2 = |k: int| l(k) && k != x;
        lemma_count_without(n, l, x);
        assert(count_idx(n, l2) == size - 1);
        lemma_rank_count(s, n, l2, c);
        let lo2 = |i: int| l2(i) && count_idx(n, |k: int| l2(k) && used_before(s, k, i)) < c;
        // ranks of the others are unchanged: x was used after all of them
        assert forall|i: int| 0 <= i < n && #[trigger] l2(i) implies count_idx(n, |k: int| l(k) && used_before(s, k, i))
            == count_idx(n, |k: int| l2(k) && used_before(s, k, i)) by {
            assert(!used_before(s, x, i)) by {
                assert(used_before(s, i, x));
            }
            lemma_count_ext(n, |k: int| l(k) && used_before(s, k, i), |k: int| l2(k) && used_before(s, k, i));
        }
        // the rank of x is the number of the others
        assert(count_idx(n, |k: int| l(k) && used_before(s, k, x)) == size - 1) by {
            lemma_count_ext(n, |k: int| l(k) && used_before(s, k, x), l2);
        }
        lemma_count_without(n, lo, x);
        lemma_count_ext(n, |k: int| lo(k) && k != x, lo2);
    }
}

/// Every position of `0..n` counts.
proof fn lemma_count_true(n: int)
    requires
        n >= 0,
    ensures
        count_idx(n, |k: int| true) == n,
    decreases n,
{
    if n > 0 {
        lemma_count_true(n - 1);
    }
}

/// Keeping counts the elements that satisfy the predicate.
proof fn lemma_keep_count<A>(s: Seq<A>, p: spec_fn(A) -> bool)
    ensures
        keep(s, p).len() == count_idx(s.len() as int, |j: int| p(s[j])),
    decreases s.len(),
{
    if s.len() > 0 {
        let d = s.drop_last();
        lemma_keep_count(d, p);
        lemma_count_ext(d.len() as int, |j: int| p(d[j]), |j: int| p(s[j]));
    }
}

/// With distinct VM ids, forcing out the `count` least recently used VMs removes
/// exactly `count` of them, or all when the pool holds fewer.
pub proof fn law_cleanup_oldest_count<H>(s: Seq<VmView<H>>, count: nat)
    requires
        forall|i: int, j: int| 0 <= i < j < s.len() ==> s[i].id != s[j].id,
    ensures
        s.len() - keep(s, spared_by(s, oldest(s, count))).len() == if count <= s.len() {
            count as int
        } else {
            s.len() as int
        },
{
    let n = s.len() as int;
    let picked = oldest(s, count);
    let p = spared_by(s, picked);
    lemma_keep_count(s, p);
    // a VM survives exactly when it was not picked
    assert forall|j: int| 0 <= j < n implies p(s[j]) == !#[trigger] picked(j) by {
        if picked(j) {
            assert(!p(s[j]));
        } else {
            assert forall|i: int| 0 <= i < n && #[trigger] picked(i) implies s[i].id != s[j].id by {
                if i < j {
                } else {
                    assert(i != j);
                }
            }
        }
    }
    lemma_count_ext(n, |j: int| p(s[j]), |k: int| !picked(k));
    lemma_count_complement(n, picked);
    // the picked positions are those of rank under `count`
    let all = |k: int| true;
    assert forall|i: int| 0 <= i < n implies #[trigger] picked(i) == (|i: int|
        all(i) && count_idx(n, |k: int| all(k) && used_before(s, k, i)) < count)(i) by {
        lemma_count_older_idx(s, i, n);
        lemma_count_ext(n, |k: int| used_before(s, k, i), |k: int| all(k) && used_before(s, k, i));
    }
    lemma_count_ext(
        n,
        picked,
        |i: int| all(i) && count_idx(n, |k: int| all(k) && used_before(s, k, i)) < count,
    );
    lemma_rank_count(s, n, all, count);
    lemma_count_true(n);
}

/// VM ids from different creation times or random parts are different: the two
/// numbers are read back from an id at its `_` separators.
pub proof fn law_vm_ids_distinct(t1: u128, r1: u32, t2: u128, r2: u32)
    requires
        t1 != t2 || r1 != r2,
    ensures
        vm_id_text(t1, r1) != vm_id_text(t2, r2),
{
    if vm_id_text(t1, r1) == vm_id_text(t2, r2) {
        let d1 = decimal(t1 as nat);
        let d2 = decimal(t2 as nat);
        let e1 = decimal(r1 as nat);
        let e2 = decimal(r2 as nat);
        let w1 = d1 + "_"@ + e1;
        let w2 = d2 + "_"@ + e2;
        reveal_strlit("vm_");
        assert(vm_id_text(t1, r1).skip(3) =~= w1);
        assert(vm_id_text(t2, r2).skip(3) =~= w2);
        assert(w1 == w2);
        lemma_decimal_digits(t1 as nat);
        lemma_decimal_digits(t2 as nat);
        reveal_strlit("_");
        if d1.len() < d2.len() {
            assert(w1[d1.len() as int] == '_');
            assert(w2[d1.len() as int] == d2[d1.len() as int]);
        } else if d2.len() < d1.len() {
            assert(w2[d2.len() as int] == '_');
            assert(w1[d2.len() as int] == d1[d2.len() as int]);
        }
        assert(d1.len() == d2.len());
        assert(w1.subrange(0, d1.len() as int) =~= d1);
        assert(w2.subrange(0, d2.len() as int) =~= d2);
        assert(w1.skip(d1.len() as int + 1) =~= e1);
        assert(w2.skip(d2.len() as int + 1) =~= e2);
        lemma_decimal_injective(t1 as nat, t2 as nat);
        lemma_decimal_injective(r1 as nat, r2 as nat);
    }
}

/// Idleness is measured from a VM's last use, not its creation: a VM used less
/// than the timeout before `now` is not idle and survives a cleanup when no idle VM
/// shares its id; one unused for at least the timeout is idle and is dropped.
pub proof fn law_vm_idle_from_last_use<H>(s: Seq<VmView<H>>, v: VmView<H>, timeout_secs: u64, now: u64)
    ensures
        v.last_used_at <= now && now < v.last_used_at + 1000 * timeout_secs ==> !is_idle(v, timeout_secs, now),
        now >= v.last_used_at + 1000 * timeout_secs ==> is_idle(v, timeout_secs, now),
        forall|c: u64| #[trigger] is_idle(VmView { created_at: c, ..v }, timeout_secs, now) == is_idle(v, timeout_secs, now),
        s.contains(v) && v.last_used_at <= now && now < v.last_used_at + 1000 * timeout_secs && (forall|i: int|
            0 <= i < s.len() && #[trigger] s[i].id == v.id ==> s[i] == v) ==> keep(
            s,
            spared_by(s, idle_at(s, timeout_secs, now)),
        ).contains(v),
        s.contains(v) && now >= v.last_used_at + 1000 * timeout_secs ==> !keep(
            s,
            spared_by(s, idle_at(s, timeout_secs, now)),
        ).contains(v),
{
    let t = v.last_used_at;
    if t <= now && now < t + 1000 * timeout_secs {
        assert((now - t) / 1000 < timeout_secs) by (nonlinear_arith)
            requires
                0 <= now - t < 1000 * timeout_secs,
        ;
    }
    if now >= t + 1000 * timeout_secs {
        assert((now - t) / 1000 >= timeout_secs) by (nonlinear_arith)
            requires
                now - t >= 1000 * timeout_secs,
        ;
    }
    let p = spared_by(s, idle_at(s, timeout_secs, now));
    lemma_keep_contains(s, p, v);
    if s.contains(v) && now >= t + 1000 * timeout_secs {
        let j = choose|j: int| 0 <= j < s.len() && s[j] == v;
        assert(idle_at(s, timeout_secs, now)(j));
    }
}

} // verus!
