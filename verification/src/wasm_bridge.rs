//! The WASM bridge: the functions that loaded WASM patches export, the loaded
//! patches, and the results of calls waiting to be collected.

use vstd::prelude::*;
use vstd::string::*;
use crate::manifest::opt_chars;
use crate::manifest::clone_opt_string;
use crate::seqs::has_key;
use crate::seqs::keep;
use crate::seqs::lemma_keep_contains;
use crate::seqs::key_index;
use crate::seqs::lemma_keep_unique;
use crate::seqs::lemma_key_index_unique;
use crate::seqs::lemma_push_unique;
use crate::seqs::lemma_remove_unique;
use crate::seqs::lemma_update_unique;
use crate::seqs::unique_by;
use crate::text::append_decimal;
use crate::text::decimal;
use crate::seqs::lemma_keep_len;
use crate::text::lemma_lex_transitive;
use crate::text::lemma_lex_irreflexive;
use crate::text::lemma_decimal_injective;
use crate::text::lex_less;
use crate::text::lex_lt;
use crate::text::str_eq;

verus! {

/// The value of an exported WASM function's description.
pub struct WasmFunctionView {
    pub name: Seq<char>,
    pub patch: Seq<char>,
    pub param_count: usize,
}

/// A function exported by a WASM patch.
#[derive(Debug)]
pub struct WasmFunctionInfo {
    pub name: String,
    pub patch: String,
    pub param_count: usize,
}

impl View for WasmFunctionInfo {
    type V = WasmFunctionView;

    open spec fn view(&self) -> WasmFunctionView {
        WasmFunctionView { name: self.name@, patch: self.patch@, param_count: self.param_count }
    }
}

impl Clone for WasmFunctionInfo {
    fn clone(&self) -> (r: Self)
        ensures
            r@ == self@,
    {
        WasmFunctionInfo { name: self.name.clone(), patch: self.patch.clone(), param_count: self.param_count }
    }
}

/// The value of a call result.
pub struct CallResultView {
    pub request_id: Seq<char>,
    pub success: bool,
    pub result: Option<Seq<char>>,
    pub error: Option<Seq<char>>,
}

/// The outcome of a WASM call, stored until the caller collects it.
#[derive(Debug)]
pub struct WasmCallResultEntry {
    pub request_id: String,
    pub success: bool,
    pub result: Option<String>,
    pub error: Option<String>,
}

impl View for WasmCallResultEntry {
    type V = CallResultView;

    open spec fn view(&self) -> CallResultView {
        CallResultView {
            request_id: self.request_id@,
            success: self.success,
            result: opt_chars(self.result),
            error: opt_chars(self.error),
        }
    }
}

impl Clone for WasmCallResultEntry {
    fn clone(&self) -> (r: Self)
        ensures
            r@ == self@,
    {
        WasmCallResultEntry {
            request_id: self.request_id.clone(),
            success: self.success,
            result: clone_opt_string(&self.result),
            error: clone_opt_string(&self.error),
        }
    }
}

/// Functions are keyed by name.
pub open spec fn fn_key() -> spec_fn(WasmFunctionView) -> Seq<char> {
    |f: WasmFunctionView| f.name
}

/// Patches are keyed by themselves.
pub open spec fn patch_key() -> spec_fn(Seq<char>) -> Seq<char> {
    |p: Seq<char>| p
}

/// Call results are keyed by request id.
pub open spec fn result_key() -> spec_fn(CallResultView) -> Seq<char> {
    |e: CallResultView| e.request_id
}

/// Functions that do not belong to `patch`.
pub open spec fn not_of_patch(patch: Seq<char>) -> spec_fn(WasmFunctionView) -> bool {
    |f: WasmFunctionView| f.patch != patch
}

/// Functions that belong to `patch`.
pub open spec fn of_patch(patch: Seq<char>) -> spec_fn(WasmFunctionView) -> bool {
    |f: WasmFunctionView| f.patch == patch
}

/// Patch names other than `patch`.
pub open spec fn other_patch(patch: Seq<char>) -> spec_fn(Seq<char>) -> bool {
    |q: Seq<char>| q != patch
}

/// Map insertion on a keyed sequence: replaces the element with the same key,
/// or appends.
pub open spec fn upsert<A>(s: Seq<A>, key: spec_fn(A) -> Seq<char>, x: A) -> Seq<A> {
    if has_key(s, key, key(x)) {
        s.update(key_index(s, key, key(x)), x)
    } else {
        s.push(x)
    }
}

/// Inserting functions one after another, later ones replacing earlier ones of the
/// same name.
pub open spec fn insert_all(s: Seq<WasmFunctionView>, new: Seq<WasmFunctionView>) -> Seq<WasmFunctionView>
    decreases new.len(),
{
    if new.len() == 0 {
        s
    } else {
        upsert(insert_all(s, new.drop_last()), fn_key(), new.last())
    }
}

/// The values of a list of function descriptions.
pub open spec fn functions_view(v: Seq<WasmFunctionInfo>) -> Seq<WasmFunctionView> {
    v.map_values(|f: WasmFunctionInfo| f@)
}

/// The values of a list of call results.
pub open spec fn results_view(v: Seq<WasmCallResultEntry>) -> Seq<CallResultView> {
    v.map_values(|e: WasmCallResultEntry| e@)
}

/// Adds a patch name unless it is present.
pub open spec fn add_patch(s: Seq<Seq<char>>, p: Seq<char>) -> Seq<Seq<char>> {
    if s.contains(p) {
        s
    } else {
        s.push(p)
    }
}

/// The number of results whose request id comes strictly before `k`.
pub open spec fn count_less(s: Seq<CallResultView>, k: Seq<char>) -> nat
    decreases s.len(),
{
    if s.len() == 0 {
        0
    } else {
        count_less(s.drop_last(), k) + if lex_lt(s.last().request_id, k) {
            1nat
        } else {
            0nat
        }
    }
}

/// The results kept when the cache is trimmed: all but the 500 with the smallest
/// request ids.
pub open spec fn survivors(s: Seq<CallResultView>) -> spec_fn(CallResultView) -> bool {
    |e: CallResultView| count_less(s, e.request_id) >= 500
}

/// The cache before a new result goes in: trimmed when it holds more than 1000.
pub open spec fn trimmed(s: Seq<CallResultView>) -> Seq<CallResultView> {
    if s.len() > 1000 {
        keep(s, survivors(s))
    } else {
        s
    }
}

/// Map insertion keeps keys unique, makes the new key present with the new
/// element, and keeps every key that was present.
pub proof fn law_upsert<A>(s: Seq<A>, key: spec_fn(A) -> Seq<char>, x: A, k: Seq<char>)
    requires
        unique_by(s, key),
    ensures
        unique_by(upsert(s, key, x), key),
        has_key(upsert(s, key, x), key, key(x)),
        upsert(s, key, x)[key_index(upsert(s, key, x), key, key(x))] == x,
        has_key(s, key, k) ==> has_key(upsert(s, key, x), key, k),
{
    let t = upsert(s, key, x);
    if has_key(s, key, key(x)) {
        let i = key_index(s, key, key(x));
        lemma_update_unique(s, key, i, x);
        assert(t[i] == x);
        lemma_key_index_unique(t, key, i);
        if has_key(s, key, k) {
            let j = key_index(s, key, k);
            if j == i {
                assert(key(t[i]) == k);
            } else {
                assert(t[j] == s[j]);
            }
        }
    } else {
        lemma_push_unique(s, key, x);
        let n = s.len() as int;
        assert(t[n] == x);
        lemma_key_index_unique(t, key, n);
        if has_key(s, key, k) {
            let j = key_index(s, key, k);
            assert(t[j] == s[j]);
        }
    }
}

/// Every function handed to a registration can be found afterwards by name.
pub proof fn law_registered_functions_found(base: Seq<WasmFunctionView>, new: Seq<WasmFunctionView>, i: int)
    requires
        unique_by(base, fn_key()),
        0 <= i < new.len(),
    ensures
        unique_by(insert_all(base, new), fn_key()),
        has_key(insert_all(base, new), fn_key(), new[i].name),
    decreases new.len(),
{
    lemma_insert_all_unique(base, new);
    let d = new.drop_last();
    lemma_insert_all_unique(base, d);
    if i == new.len() - 1 {
        law_upsert(insert_all(base, d), fn_key(), new.last(), new[i].name);
    } else {
        law_registered_functions_found(base, d, i);
        assert(d[i] == new[i]);
        law_upsert(insert_all(base, d), fn_key(), new.last(), new[i].name);
    }
}

/// Inserting functions keeps names unique.
pub proof fn lemma_insert_all_unique(base: Seq<WasmFunctionView>, new: Seq<WasmFunctionView>)
    requires
        unique_by(base, fn_key()),
    ensures
        unique_by(insert_all(base, new), fn_key()),
    decreases new.len(),
{
    if new.len() > 0 {
        lemma_insert_all_unique(base, new.drop_last());
        law_upsert(insert_all(base, new.drop_last()), fn_key(), new.last(), new.last().name);
    }
}

/// After a patch is unregistered, none of the remaining functions belongs to it
/// and it is no longer loaded.
pub proof fn law_unregister_clears_patch(
    fns: Seq<WasmFunctionView>,
    patches: Seq<Seq<char>>,
    p: Seq<char>,
    f: WasmFunctionView,
)
    ensures
        keep(fns, not_of_patch(p)).contains(f) ==> f.patch != p,
        !keep(patches, other_patch(p)).contains(p),
{
    lemma_keep_contains(fns, not_of_patch(p), f);
    lemma_keep_contains(patches, other_patch(p), p);
}

/// A stored result is what taking its request id gives back.
pub proof fn law_store_then_take(s: Seq<CallResultView>, e: CallResultView)
    requires
        unique_by(s, result_key()),
    ensures
        unique_by(upsert(trimmed(s), result_key(), e), result_key()),
        has_key(upsert(trimmed(s), result_key(), e), result_key(), e.request_id),
        upsert(trimmed(s), result_key(), e)[key_index(
            upsert(trimmed(s), result_key(), e),
            result_key(),
            e.request_id,
        )] == e,
{
    if s.len() > 1000 {
        lemma_keep_unique(s, survivors(s), result_key());
    }
    law_upsert(trimmed(s), result_key(), e, e.request_id);
}

/// A result can be taken once: after taking it, no result with that id waits.
pub proof fn law_take_removes(s: Seq<CallResultView>, id: Seq<char>)
    requires
        unique_by(s, result_key()),
        has_key(s, result_key(), id),
    ensures
        !has_key(s.remove(key_index(s, result_key(), id)), result_key(), id),
        unique_by(s.remove(key_index(s, result_key(), id)), result_key()),
{
    let k = key_index(s, result_key(), id);
    lemma_remove_unique(s, result_key(), k);
}

/// The value of the bridge.
pub struct BridgeView {
    pub functions: Seq<WasmFunctionView>,
    pub patches: Seq<Seq<char>>,
    pub results: Seq<CallResultView>,
}

/// The WASM bridge's registry of functions, patches and pending results.
pub struct WasmBridge {
    functions: Vec<WasmFunctionInfo>,
    loaded_patches: Vec<String>,
    call_results: Vec<WasmCallResultEntry>,
}

impl View for WasmBridge {
    type V = BridgeView;

    open spec fn view(&self) -> BridgeView {
        self.model()
    }
}

/// Renders a request id: `wasm_req_` and the counter, which then advances
/// (wrapping at the top of `u64`).
pub fn generate_request_id(counter: &mut u64) -> (id: String)
    ensures
        id@ == request_id_text(*old(counter)),
        *final(counter) == (if *old(counter) == u64::MAX { 0 } else { *old(counter) + 1 }),
{
    let n = *counter;
    let mut s = String::from_str("wasm_req_");
    append_decimal(&mut s, n as u128);
    *counter = if n == u64::MAX { 0 } else { n + 1 };
    s
}

impl WasmBridge {
    /// The bridge's contents.
    pub closed spec fn model(&self) -> BridgeView {
        BridgeView {
            functions: functions_view(self.functions@),
            patches: self.loaded_patches@.map_values(|s: String| s@),
            results: results_view(self.call_results@),
        }
    }

    /// Keys are unique in each of the three tables.
    pub open spec fn wf(&self) -> bool {
        &&& unique_by(self@.functions, fn_key())
        &&& unique_by(self@.patches, patch_key())
        &&& unique_by(self@.results, result_key())
    }

    /// An empty bridge.
    pub fn new() -> (r: Self)
        ensures
            r.wf(),
            r@.functions.len() == 0,
            r@.patches.len() == 0,
            r@.results.len() == 0,
    {
        WasmBridge { functions: Vec::new(), loaded_patches: Vec::new(), call_results: Vec::new() }
    }

    fn function_position(&self, name: &str) -> (r: Option<usize>)
        requires
            self.wf(),
        ensures
            match r {
                Some(i) => i < self@.functions.len() && has_key(self@.functions, fn_key(), name@)
                    && i == key_index(self@.functions, fn_key(), name@),
                None => !has_key(self@.functions, fn_key(), name@),
            },
    {
        let mut i: usize = 0;
        while i < self.functions.len()
            invariant
                i <= self.functions@.len(),
                self@.functions == functions_view(self.functions@),
                unique_by(self@.functions, fn_key()),
                forall|j: int| 0 <= j < i ==> self@.functions[j].name != name@,
            decreases self.functions.len() - i,
        {
            if str_eq(self.functions[i].name.as_str(), name) {
                proof {
                    lemma_key_index_unique(self@.functions, fn_key(), i as int);
                }
                return Some(i);
            }
            i = i + 1;
        }
        None
    }

    fn insert_function(&mut self, f: WasmFunctionInfo)
        requires
            old(self).wf(),
        ensures
            final(self).wf(),
            final(self)@.functions == upsert(old(self)@.functions, fn_key(), f@),
            final(self)@.patches == old(self)@.patches,
            final(self)@.results == old(self)@.results,
    {
        match self.function_position(f.name.as_str()) {
            Some(i) => {
                proof {
                    lemma_update_unique(self@.functions, fn_key(), i as int, f@);
                }
                self.functions.set(i, f);
                assert(self@.functions =~= old(self)@.functions.update(i as int, f@));
            },
            None => {
                proof {
                    lemma_push_unique(self@.functions, fn_key(), f@);
                }
                self.functions.push(f);
                assert(self@.functions =~= old(self)@.functions.push(f@));
            },
        }
    }

    fn drop_patch_functions(&mut self, patch: &str)
        requires
            old(self).wf(),
        ensures
            final(self).wf(),
            final(self)@.functions == keep(old(self)@.functions, not_of_patch(patch@)),
            final(self)@.patches == old(self)@.patches,
            final(self)@.results == old(self)@.results,
    {
        let mut out: Vec<WasmFunctionInfo> = Vec::new();
        let mut i: usize = 0;
        let ghost s = self@.functions;
        while i < self.functions.len()
            invariant
                i <= self.functions@.len(),
                s == functions_view(self.functions@),
                functions_view(out@) == keep(s.take(i as int), not_of_patch(patch@)),
            decreases self.functions.len() - i,
        {
            let ghost before = out@;
            let same = str_eq(self.functions[i].patch.as_str(), patch);
            if !same {
                out.push(self.functions[i].clone());
            }
            proof {
                let t = s.take(i + 1);
                assert(t.drop_last() =~= s.take(i as int));
                assert(t.last() == s[i as int]);
                if !same {
                    assert(functions_view(out@) =~= functions_view(before).push(s[i as int]));
                } else {
                    assert(functions_view(out@) =~= functions_view(before));
                }
            }
            i = i + 1;
        }
        assert(s.take(self.functions.len() as int) =~= s);
        proof {
            lemma_keep_unique(s, not_of_patch(patch@), fn_key());
        }
        self.functions = out;
    }

    fn patch_position(&self, patch: &str) -> (r: Option<usize>)
        requires
            self.wf(),
        ensures
            match r {
                Some(i) => i < self@.patches.len() && self@.patches[i as int] == patch@,
                None => !self@.patches.contains(patch@),
            },
    {
        let mut i: usize = 0;
        while i < self.loaded_patches.len()
            invariant
                i <= self.loaded_patches@.len(),
                self@.patches == self.loaded_patches@.map_values(|s: String| s@),
                forall|j: int| 0 <= j < i ==> self@.patches[j] != patch@,
            decreases self.loaded_patches.len() - i,
        {
            if str_eq(self.loaded_patches[i].as_str(), patch) {
                return Some(i);
            }
            i = i + 1;
        }
        None
    }

    /// Registers the functions of a patch, replacing whatever that patch had
    /// registered before, and marks the patch loaded. A function whose name is
    /// already taken replaces the earlier one.
    pub fn register_functions(&mut self, patch: String, functions: Vec<WasmFunctionInfo>)
        requires
            old(self).wf(),
        ensures
            final(self).wf(),
            final(self)@.functions == insert_all(
                keep(old(self)@.functions, not_of_patch(patch@)),
                functions_view(functions@),
            ),
            final(self)@.patches == add_patch(old(self)@.patches, patch@),
            final(self)@.results == old(self)@.results,
    {
        self.drop_patch_functions(patch.as_str());
        let ghost base = self@.functions;
        let mut i: usize = 0;
        while i < functions.len()
            invariant
                i <= functions@.len(),
                self.wf(),
                self@.functions == insert_all(base, functions_view(functions@).take(i as int)),
                self@.patches == old(self)@.patches,
                self@.results == old(self)@.results,
            decreases functions.len() - i,
        {
            let f = functions[i].clone();
            self.insert_function(f);
            proof {
                let t = functions_view(functions@).take(i + 1);
                assert(t.drop_last() =~= functions_view(functions@).take(i as int));
                assert(t.last() == functions@[i as int]@);
            }
            i = i + 1;
        }
        assert(functions_view(functions@).take(functions.len() as int) =~= functions_view(functions@));
        match self.patch_position(patch.as_str()) {
            Some(_) => {},
            None => {
                let ghost p = patch@;
                self.loaded_patches.push(patch);
                proof {
                    lemma_push_unique(old(self)@.patches, patch_key(), p);
                }
                assert(self@.patches =~= old(self)@.patches.push(p));
            },
        }
    }

    /// Unregisters every function of a patch and marks the patch not loaded.
    pub fn unregister_patch(&mut self, patch: &str)
        requires
            old(self).wf(),
        ensures
            final(self).wf(),
            final(self)@.functions == keep(old(self)@.functions, not_of_patch(patch@)),
            final(self)@.patches == keep(old(self)@.patches, other_patch(patch@)),
            final(self)@.results == old(self)@.results,
    {
        self.drop_patch_functions(patch);
        let mut out: Vec<String> = Vec::new();
        let mut i: usize = 0;
        let ghost s = self@.patches;
        while i < self.loaded_patches.len()
            invariant
                i <= self.loaded_patches@.len(),
                s == self.loaded_patches@.map_values(|x: String| x@),
                out@.map_values(|x: String| x@) == keep(s.take(i as int), other_patch(patch@)),
            decreases self.loaded_patches.len() - i,
        {
            let ghost before = out@;
            let same = str_eq(self.loaded_patches[i].as_str(), patch);
            if !same {
                out.push(self.loaded_patches[i].clone());
            }
            proof {
                let t = s.take(i + 1);
                assert(t.drop_last() =~= s.take(i as int));
                assert(t.last() == s[i as int]);
                if !same {
                    assert(out@.map_values(|x: String| x@) =~= before.map_values(|x: String| x@).push(
                        s[i as int],
                    ));
                } else {
                    assert(out@.map_values(|x: String| x@) =~= before.map_values(|x: String| x@));
                }
            }
            i = i + 1;
        }
        assert(s.take(self.loaded_patches.len() as int) =~= s);
        proof {
            lemma_keep_unique(s, other_patch(patch@), patch_key());
        }
        self.loaded_patches = out;
    }

    /// Every registered function.
    pub fn list_functions(&self) -> (r: Vec<WasmFunctionInfo>)
        ensures
            functions_view(r@) == self@.functions,
    {
        let mut out: Vec<WasmFunctionInfo> = Vec::new();
        let mut i: usize = 0;
        while i < self.functions.len()
            invariant
                i <= self.functions@.len(),
                self@.functions == functions_view(self.functions@),
                out@.len() == i,
                forall|j: int| 0 <= j < i ==> out@[j]@ == self@.functions[j],
            decreases self.functions.len() - i,
        {
            out.push(self.functions[i].clone());
            i = i + 1;
        }
        assert(functions_view(out@) =~= self@.functions);
        out
    }

    /// The functions registered by `patch`.
    pub fn get_patch_functions(&self, patch: &str) -> (r: Vec<WasmFunctionInfo>)
        ensures
            functions_view(r@) == keep(self@.functions, of_patch(patch@)),
    {
        let mut out: Vec<WasmFunctionInfo> = Vec::new();
        let mut i: usize = 0;
        let ghost s = self@.functions;
        while i < self.functions.len()
            invariant
                i <= self.functions@.len(),
                s == functions_view(self.functions@),
                functions_view(out@) == keep(s.take(i as int), of_patch(patch@)),
            decreases self.functions.len() - i,
        {
            let ghost before = out@;
            let same = str_eq(self.functions[i].patch.as_str(), patch);
            if same {
                out.push(self.functions[i].clone());
            }
            proof {
                let t = s.take(i + 1);
                assert(t.drop_last() =~= s.take(i as int));
                assert(t.last() == s[i as int]);
                if same {
                    assert(functions_view(out@) =~= functions_view(before).push(s[i as int]));
                } else {
                    assert(functions_view(out@) =~= functions_view(before));
                }
            }
            i = i + 1;
        }
        assert(s.take(self.functions.len() as int) =~= s);
        out
    }

    /// Whether a function of that name is registered.
    pub fn has_function(&self, name: &str) -> (b: bool)
        requires
            self.wf(),
        ensures
            b == has_key(self@.functions, fn_key(), name@),
    {
        self.function_position(name).is_some()
    }

    /// Whether the patch is loaded.
    pub fn is_patch_loaded(&self, patch: &str) -> (b: bool)
        requires
            self.wf(),
        ensures
            b == self@.patches.contains(patch@),
    {
        self.patch_position(patch).is_some()
    }

    fn result_position(&self, id: &str) -> (r: Option<usize>)
        requires
            self.wf(),
        ensures
            match r {
                Some(i) => i < self@.results.len() && has_key(self@.results, result_key(), id@)
                    && i == key_index(self@.results, result_key(), id@),
                None => !has_key(self@.results, result_key(), id@),
            },
    {
        let mut i: usize = 0;
        while i < self.call_results.len()
            invariant
                i <= self.call_results@.len(),
                self@.results == results_view(self.call_results@),
                unique_by(self@.results, result_key()),
                forall|j: int| 0 <= j < i ==> self@.results[j].request_id != id@,
            decreases self.call_results.len() - i,
        {
            if str_eq(self.call_results[i].request_id.as_str(), id) {
                proof {
                    lemma_key_index_unique(self@.results, result_key(), i as int);
                }
                return Some(i);
            }
            i = i + 1;
        }
        None
    }

    fn rank(&self, k: &str) -> (n: usize)
        ensures
            n == count_less(self@.results, k@),
    {
        let mut c: usize = 0;
        let mut j: usize = 0;
        let ghost s = self@.results;
        while j < self.call_results.len()
            invariant
                j <= self.call_results@.len(),
                s == results_view(self.call_results@),
                c == count_less(s.take(j as int), k@),
                c <= j,
            decreases self.call_results.len() - j,
        {
            proof {
                let t = s.take(j + 1);
                assert(t.drop_last() =~= s.take(j as int));
                assert(t.last() == s[j as int]);
            }
            if lex_less(self.call_results[j].request_id.as_str(), k) {
                c = c + 1;
            }
            j = j + 1;
        }
        assert(s.take(self.call_results.len() as int) =~= s);
        c
    }

    fn trim_results(&mut self)
        requires
            old(self).wf(),
        ensures
            final(self).wf(),
            final(self)@.results == trimmed(old(self)@.results),
            final(self)@.functions == old(self)@.functions,
            final(self)@.patches == old(self)@.patches,
    {
        if self.call_results.len() <= 1000 {
            return;
        }
        let ghost s = self@.results;
        let mut out: Vec<WasmCallResultEntry> = Vec::new();
        let mut i: usize = 0;
        while i < self.call_results.len()
            invariant
                i <= self.call_results@.len(),
                s == results_view(self.call_results@),
                s == self@.results,
                results_view(out@) == keep(s.take(i as int), survivors(s)),
            decreases self.call_results.len() - i,
        {
            let ghost before = out@;
            let r = self.rank(self.call_results[i].request_id.as_str());
            if r >= 500 {
                out.push(self.call_results[i].clone());
            }
            proof {
                let t = s.take(i + 1);
                assert(t.drop_last() =~= s.take(i as int));
                assert(t.last() == s[i as int]);
                if r >= 500 {
                    assert(results_view(out@) =~= results_view(before).push(s[i as int]));
                } else {
                    assert(results_view(out@) =~= results_view(before));
                }
            }
            i = i + 1;
        }
        assert(s.take(self.call_results.len() as int) =~= s);
        proof {
            lemma_keep_unique(s, survivors(s), result_key());
        }
        self.call_results = out;
    }

    /// Stores a call result under its request id, replacing any earlier one; when
    /// more than 1000 results are waiting, the 500 with the smallest request ids are
    /// dropped first.
    pub fn store_call_result(&mut self, result: WasmCallResultEntry)
        requires
            old(self).wf(),
        ensures
            final(self).wf(),
            final(self)@.results == upsert(trimmed(old(self)@.results), result_key(), result@),
            final(self)@.functions == old(self)@.functions,
            final(self)@.patches == old(self)@.patches,
    {
        self.trim_results();
        match self.result_position(result.request_id.as_str()) {
            Some(i) => {
                proof {
                    lemma_update_unique(self@.results, result_key(), i as int, result@);
                }
                let ghost before = self@.results;
                self.call_results.set(i, result);
                assert(self@.results =~= before.update(i as int, result@));
            },
            None => {
                proof {
                    lemma_push_unique(self@.results, result_key(), result@);
                }
                let ghost before = self@.results;
                let ghost rv = result@;
                self.call_results.push(result);
                assert(self@.results =~= before.push(rv));
            },
        }
    }

    /// Takes the result of a call: returns it and removes it, or `None` when no
    /// result with that id is waiting.
    pub fn get_call_result(&mut self, request_id: &str) -> (r: Option<WasmCallResultEntry>)
        requires
            old(self).wf(),
        ensures
            final(self).wf(),
            final(self)@.functions == old(self)@.functions,
            final(self)@.patches == old(self)@.patches,
            !has_key(old(self)@.results, result_key(), request_id@) ==> (r is None && final(self)@.results
                == old(self)@.results),
            has_key(old(self)@.results, result_key(), request_id@) ==> (r matches Some(e) && e@
                == old(self)@.results[key_index(old(self)@.results, result_key(), request_id@)]
                && final(self)@.results == old(self)@.results.remove(
                key_index(old(self)@.results, result_key(), request_id@),
            )),
    {
        match self.result_position(request_id) {
            Some(i) => {
                proof {
                    lemma_remove_unique(self@.results, result_key(), i as int);
                }
                let e = self.call_results.remove(i);
                assert(self@.results =~= old(self)@.results.remove(i as int));
                Some(e)
            },
            None => None,
        }
    }
}

/// The request id rendered from a counter value.
pub open spec fn request_id_text(n: u64) -> Seq<char> {
    "wasm_req_"@ + decimal(n as nat)
}

/// Request ids from different counter values are different.
pub proof fn law_request_ids_distinct(a: u64, b: u64)
    requires
        a != b,
    ensures
        request_id_text(a) != request_id_text(b),
{
    if request_id_text(a) == request_id_text(b) {
        let p = "wasm_req_"@;
        assert(request_id_text(a).skip(p.len() as int) =~= decimal(a as nat));
        assert(request_id_text(b).skip(p.len() as int) =~= decimal(b as nat));
        lemma_decimal_injective(a as nat, b as nat);
    }
}

/// Two request ids generated one after the other differ: the counter always moves
/// to another value, wrapping from the top to zero.
pub proof fn law_successive_request_ids_differ(c: u64)
    ensures
        request_id_text(c) != request_id_text(if c == u64::MAX { 0 } else { (c + 1) as u64 }),
{
    law_request_ids_distinct(c, if c == u64::MAX { 0 } else { (c + 1) as u64 });
}

/// No request id of the cache precedes the one at `j`.
pub open spec fn smallest_at(s: Seq<CallResultView>, j: int) -> bool {
    forall|k: int| 0 <= k < s.len() ==> !lex_lt(#[trigger] s[k].request_id, s[j].request_id)
}

/// Some result of a non-empty cache has a request id that no other id precedes.
proof fn lemma_smallest_id_exists(s: Seq<CallResultView>)
    requires
        s.len() > 0,
    ensures
        exists|j: int| 0 <= j < s.len() && #[trigger] smallest_at(s, j),
    decreases s.len(),
{
    if s.len() == 1 {
        assert forall|k: int| 0 <= k < s.len() implies !lex_lt(#[trigger] s[k].request_id, s[0].request_id) by {
            lemma_lex_irreflexive(s[0].request_id);
        }
        assert(smallest_at(s, 0));
    } else {
        let d = s.drop_last();
        lemma_smallest_id_exists(d);
        let m = choose|j: int| 0 <= j < d.len() && #[trigger] smallest_at(d, j);
        let last = s.len() - 1;
        if lex_lt(s[last].request_id, d[m].request_id) {
            assert forall|k: int| 0 <= k < s.len() implies !lex_lt(#[trigger] s[k].request_id, s[last].request_id) by {
                if k < last {
                    assert(s[k] == d[k]);
                    if lex_lt(s[k].request_id, s[last].request_id) {
                        lemma_lex_transitive(s[k].request_id, s[last].request_id, d[m].request_id);
                    }
                } else {
                    lemma_lex_irreflexive(s[last].request_id);
                }
            }
            assert(smallest_at(s, last));
        } else {
            assert forall|k: int| 0 <= k < s.len() implies !lex_lt(#[trigger] s[k].request_id, s[m].request_id) by {
                if k < last {
                    assert(s[k] == d[k]);
                }
                assert(s[m] == d[m]);
            }
            assert(smallest_at(s, m));
        }
    }
}

/// A key that no id precedes has nothing counted before it.
proof fn lemma_count_less_zero(s: Seq<CallResultView>, key: Seq<char>)
    requires
        forall|k: int| 0 <= k < s.len() ==> !lex_lt(#[trigger] s[k].request_id, key),
    ensures
        count_less(s, key) == 0,
    decreases s.len(),
{
    if s.len() > 0 {
        let d = s.drop_last();
        assert forall|k: int| 0 <= k < d.len() implies !lex_lt(#[trigger] d[k].request_id, key) by {
            assert(d[k] == s[k]);
        }
        lemma_count_less_zero(d, key);
        assert(s.last() == s[s.len() - 1]);
    }
}

/// Keeping loses an element that fails the predicate.
proof fn lemma_keep_shorter<A>(s: Seq<A>, p: spec_fn(A) -> bool, j: int)
    requires
        0 <= j < s.len(),
        !p(s[j]),
    ensures
        keep(s, p).len() < s.len(),
    decreases s.len(),
{
    let d = s.drop_last();
    if j < s.len() - 1 {
        assert(d[j] == s[j]);
        lemma_keep_shorter(d, p, j);
    } else {
        lemma_keep_len(d, p);
    }
}

/// The result cache stays bounded: a cache of at most 1001 results still holds at
/// most 1001 after another result is stored.
pub proof fn law_results_bounded(s: Seq<CallResultView>, e: CallResultView)
    requires
        s.len() <= 1001,
    ensures
        upsert(trimmed(s), result_key(), e).len() <= 1001,
{
    if s.len() > 1000 {
        lemma_smallest_id_exists(s);
        let j = choose|j: int| 0 <= j < s.len() && #[trigger] smallest_at(s, j);
        lemma_count_less_zero(s, s[j].request_id);
        lemma_keep_shorter(s, survivors(s), j);
    }
}

} // verus!
