//! Tool metadata and the scheduling of a turn's tool calls: which calls run
//! together, which run one after another, and how their results are put
//! back in call order.
use vstd::prelude::*;

use crate::text::{owned, push_str, views};
use crate::types::ToolResult;

verus! {

/// Whether a tool is safe to execute concurrently with other tools.
#[derive(Debug, Clone, Copy, PartialEq, Eq, Structural)]
pub enum ConcurrencySafety {
    /// Safe to run in parallel with other tools (read-only operations).
    ConcurrentSafe,
    /// Must run sequentially (write operations, stateful tools).
    ConcurrentUnsafe,
}

/// Semantic metadata about a tool. Not sent to the LLM; used by
/// executors, hooks, and permission systems.
#[derive(Debug, Clone)]
pub struct ToolMetadata {
    /// True if this tool never modifies state.
    pub read_only: bool,
    /// True if calling this tool twice with identical args is safe (no side-effects).
    pub idempotent: bool,
    /// Optional grouping hint, e.g. "file", "network", "compute".
    pub category: Option<String>,
}

impl Default for ToolMetadata {
    fn default() -> (m: Self)
        ensures
            !m.read_only,
            !m.idempotent,
            m.category is None,
    {
        ToolMetadata { read_only: false, idempotent: false, category: None }
    }
}

/// Does a call run in the concurrent batch? Only in a parallel executor,
/// and only when its tool is not registered as unsafe (unknown tools count
/// as safe).
pub open spec fn runs_concurrently(safety: Option<ConcurrencySafety>, parallel: bool) -> bool {
    parallel && safety != Some(ConcurrencySafety::ConcurrentUnsafe)
}

/// The positions, in ascending order, of the calls whose batch is `batch`.
pub open spec fn indices_in(s: Seq<Option<ConcurrencySafety>>, parallel: bool, batch: bool) -> Seq<usize>
    decreases s.len(),
{
    if s.len() == 0 {
        Seq::<usize>::empty()
    } else {
        let r = indices_in(s.drop_last(), parallel, batch);
        if runs_concurrently(s.last(), parallel) == batch {
            r.push((s.len() - 1) as usize)
        } else {
            r
        }
    }
}

/// The rank of call `k` within its batch: how many earlier calls share it.
pub open spec fn rank_in_batch(s: Seq<Option<ConcurrencySafety>>, parallel: bool, k: int) -> nat {
    indices_in(s.take(k), parallel, runs_concurrently(s[k], parallel)).len()
}

/// The plan for a turn's tool calls: the positions run together, and the
/// positions run one by one, each in call order.
pub struct ExecutionPlan {
    pub concurrent: Vec<usize>,
    pub sequential: Vec<usize>,
}

proof fn lemma_indices_prefix(s: Seq<Option<ConcurrencySafety>>, parallel: bool, batch: bool, m: int)
    requires
        0 <= m <= s.len(),
    ensures
        indices_in(s, parallel, batch).take(indices_in(s.take(m), parallel, batch).len() as int)
            == indices_in(s.take(m), parallel, batch),
        indices_in(s.take(m), parallel, batch).len() <= indices_in(s, parallel, batch).len(),
    decreases s.len(),
{
    if m == s.len() {
        assert(s.take(m) == s);
        assert(indices_in(s, parallel, batch).take(indices_in(s, parallel, batch).len() as int)
            == indices_in(s, parallel, batch));
    } else {
        assert(s.drop_last().take(m) == s.take(m));
        lemma_indices_prefix(s.drop_last(), parallel, batch, m);
        let r = indices_in(s.drop_last(), parallel, batch);
        let p = indices_in(s.take(m), parallel, batch);
        if runs_concurrently(s.last(), parallel) == batch {
            assert(r.push((s.len() - 1) as usize).take(p.len() as int) == r.take(p.len() as int));
        }
    }
}

proof fn lemma_indices_bounds(s: Seq<Option<ConcurrencySafety>>, parallel: bool, batch: bool)
    ensures
        forall|j: int|
            0 <= j < indices_in(s, parallel, batch).len() ==> #[trigger] indices_in(s, parallel, batch)[j]
                < s.len(),
        indices_in(s, parallel, batch).len() <= s.len(),
    decreases s.len(),
{
    if s.len() > 0 {
        lemma_indices_bounds(s.drop_last(), parallel, batch);
    }
}

/// Every call lands in its batch at its rank: the plan and the merge of
/// the results agree on where each result belongs.
pub proof fn law_plan_positions(s: Seq<Option<ConcurrencySafety>>, parallel: bool, k: int)
    requires
        0 <= k < s.len(),
        s.len() <= usize::MAX,
    ensures
        rank_in_batch(s, parallel, k) < indices_in(s, parallel, runs_concurrently(s[k], parallel)).len(),
        indices_in(s, parallel, runs_concurrently(s[k], parallel))[rank_in_batch(s, parallel, k) as int]
            == k,
{
    let b = runs_concurrently(s[k], parallel);
    let t = s.take(k + 1);
    assert(t.drop_last() == s.take(k));
    assert(t.last() == s[k]);
    let p = indices_in(s.take(k), parallel, b);
    assert(indices_in(t, parallel, b) == p.push(k as usize));
    lemma_indices_prefix(s, parallel, b, k + 1);
    let full = indices_in(s, parallel, b);
    assert(full.take(p.len() as int + 1) == p.push(k as usize));
    assert(full.take(p.len() as int + 1)[p.len() as int] == full[p.len() as int]);
    assert(rank_in_batch(s, parallel, k) == p.len());
}

/// Every call is in exactly one batch.
pub proof fn law_plan_partition(s: Seq<Option<ConcurrencySafety>>, parallel: bool)
    ensures
        indices_in(s, parallel, true).len() + indices_in(s, parallel, false).len() == s.len(),
        !parallel ==> indices_in(s, parallel, true).len() == 0,
    decreases s.len(),
{
    if s.len() > 0 {
        law_plan_partition(s.drop_last(), parallel);
    }
}

/// Splits a turn's calls, given what each call's tool declares (`None` for
/// an unknown tool), into the concurrent batch and the sequential queue.
pub fn plan_execution(safety: &Vec<Option<ConcurrencySafety>>, parallel: bool) -> (p: ExecutionPlan)
    ensures
        p.concurrent@ == indices_in(safety@, parallel, true),
        p.sequential@ == indices_in(safety@, parallel, false),
{
    let mut concurrent: Vec<usize> = Vec::new();
    let mut sequential: Vec<usize> = Vec::new();
    let mut i: usize = 0;
    while i < safety.len()
        invariant
            i <= safety.len(),
            concurrent@ == indices_in(safety@.take(i as int), parallel, true),
            sequential@ == indices_in(safety@.take(i as int), parallel, false),
        decreases safety.len() - i,
    {
        assert(safety@.take(i + 1).drop_last() == safety@.take(i as int));
        assert(safety@.take(i + 1).last() == safety@[i as int]);
        let unsafe_tool = match safety[i] {
            Some(ConcurrencySafety::ConcurrentUnsafe) => true,
            _ => false,
        };
        if parallel && !unsafe_tool {
            concurrent.push(i);
        } else {
            sequential.push(i);
        }
        i = i + 1;
    }
    assert(safety@.take(safety.len() as int) == safety@);
    ExecutionPlan { concurrent, sequential }
}

/// Puts the results of both batches back in call order: the result of
/// call `k` is taken from its batch at its rank.
pub fn merge_results(
    safety: &Vec<Option<ConcurrencySafety>>,
    parallel: bool,
    concurrent: &Vec<ToolResult>,
    sequential: &Vec<ToolResult>,
) -> (r: Vec<ToolResult>)
    requires
        concurrent@.len() == indices_in(safety@, parallel, true).len(),
        sequential@.len() == indices_in(safety@, parallel, false).len(),
    ensures
        r@.len() == safety@.len(),
        forall|k: int|
            0 <= k < safety@.len() ==> #[trigger] r@[k] == if runs_concurrently(safety@[k], parallel) {
                concurrent@[rank_in_batch(safety@, parallel, k) as int]
            } else {
                sequential@[rank_in_batch(safety@, parallel, k) as int]
            },
{
    let mut r: Vec<ToolResult> = Vec::new();
    let mut a: usize = 0;
    let mut b: usize = 0;
    let mut k: usize = 0;
    while k < safety.len()
        invariant
            k <= safety.len(),
            concurrent@.len() == indices_in(safety@, parallel, true).len(),
            sequential@.len() == indices_in(safety@, parallel, false).len(),
            a == indices_in(safety@.take(k as int), parallel, true).len(),
            b == indices_in(safety@.take(k as int), parallel, false).len(),
            r@.len() == k,
            forall|j: int|
                0 <= j < k ==> #[trigger] r@[j] == if runs_concurrently(safety@[j], parallel) {
                    concurrent@[rank_in_batch(safety@, parallel, j) as int]
                } else {
                    sequential@[rank_in_batch(safety@, parallel, j) as int]
                },
        decreases safety.len() - k,
    {
        proof {
            assert(safety@.take(k + 1).drop_last() == safety@.take(k as int));
            assert(safety@.take(k + 1).last() == safety@[k as int]);
            assert(safety@.len() == safety.len());
            law_plan_positions(safety@, parallel, k as int);
        }
        let unsafe_tool = match safety[k] {
            Some(ConcurrencySafety::ConcurrentUnsafe) => true,
            _ => false,
        };
        if parallel && !unsafe_tool {
            assert(runs_concurrently(safety@[k as int], parallel));
            assert(a == rank_in_batch(safety@, parallel, k as int));
            assert(a < concurrent@.len());
            assert(a < concurrent.len());
            r.push(concurrent[a].clone());
            a = a + 1;
        } else {
            assert(!runs_concurrently(safety@[k as int], parallel));
            assert(b == rank_in_batch(safety@, parallel, k as int));
            assert(b < sequential.len());
            r.push(sequential[b].clone());
            b = b + 1;
        }
        k = k + 1;
    }
    r
}

/// The short "not found" message of the plain executors.
pub fn missing_tool_message(name: &str) -> (r: String)
    ensures
        r@ == "Tool '"@ + name@ + "' not found"@,
{
    let mut r = owned("Tool '");
    push_str(&mut r, name);
    push_str(&mut r, "' not found");
    r
}

// ---------------------------------------------------------------------------
// Registered tools
// ---------------------------------------------------------------------------

/// What the registrations say of a tool name: the safety it was last
/// registered with, if it was registered.
pub open spec fn registered_safety(
    entries: Seq<(Seq<char>, ConcurrencySafety)>,
    name: Seq<char>,
) -> Option<ConcurrencySafety>
    decreases entries.len(),
{
    if entries.len() == 0 {
        None
    } else if entries.last().0 == name {
        Some(entries.last().1)
    } else {
        registered_safety(entries.drop_last(), name)
    }
}

/// The tools an executor knows, by name, with the concurrency each
/// declares. A name is registered at most once; registering it again
/// replaces the tool.
pub struct ToolRegistry {
    names: Vec<String>,
    safety: Vec<ConcurrencySafety>,
}

impl ToolRegistry {
    #[verifier::type_invariant]
    spec fn well_formed(self) -> bool {
        &&& self.names@.len() == self.safety@.len()
        &&& forall|i: int, j: int|
            0 <= i < j < self.names@.len() ==> (#[trigger] self.names@[i])@ != (#[trigger] self.names@[j])@
    }

    /// The registrations, in the order the names were first registered.
    pub closed spec fn entries(&self) -> Seq<(Seq<char>, ConcurrencySafety)> {
        Seq::new(self.names@.len(), |i: int| (self.names@[i]@, self.safety@[i]))
    }

    /// The registered names, in the order they were first registered.
    pub closed spec fn names(&self) -> Seq<Seq<char>> {
        views(self.names@)
    }

    /// The safety a name is registered with.
    pub open spec fn lookup(&self, name: Seq<char>) -> Option<ConcurrencySafety> {
        registered_safety(self.entries(), name)
    }

    pub fn new() -> (r: Self)
        ensures
            r.entries().len() == 0,
            r.names().len() == 0,
            forall|n: Seq<char>| #[trigger] r.lookup(n) is None,
    {
        ToolRegistry { names: Vec::new(), safety: Vec::new() }
    }

    fn position(&self, name: &str) -> (r: Option<usize>)
        ensures
            match r {
                Some(i) => i < self.entries().len() && self.entries()[i as int].0 == name@,
                None => forall|k: int| 0 <= k < self.entries().len() ==> #[trigger] self.entries()[k].0 != name@,
            },
    {
        proof { use_type_invariant(self); }
        let mut i: usize = 0;
        while i < self.names.len()
            invariant
                i <= self.names@.len(),
                self.names@.len() == self.safety@.len(),
                forall|k: int| 0 <= k < i ==> (#[trigger] self.names@[k])@ != name@,
            decreases self.names@.len() - i,
        {
            if crate::tools::same_text(self.names[i].as_str(), name) {
                return Some(i);
            }
            i = i + 1;
        }
        None
    }

    /// Registers (or re-registers) a tool under `name`.
    pub fn register(&mut self, name: String, safety: ConcurrencySafety)
        ensures
            forall|n: Seq<char>| #[trigger] final(self).lookup(n) == if n == name@ {
                Some(safety)
            } else {
                old(self).lookup(n)
            },
            final(self).names() == if old(self).lookup(name@) is Some {
                old(self).names()
            } else {
                old(self).names().push(name@)
            },
    {
        proof { use_type_invariant(&*self); }
        let ghost before = self.entries();
        let ghost before_names = self.names();
        let ghost nm = name@;
        let pos = self.position(name.as_str());
        let mut me = ToolRegistry::new();
        std::mem::swap(&mut me, self);
        proof { use_type_invariant(&me); }
        let ToolRegistry { mut names, safety: mut safeties } = me;
        match pos {
            Some(i) => {
                proof {
                    lemma_lookup_present(before, i as int, nm);
                    lemma_lookup_update(before, i as int, nm, safety);
                }
                safeties.set(i, safety);
                *self = ToolRegistry { names, safety: safeties };
                proof {
                    assert(self.entries() =~= before.update(i as int, (nm, safety)));
                    assert(self.names() =~= before_names);
                }
            },
            None => {
                proof {
                    lemma_lookup_absent(before, nm);
                    assert forall|k: int| 0 <= k < names@.len() implies (#[trigger] names@[k])@ != nm by {
                        assert(before[k].0 == names@[k]@);
                    }
                }
                names.push(name);
                safeties.push(safety);
                *self = ToolRegistry { names, safety: safeties };
                proof {
                    let after = self.entries();
                    assert(after.drop_last() =~= before);
                    assert(after.last() == (nm, safety));
                    assert(self.names() =~= before_names.push(nm));
                }
            },
        }
    }

    /// Whether a tool is registered under `name`.
    pub fn has(&self, name: &str) -> (b: bool)
        ensures
            b == self.lookup(name@) is Some,
    {
        let pos = self.position(name);
        proof {
            match pos {
                Some(i) => lemma_lookup_present(self.entries(), i as int, name@),
                None => lemma_lookup_absent(self.entries(), name@),
            }
        }
        pos.is_some()
    }

    /// The safety `name` is registered with.
    pub fn safety_of(&self, name: &str) -> (r: Option<ConcurrencySafety>)
        ensures
            r == self.lookup(name@),
    {
        proof { use_type_invariant(self); }
        match self.position(name) {
            Some(i) => {
                proof {
                    lemma_lookup_distinct(self.entries(), i as int);
                }
                Some(self.safety[i])
            },
            None => {
                proof {
                    lemma_lookup_absent(self.entries(), name@);
                }
                None
            },
        }
    }

    /// The registered names, in the order they were first registered.
    pub fn names_list(&self) -> (r: Vec<String>)
        ensures
            views(r@) == self.names(),
    {
        let mut r: Vec<String> = Vec::new();
        let mut i: usize = 0;
        while i < self.names.len()
            invariant
                i <= self.names@.len(),
                views(r@) == self.names().take(i as int),
            decreases self.names@.len() - i,
        {
            let ghost before = r@;
            assert(views(before).len() == before.len());
            let c = self.names[i].clone();
            r.push(c);
            assert(views(r@) =~= self.names().take(i + 1));
            i = i + 1;
        }
        assert(self.names().take(self.names@.len() as int) =~= self.names());
        r
    }
}

proof fn lemma_lookup_absent(entries: Seq<(Seq<char>, ConcurrencySafety)>, name: Seq<char>)
    requires
        forall|k: int| 0 <= k < entries.len() ==> #[trigger] entries[k].0 != name,
    ensures
        registered_safety(entries, name) is None,
    decreases entries.len(),
{
    if entries.len() > 0 {
        assert forall|k: int| 0 <= k < entries.drop_last().len() implies #[trigger] entries.drop_last()[k].0
            != name by {
            assert(entries.drop_last()[k] == entries[k]);
        }
        lemma_lookup_absent(entries.drop_last(), name);
    }
}

proof fn lemma_lookup_present(entries: Seq<(Seq<char>, ConcurrencySafety)>, k: int, name: Seq<char>)
    requires
        0 <= k < entries.len(),
        entries[k].0 == name,
    ensures
        registered_safety(entries, name) is Some,
    decreases entries.len(),
{
    if k < entries.len() - 1 && entries.last().0 != name {
        assert(entries.drop_last()[k] == entries[k]);
        lemma_lookup_present(entries.drop_last(), k, name);
    }
}

proof fn lemma_lookup_distinct(entries: Seq<(Seq<char>, ConcurrencySafety)>, i: int)
    requires
        0 <= i < entries.len(),
        forall|a: int, b: int| 0 <= a < b < entries.len() ==> (#[trigger] entries[a]).0 != (#[trigger] entries[b]).0,
    ensures
        registered_safety(entries, entries[i].0) == Some(entries[i].1),
    decreases entries.len(),
{
    if i < entries.len() - 1 {
        assert(entries.drop_last()[i] == entries[i]);
        assert forall|a: int, b: int| 0 <= a < b < entries.drop_last().len() implies (
        #[trigger] entries.drop_last()[a]).0 != (#[trigger] entries.drop_last()[b]).0 by {
            assert(entries.drop_last()[a] == entries[a]);
            assert(entries.drop_last()[b] == entries[b]);
        }
        lemma_lookup_distinct(entries.drop_last(), i);
    }
}

proof fn lemma_lookup_update(
    entries: Seq<(Seq<char>, ConcurrencySafety)>,
    i: int,
    name: Seq<char>,
    s: ConcurrencySafety,
)
    requires
        0 <= i < entries.len(),
        entries[i].0 == name,
        forall|a: int, b: int| 0 <= a < b < entries.len() ==> (#[trigger] entries[a]).0 != (#[trigger] entries[b]).0,
    ensures
        forall|n: Seq<char>| #[trigger] registered_safety(entries.update(i, (name, s)), n) == if n == name {
            Some(s)
        } else {
            registered_safety(entries, n)
        },
    decreases entries.len(),
{
    let u = entries.update(i, (name, s));
    if i == entries.len() - 1 {
        assert(u.drop_last() =~= entries.drop_last());
        assert(u.last() == (name, s));
        assert forall|n: Seq<char>| #[trigger] registered_safety(u, n) == if n == name {
            Some(s)
        } else {
            registered_safety(entries, n)
        } by {
            if n != name {
                assert(registered_safety(u, n) == registered_safety(u.drop_last(), n));
                assert(registered_safety(entries, n) == registered_safety(entries.drop_last(), n));
            }
        }
    } else {
        let d = entries.drop_last();
        assert(u.drop_last() =~= d.update(i, (name, s)));
        assert(u.last() == entries.last());
        assert(d[i] == entries[i]);
        assert forall|a: int, b: int| 0 <= a < b < d.len() implies (#[trigger] d[a]).0 != (#[trigger] d[b]).0 by {
            assert(d[a] == entries[a]);
            assert(d[b] == entries[b]);
        }
        lemma_lookup_update(d, i, name, s);
        assert(entries.last().0 != name);
        assert forall|n: Seq<char>| #[trigger] registered_safety(u, n) == if n == name {
            Some(s)
        } else {
            registered_safety(entries, n)
        } by {
            if u.last().0 == n {
            } else {
                assert(registered_safety(u, n) == registered_safety(d.update(i, (name, s)), n));
            }
        }
    }
}

/// The default tool executor's bookkeeping: the registered tools and
/// whether concurrent-safe tools run in parallel. Running the tools happens
/// around it, following the plan it makes.
pub struct Executor {
    pub registry: ToolRegistry,
    pub parallel: bool,
}

impl Executor {
    /// An executor that runs concurrent-safe tools in parallel.
    pub fn parallel() -> (e: Self)
        ensures
            e.parallel,
            e.registry.entries().len() == 0,
            e.registry.names().len() == 0,
    {
        Executor { registry: ToolRegistry::new(), parallel: true }
    }

    /// An executor that runs every tool one after another.
    pub fn sequential() -> (e: Self)
        ensures
            !e.parallel,
            e.registry.entries().len() == 0,
            e.registry.names().len() == 0,
    {
        Executor { registry: ToolRegistry::new(), parallel: false }
    }

    /// Registers a tool under `name` with its declared concurrency.
    pub fn register(&mut self, name: String, safety: ConcurrencySafety)
        ensures
            final(self).parallel == old(self).parallel,
            forall|n: Seq<char>| #[trigger] final(self).registry.lookup(n) == if n == name@ {
                Some(safety)
            } else {
                old(self).registry.lookup(n)
            },
            final(self).registry.names() == if old(self).registry.lookup(name@) is Some {
                old(self).registry.names()
            } else {
                old(self).registry.names().push(name@)
            },
    {
        self.registry.register(name, safety);
    }

    /// Whether a tool is registered under `name`.
    pub fn has(&self, name: &str) -> (b: bool)
        ensures
            b == self.registry.lookup(name@) is Some,
    {
        self.registry.has(name)
    }

    /// What each call's tool declares, `None` for unknown tools.
    pub open spec fn call_safety(&self, calls: Seq<Seq<char>>) -> Seq<Option<ConcurrencySafety>> {
        calls.map_values(|n: Seq<char>| self.registry.lookup(n))
    }

    /// The plan for a turn's calls, named by their tools.
    pub fn plan(&self, call_names: &Vec<String>) -> (p: ExecutionPlan)
        ensures
            p.concurrent@ == indices_in(
                self.call_safety(call_names@.map_values(|s: String| s@)),
                self.parallel,
                true,
            ),
            p.sequential@ == indices_in(
                self.call_safety(call_names@.map_values(|s: String| s@)),
                self.parallel,
                false,
            ),
    {
        let mut safety: Vec<Option<ConcurrencySafety>> = Vec::new();
        let mut i: usize = 0;
        while i < call_names.len()
            invariant
                i <= call_names@.len(),
                safety@ == self.call_safety(call_names@.map_values(|s: String| s@)).take(i as int),
            decreases call_names@.len() - i,
        {
            safety.push(self.registry.safety_of(call_names[i].as_str()));
            assert(safety@ =~= self.call_safety(call_names@.map_values(|s: String| s@)).take(i + 1));
            i = i + 1;
        }
        assert(safety@ =~= self.call_safety(call_names@.map_values(|s: String| s@)));
        plan_execution(&safety, self.parallel)
    }

    /// The content reported for a call to an unknown tool.
    pub fn missing_tool_report(&self, name: &str) -> (r: String)
        ensures
            r@ == crate::error::tool_not_found_text(name@, self.registry.names()),
    {
        let names = self.registry.names_list();
        crate::error::tool_not_found_message(name, &names)
    }
}

impl Default for Executor {
    fn default() -> (e: Self)
        ensures
            e.parallel,
            e.registry.entries().len() == 0,
            e.registry.names().len() == 0,
    {
        Executor::parallel()
    }
}

/// The executor that runs every call at once: its registered tools.
pub struct ParallelExecutor {
    pub registry: ToolRegistry,
}

impl ParallelExecutor {
    pub fn new() -> (e: Self)
        ensures
            e.registry.entries().len() == 0,
            e.registry.names().len() == 0,
    {
        ParallelExecutor { registry: ToolRegistry::new() }
    }
}

impl Default for ParallelExecutor {
    fn default() -> (e: Self)
        ensures
            e.registry.entries().len() == 0,
            e.registry.names().len() == 0,
    {
        ParallelExecutor::new()
    }
}

/// The executor that runs calls one after another: its registered tools.
pub struct SequentialExecutor {
    pub registry: ToolRegistry,
}

impl SequentialExecutor {
    pub fn new() -> (e: Self)
        ensures
            e.registry.entries().len() == 0,
            e.registry.names().len() == 0,
    {
        SequentialExecutor { registry: ToolRegistry::new() }
    }
}

impl Default for SequentialExecutor {
    fn default() -> (e: Self)
        ensures
            e.registry.entries().len() == 0,
            e.registry.names().len() == 0,
    {
        SequentialExecutor::new()
    }
}

} // verus!
