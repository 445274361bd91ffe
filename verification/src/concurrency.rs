//! Concurrency limits: admission pools and which tools they apply to.
use crate::names::NameMap;
use std::sync::Arc;
use tokio::sync::Semaphore;
use vstd::prelude::*;

verus! {

/// `tokio::sync::Semaphore`, carried as it is.
#[verifier::external_type_specification]
#[verifier::external_body]
pub struct ExSemaphore(Semaphore);

/// The number of permits that a semaphore was made with.
pub uninterp spec fn semaphore_permits(semaphore: Semaphore) -> nat;

/// The largest number of permits that a semaphore can be made with.
pub open spec fn max_permits() -> int {
    usize::MAX as int / 8
}

/// `tokio::sync::Semaphore::new`: a semaphore with the given number of
/// permits. It panics beyond `Semaphore::MAX_PERMITS`, which `requires` leaves
/// out. A semaphore that is made is a new one: none of those that exist
/// already shares its permits.
#[verifier::external_body]
fn new_semaphore(permits: usize, _existing: &Vec<Arc<Semaphore>>) -> (semaphore: Semaphore)
    requires
        permits <= max_permits(),
    ensures
        semaphore_permits(semaphore) == permits,
        forall|i: int| 0 <= i < _existing@.len() ==> semaphore != *#[trigger] _existing@[i],
{
    Semaphore::new(permits)
}

/// The semaphores of a list.
spec fn semaphores(list: Seq<Arc<Semaphore>>) -> Seq<Semaphore> {
    Seq::new(list.len(), |i: int| *list[i])
}

/// What a pool is for.
#[verifier::ext_equal]
pub enum PoolUse {
    /// Tools that only read.
    Reads,
    /// Mutating tools that run one at a time.
    SerialMutators,
    /// Mutating tools that may overlap.
    ConcurrentMutators,
    /// The calls of one tool.
    Tool(Seq<char>),
}

/// A pool of permits. Two pools with the same semaphore share their permits.
#[derive(Debug)]
pub struct Pool {
    cap: usize,
    semaphore: Arc<Semaphore>,
}

impl Pool {
    /// How many permits the pool has.
    pub closed spec fn cap(&self) -> usize {
        self.cap
    }

    /// The pool's semaphore.
    pub closed spec fn semaphore(&self) -> Semaphore {
        *self.semaphore
    }

    #[verifier::type_invariant]
    closed spec fn wf(&self) -> bool {
        semaphore_permits(*self.semaphore) == self.cap
    }

    /// A pool whose semaphore is none of the list, and joins the list.
    fn new(cap: usize, list: &mut Vec<Arc<Semaphore>>) -> (r: Pool)
        requires
            cap <= max_permits(),
        ensures
            r.cap() == cap,
            !semaphores(old(list)@).contains(r.semaphore()),
            semaphores(final(list)@) == semaphores(old(list)@).push(r.semaphore()),
    {
        let semaphore: Arc<Semaphore> = Arc::new(new_semaphore(cap, list));
        list.push(semaphore.clone());
        assert(semaphores(list@) =~= semaphores(old(list)@).push(*semaphore));
        Pool { cap, semaphore }
    }

    /// How many permits the pool has.
    pub fn limit(&self) -> (r: usize)
        ensures
            r == self.cap(),
    {
        self.cap
    }

    /// The semaphore to wait on: it was made with as many permits as the pool
    /// has.
    pub fn to_semaphore(&self) -> (r: Arc<Semaphore>)
        ensures
            *r == self.semaphore(),
            semaphore_permits(*r) == self.cap(),
    {
        proof {
            use_type_invariant(self);
        }
        self.semaphore.clone()
    }
}

impl Clone for Pool {
    /// The same pool: its permits are shared.
    fn clone(&self) -> (r: Pool)
        ensures
            r == *self,
    {
        proof {
            use_type_invariant(self);
        }
        Pool { cap: self.cap, semaphore: self.semaphore.clone() }
    }
}

/// How one tool may overlap with itself and others.
#[derive(Clone, Copy, Debug, PartialEq, Eq, Structural)]
pub struct ToolConcurrency {
    enabled: bool,
    per_tool_cap: Option<usize>,
}

impl ToolConcurrency {
    /// Whether the tool is promoted.
    pub closed spec fn promotes(self) -> bool {
        self.enabled
    }

    /// The tool's own limit.
    pub closed spec fn limit(self) -> Option<usize> {
        self.per_tool_cap
    }

    /// Promotes a mutating tool into the concurrent pool.
    pub fn on() -> (r: ToolConcurrency)
        ensures
            r.promotes(),
            r.limit() is None,
    {
        ToolConcurrency { enabled: true, per_tool_cap: None }
    }

    /// Does not promote the tool.
    pub fn off() -> (r: ToolConcurrency)
        ensures
            !r.promotes(),
            r.limit() is None,
    {
        ToolConcurrency { enabled: false, per_tool_cap: None }
    }

    /// Limits how many calls of the tool may run at once.
    #[must_use]
    pub fn max(self, n: usize) -> (r: ToolConcurrency)
        requires
            n > 0,
        ensures
            r.promotes() == self.promotes(),
            r.limit() == Some(n),
    {
        ToolConcurrency { enabled: self.enabled, per_tool_cap: Some(n) }
    }

    /// Whether the tool is promoted.
    pub fn is_enabled(&self) -> (r: bool)
        ensures
            r == self.promotes(),
    {
        self.enabled
    }

    /// The tool's own limit.
    pub fn per_tool_cap(&self) -> (r: Option<usize>)
        ensures
            r == self.limit(),
    {
        self.per_tool_cap
    }
}

impl Default for ToolConcurrency {
    fn default() -> (r: ToolConcurrency)
        ensures
            !r.promotes(),
            r.limit() is None,
    {
        ToolConcurrency::off()
    }
}

/// The setting for a tool; the last counts where there are several.
pub open spec fn last_setting(settings: Seq<(String, ToolConcurrency)>, name: Seq<char>) -> Option<
    ToolConcurrency,
>
    decreases settings.len(),
{
    if settings.len() == 0 {
        None
    } else if settings.last().0@ == name {
        Some(settings.last().1)
    } else {
        last_setting(settings.drop_last(), name)
    }
}

/// Whether the settings promote a tool.
pub open spec fn promoted_by(settings: Seq<(String, ToolConcurrency)>, name: Seq<char>) -> bool {
    match last_setting(settings, name) {
        Some(setting) => setting.promotes(),
        None => false,
    }
}

/// The limit that the settings give a tool.
pub open spec fn limit_by(settings: Seq<(String, ToolConcurrency)>, name: Seq<char>) -> Option<
    usize,
> {
    match last_setting(settings, name) {
        Some(setting) => setting.limit(),
        None => None,
    }
}

/// Whether the limit that the settings give each tool fits a semaphore.
pub open spec fn limits_fit(settings: Seq<(String, ToolConcurrency)>) -> bool {
    forall|name: Seq<char>|
        (#[trigger] limit_by(settings, name)) is Some ==> limit_by(settings, name)->0
            <= max_permits()
}

/// The limit of each tool.
fn tool_limits(settings: &Vec<(String, ToolConcurrency)>) -> (r: NameMap<usize>)
    ensures
        forall|name: Seq<char>| #[trigger] r.at(name) == limit_by(settings@, name),
{
    let mut limits: NameMap<usize> = NameMap::new();
    let ghost all = settings@;
    let mut i: usize = 0;
    while i < settings.len()
        invariant
            i <= settings.len(),
            all == settings@,
            forall|name: Seq<char>|
                #[trigger] limits.at(name) == limit_by(all.take(i as int), name),
        decreases settings.len() - i,
    {
        let ghost before = limits;
        let name: &str = settings[i].0.as_str();
        proof {
            assert(all.take(i + 1).drop_last() =~= all.take(i as int));
            assert(all.take(i + 1).last() == all[i as int]);
        }
        match settings[i].1.per_tool_cap() {
            Some(cap) => {
                limits.insert(name, cap);
            },
            None => {
                limits.remove(name);
            },
        }
        assert forall|n: Seq<char>| #[trigger] limits.at(n) == limit_by(all.take(i + 1), n) by {
            assert(before.at(n) == limit_by(all.take(i as int), n));
        }
        i = i + 1;
    }
    assert(all.take(i as int) =~= all);
    limits
}

/// The tools that are promoted.
fn promoted_tools(settings: &Vec<(String, ToolConcurrency)>) -> (r: NameMap<()>)
    ensures
        forall|name: Seq<char>| (#[trigger] r.at(name)) is Some <==> promoted_by(settings@, name),
{
    let mut promoted: NameMap<()> = NameMap::new();
    let ghost all = settings@;
    let mut i: usize = 0;
    while i < settings.len()
        invariant
            i <= settings.len(),
            all == settings@,
            forall|name: Seq<char>|
                (#[trigger] promoted.at(name)) is Some <==> promoted_by(all.take(i as int), name),
        decreases settings.len() - i,
    {
        let ghost before = promoted;
        let name: &str = settings[i].0.as_str();
        proof {
            assert(all.take(i + 1).drop_last() =~= all.take(i as int));
            assert(all.take(i + 1).last() == all[i as int]);
        }
        if settings[i].1.is_enabled() {
            promoted.insert(name, ());
        } else {
            promoted.remove(name);
        }
        assert forall|n: Seq<char>| (#[trigger] promoted.at(n)) is Some <==> promoted_by(
            all.take(i + 1),
            n,
        ) by {
            assert(before.at(n) is Some <==> promoted_by(all.take(i as int), n));
        }
        i = i + 1;
    }
    assert(all.take(i as int) =~= all);
    promoted
}

/// Tells whether the limit that the settings give each tool fits a semaphore.
pub fn limits_in_range(settings: &Vec<(String, ToolConcurrency)>) -> (r: bool)
    ensures
        r == limits_fit(settings@),
{
    let limits: NameMap<usize> = tool_limits(settings);
    let most: usize = usize::MAX / 8;
    let mut i: usize = 0;
    while i < limits.len()
        invariant
            i <= limits.names().len(),
            most == max_permits(),
            forall|name: Seq<char>| #[trigger] limits.at(name) == limit_by(settings@, name),
            forall|k: int|
                0 <= k < i ==> limits.at(#[trigger] limits.names()[k]) is Some && limits.at(
                    limits.names()[k],
                )->0 <= max_permits(),
        decreases limits.names().len() - i,
    {
        let (name, limit): (&str, &usize) = limits.entry(i);
        if *limit > most {
            assert(limit_by(settings@, name@) == Some(*limit));
            return false;
        }
        i = i + 1;
    }
    assert forall|name: Seq<char>| (#[trigger] limit_by(settings@, name)) is Some implies limit_by(
        settings@,
        name,
    )->0 <= max_permits() by {
        assert(limits.at(name) == limit_by(settings@, name));
        limits.names_have_values(name);
        let k = choose|k: int| 0 <= k < limits.names().len() && limits.names()[k] == name;
        assert(limits.at(limits.names()[k]) is Some);
    }
    true
}

/// Makes a pool for each tool with a limit. Each has a semaphore of its own,
/// which is none of the list, and joins the list.
fn tool_pools(limits: &NameMap<usize>, list: &mut Vec<Arc<Semaphore>>) -> (r: NameMap<Pool>)
    requires
        forall|name: Seq<char>|
            (#[trigger] limits.at(name)) is Some ==> limits.at(name)->0 <= max_permits(),
    ensures
        forall|name: Seq<char>|
            match #[trigger] r.at(name) {
                Some(pool) => limits.at(name) == Some(pool.cap()),
                None => limits.at(name) is None,
            },
        separate_tools(r),
        forall|name: Seq<char>|
            (#[trigger] r.at(name)) is Some ==> !semaphores(old(list)@).contains(
                r.at(name)->0.semaphore(),
            ) && semaphores(final(list)@).contains(r.at(name)->0.semaphore()),
        forall|s: Semaphore|
            semaphores(old(list)@).contains(s) ==> #[trigger] semaphores(final(list)@).contains(s),
{
    let mut pools: NameMap<Pool> = NameMap::new();
    let ghost names = limits.names();
    let ghost given = semaphores(list@);
    let mut i: usize = 0;
    while i < limits.len()
        invariant
            i <= limits.names().len(),
            names == limits.names(),
            given == semaphores(old(list)@),
            forall|name: Seq<char>|
                (#[trigger] limits.at(name)) is Some ==> limits.at(name)->0 <= max_permits(),
            forall|name: Seq<char>|
                match #[trigger] pools.at(name) {
                    Some(pool) => names.take(i as int).contains(name) && limits.at(name) == Some(
                        pool.cap(),
                    ),
                    None => !names.take(i as int).contains(name),
                },
            separate_tools(pools),
            forall|name: Seq<char>|
                (#[trigger] pools.at(name)) is Some ==> !given.contains(
                    pools.at(name)->0.semaphore(),
                ) && semaphores(list@).contains(pools.at(name)->0.semaphore()),
            forall|s: Semaphore|
                given.contains(s) ==> #[trigger] semaphores(list@).contains(s),
        decreases limits.names().len() - i,
    {
        let ghost before = pools;
        let ghost listed = semaphores(list@);
        let (name, limit): (&str, &usize) = limits.entry(i);
        let pool: Pool = Pool::new(*limit, list);
        let ghost made = pool;
        pools.insert(name, pool);
        proof {
            assert forall|s: Semaphore| #[trigger] semaphores(list@).contains(s) == (
            listed.contains(s) || s == made.semaphore()) by {
                joined_one(listed, made.semaphore(), s);
            }
            assert forall|n: Seq<char>|
                match #[trigger] pools.at(n) {
                    Some(pool) => names.take(i + 1).contains(n) && limits.at(n) == Some(pool.cap()),
                    None => !names.take(i + 1).contains(n),
                } by {
                taken_one_more(names, i as int, n);
                assert(match before.at(n) {
                    Some(pool) => names.take(i as int).contains(n) && limits.at(n) == Some(
                        pool.cap(),
                    ),
                    None => !names.take(i as int).contains(n),
                });
            }
            assert forall|n: Seq<char>| (#[trigger] pools.at(n)) is Some implies !given.contains(
                pools.at(n)->0.semaphore(),
            ) && semaphores(list@).contains(pools.at(n)->0.semaphore()) by {
                if n != name@ {
                    assert(pools.at(n) == before.at(n));
                }
            }
            assert forall|a: Seq<char>, b: Seq<char>|
                a != b && (#[trigger] pools.at(a)) is Some && (#[trigger] pools.at(
                    b,
                )) is Some implies pools.at(a)->0.semaphore() != pools.at(b)->0.semaphore() by {
                if a != name@ {
                    assert(pools.at(a) == before.at(a));
                }
                if b != name@ {
                    assert(pools.at(b) == before.at(b));
                }
            }
        }
        i = i + 1;
    }
    proof {
        assert(names.take(i as int) =~= names);
        assert forall|name: Seq<char>|
            match #[trigger] pools.at(name) {
                Some(pool) => limits.at(name) == Some(pool.cap()),
                None => limits.at(name) is None,
            } by {
            limits.names_have_values(name);
        }
    }
    pools
}

/// Whether no two tools share a semaphore.
spec fn separate_tools(pools: NameMap<Pool>) -> bool {
    forall|a: Seq<char>, b: Seq<char>|
        a != b && (#[trigger] pools.at(a)) is Some && (#[trigger] pools.at(b)) is Some
            ==> pools.at(a)->0.semaphore() != pools.at(b)->0.semaphore()
}

/// Whether no two uses share a semaphore.
pub open spec fn separate(config: ConcurrencyConfig) -> bool {
    forall|a: PoolUse, b: PoolUse|
        a != b && (#[trigger] config.pool(a)) is Some && (#[trigger] config.pool(b)) is Some
            ==> config.pool(a)->0.semaphore() != config.pool(b)->0.semaphore()
}

/// Whether the semaphore of every pool is among those in use.
pub open spec fn covered(config: ConcurrencyConfig) -> bool {
    forall|purpose: PoolUse|
        (#[trigger] config.pool(purpose)) is Some ==> config.in_use().contains(
            config.pool(purpose)->0.semaphore(),
        )
}

/// Whether limits are those of the outermost agent under given settings: so
/// many reads at once, so many promoted mutators at once, one other mutator
/// at a time, and a pool for each tool whose last setting has a limit. Every
/// use has a semaphore of its own.
pub open spec fn configured(
    config: ConcurrencyConfig,
    reads: usize,
    mutations: usize,
    settings: Seq<(String, ToolConcurrency)>,
) -> bool {
    &&& config.read_pool().cap() == reads
    &&& config.serial_pool().cap() == 1
    &&& config.concurrent_pool().cap() == mutations
    &&& forall|name: Seq<char>|
        #[trigger] config.promotes(name) == promoted_by(settings, name)
    &&& forall|name: Seq<char>|
        match #[trigger] config.own_pool(name) {
            Some(pool) => limit_by(settings, name) == Some(pool.cap()),
            None => limit_by(settings, name) is None,
        }
    &&& separate(config)
    &&& covered(config)
}

/// The admission pools of one nesting level, and which tools go where.
#[derive(Debug)]
pub struct ConcurrencyConfig {
    promoted: Arc<NameMap<()>>,
    per_tool_caps: Arc<NameMap<usize>>,
    per_tool: Arc<NameMap<Pool>>,
    read: Pool,
    serial_mut: Pool,
    concurrent_mut: Pool,
    /// The semaphores of this level and of all levels above.
    line: Arc<Vec<Arc<Semaphore>>>,
}

impl ConcurrencyConfig {
    /// Whether a tool is promoted.
    pub closed spec fn promotes(&self, name: Seq<char>) -> bool {
        self.promoted.at(name) is Some
    }

    /// The pool of a tool's own, where it has one.
    pub closed spec fn own_pool(&self, name: Seq<char>) -> Option<Pool> {
        self.per_tool.at(name)
    }

    /// The pool of tools that only read.
    pub closed spec fn read_pool(&self) -> Pool {
        self.read
    }

    /// The pool of mutating tools that run one at a time.
    pub closed spec fn serial_pool(&self) -> Pool {
        self.serial_mut
    }

    /// The pool of mutating tools that may overlap.
    pub closed spec fn concurrent_pool(&self) -> Pool {
        self.concurrent_mut
    }

    /// The pool for a use, where there is one.
    pub open spec fn pool(&self, purpose: PoolUse) -> Option<Pool> {
        match purpose {
            PoolUse::Reads => Some(self.read_pool()),
            PoolUse::SerialMutators => Some(self.serial_pool()),
            PoolUse::ConcurrentMutators => Some(self.concurrent_pool()),
            PoolUse::Tool(name) => self.own_pool(name),
        }
    }

    /// The semaphores of this level and of all levels above.
    pub closed spec fn in_use(&self) -> Seq<Semaphore> {
        semaphores(self.line@)
    }

    /// Every limit fits a semaphore, tools have pools with their limits, and
    /// no two uses share a semaphore.
    #[verifier::type_invariant]
    closed spec fn wf(&self) -> bool {
        &&& self.concurrent_mut.cap() <= max_permits()
        &&& forall|name: Seq<char>|
            (#[trigger] self.per_tool_caps.at(name)) is Some ==> self.per_tool_caps.at(name)->0
                <= max_permits()
        &&& forall|name: Seq<char>|
            match #[trigger] self.per_tool.at(name) {
                Some(pool) => self.per_tool_caps.at(name) == Some(pool.cap()),
                None => self.per_tool_caps.at(name) is None,
            }
        &&& separate(*self)
        &&& covered(*self)
    }

    /// The pools of the outermost agent: so many reads at once, so many
    /// promoted mutators at once, one other mutator at a time, and a pool for
    /// each tool with a limit of its own. The last setting for a tool counts.
    pub fn new(
        max_concurrent_reads: usize,
        max_concurrent_mutations: usize,
        tool_settings: Vec<(String, ToolConcurrency)>,
    ) -> (r: ConcurrencyConfig)
        requires
            0 < max_concurrent_reads <= max_permits(),
            0 < max_concurrent_mutations <= max_permits(),
            limits_fit(tool_settings@),
        ensures
            configured(
                r,
                max_concurrent_reads,
                max_concurrent_mutations,
                tool_settings@,
            ),
    {
        let promoted: NameMap<()> = promoted_tools(&tool_settings);
        let per_tool_caps: NameMap<usize> = tool_limits(&tool_settings);
        let mut line: Vec<Arc<Semaphore>> = Vec::new();
        let read: Pool = Pool::new(max_concurrent_reads, &mut line);
        let ghost first = semaphores(line@);
        let serial_mut: Pool = Pool::new(1, &mut line);
        let ghost second = semaphores(line@);
        let concurrent_mut: Pool = Pool::new(max_concurrent_mutations, &mut line);
        let ghost third = semaphores(line@);
        let per_tool: NameMap<Pool> = tool_pools(&per_tool_caps, &mut line);
        proof {
            assert(first.last() == read.semaphore());
            joined_one(first, serial_mut.semaphore(), read.semaphore());
            joined_one(first, serial_mut.semaphore(), serial_mut.semaphore());
            joined_one(second, concurrent_mut.semaphore(), read.semaphore());
            joined_one(second, concurrent_mut.semaphore(), serial_mut.semaphore());
            joined_one(second, concurrent_mut.semaphore(), concurrent_mut.semaphore());
        }
        ConcurrencyConfig {
            promoted: Arc::new(promoted),
            per_tool_caps: Arc::new(per_tool_caps),
            per_tool: Arc::new(per_tool),
            read,
            serial_mut,
            concurrent_mut,
            line: Arc::new(line),
        }
    }

    /// The pools of an agent one nesting level below. The read pool and the
    /// serial pool are the same ones; the concurrent pool and the tools' own
    /// pools are made anew, with the same limits, so that a child never waits
    /// for a permit that an agent above it holds while it waits for the child.
    #[must_use]
    pub fn fork(&self) -> (r: ConcurrencyConfig)
        ensures
            forked(*self, r),
    {
        proof {
            use_type_invariant(self);
        }
        let mut line: Vec<Arc<Semaphore>> = Vec::new();
        let mut i: usize = 0;
        while i < self.line.len()
            invariant
                i <= self.line.len(),
                line.len() == i,
                forall|k: int| 0 <= k < i ==> #[trigger] line@[k] == self.line@[k],
            decreases self.line.len() - i,
        {
            line.push(self.line[i].clone());
            i = i + 1;
        }
        assert(semaphores(line@) =~= self.in_use());
        let concurrent_mut: Pool = Pool::new(self.concurrent_mut.limit(), &mut line);
        let ghost listed = semaphores(line@);
        let per_tool: NameMap<Pool> = tool_pools(&self.per_tool_caps, &mut line);
        proof {
            assert forall|s: Semaphore| #[trigger] listed.contains(s) == (self.in_use().contains(s)
                || s == concurrent_mut.semaphore()) by {
                joined_one(self.in_use(), concurrent_mut.semaphore(), s);
            }
            assert(self.pool(PoolUse::Reads) is Some);
            assert(self.pool(PoolUse::SerialMutators) is Some);
            assert(self.pool(PoolUse::ConcurrentMutators) is Some);
            assert forall|name: Seq<char>| (#[trigger] self.own_pool(name)) is Some
                implies self.in_use().contains(self.own_pool(name)->0.semaphore()) by {
                assert(self.pool(PoolUse::Tool(name)) is Some);
            }
        }
        ConcurrencyConfig {
            promoted: self.promoted.clone(),
            per_tool_caps: self.per_tool_caps.clone(),
            per_tool: Arc::new(per_tool),
            read: self.read.clone(),
            serial_mut: self.serial_mut.clone(),
            concurrent_mut,
            line: Arc::new(line),
        }
    }

    /// Whether a tool is promoted.
    pub fn is_promoted(&self, name: &str) -> (r: bool)
        ensures
            r == self.promotes(name@),
    {
        self.promoted.contains(name)
    }

    /// The pool of a tool's own, where it has one.
    pub fn tool_pool(&self, name: &str) -> (r: Option<&Pool>)
        ensures
            match self.own_pool(name@) {
                Some(pool) => r == Some(&pool),
                None => r is None,
            },
    {
        self.per_tool.get(name)
    }

    /// The pool of tools that only read.
    pub fn read(&self) -> (r: &Pool)
        ensures
            *r == self.read_pool(),
    {
        &self.read
    }

    /// The pool of mutating tools that run one at a time.
    pub fn serial_mut(&self) -> (r: &Pool)
        ensures
            *r == self.serial_pool(),
    {
        &self.serial_mut
    }

    /// The pool of mutating tools that may overlap.
    pub fn concurrent_mut(&self) -> (r: &Pool)
        ensures
            *r == self.concurrent_pool(),
    {
        &self.concurrent_mut
    }
}

impl Clone for ConcurrencyConfig {
    /// The same limits: every pool is shared.
    fn clone(&self) -> (r: ConcurrencyConfig)
        ensures
            r == *self,
    {
        proof {
            use_type_invariant(self);
        }
        ConcurrencyConfig {
            promoted: self.promoted.clone(),
            per_tool_caps: self.per_tool_caps.clone(),
            per_tool: self.per_tool.clone(),
            read: self.read.clone(),
            serial_mut: self.serial_mut.clone(),
            concurrent_mut: self.concurrent_mut.clone(),
            line: self.line.clone(),
        }
    }
}

impl Default for ConcurrencyConfig {
    fn default() -> (r: ConcurrencyConfig)
        ensures
            configured(r, 20, 10, Seq::empty()),
    {
        let settings: Vec<(String, ToolConcurrency)> = Vec::new();
        assert(settings@ =~= Seq::empty());
        ConcurrencyConfig::new(20, 10, settings)
    }
}

/// Whether the second limits are those one nesting level below the first: the
/// read pool and the serial pool are shared; the others have the same caps and
/// semaphores that no level above has, the first one's among them; and the
/// same tools are promoted.
pub open spec fn forked(parent: ConcurrencyConfig, child: ConcurrencyConfig) -> bool {
    &&& child.read_pool() == parent.read_pool()
    &&& child.serial_pool() == parent.serial_pool()
    &&& child.concurrent_pool().cap() == parent.concurrent_pool().cap()
    &&& child.concurrent_pool().semaphore() != parent.concurrent_pool().semaphore()
    &&& !parent.in_use().contains(child.concurrent_pool().semaphore())
    &&& forall|name: Seq<char>| #[trigger] child.promotes(name) == parent.promotes(name)
    &&& forall|name: Seq<char>|
        match #[trigger] child.own_pool(name) {
            Some(pool) => parent.own_pool(name) is Some && pool.cap()
                == parent.own_pool(name)->0.cap() && pool.semaphore()
                != parent.own_pool(name)->0.semaphore() && !parent.in_use().contains(
                pool.semaphore(),
            ),
            None => parent.own_pool(name) is None,
        }
    &&& forall|s: Semaphore|
        parent.in_use().contains(s) ==> #[trigger] child.in_use().contains(s)
    &&& separate(child)
    &&& covered(child)
}

/// Whether the limits are those of agents each one nesting level below the
/// one before.
pub open spec fn nested(line: Seq<ConcurrencyConfig>) -> bool {
    &&& line.len() > 0
    &&& separate(line[0])
    &&& covered(line[0])
    &&& forall|i: int| 0 < i < line.len() ==> forked(line[i - 1], #[trigger] line[i])
}

/// No two uses share a semaphore, at the outermost level and below: a permit
/// held for one use is never missing for another.
pub proof fn uses_have_pools_of_their_own(
    line: Seq<ConcurrencyConfig>,
    level: int,
    a: PoolUse,
    b: PoolUse,
)
    requires
        nested(line),
        0 <= level < line.len(),
        a != b,
        line[level].pool(a) is Some,
        line[level].pool(b) is Some,
    ensures
        line[level].pool(a)->0.semaphore() != line[level].pool(b)->0.semaphore(),
{
    if level > 0 {
        assert(forked(line[level - 1], line[level]));
    }
}

/// A child never waits for a permit of the pools that its parent may hold
/// while it waits for the child: neither its concurrent pool nor any tool's
/// own pool has a semaphore of the parent's. What serializes mutators and
/// throttles reads stays one.
pub proof fn fork_renews_what_could_block(
    parent: ConcurrencyConfig,
    child: ConcurrencyConfig,
    name: Seq<char>,
    purpose: PoolUse,
)
    requires
        covered(parent),
        forked(parent, child),
        parent.pool(purpose) is Some,
    ensures
        child.concurrent_pool().semaphore() != parent.pool(purpose)->0.semaphore(),
        child.own_pool(name) is Some ==> child.own_pool(name)->0.semaphore() != parent.pool(
            purpose,
        )->0.semaphore(),
        child.read_pool().semaphore() == parent.read_pool().semaphore(),
        child.serial_pool().semaphore() == parent.serial_pool().semaphore(),
{
}

/// The same holds of agents any number of levels apart: no agent waits for a
/// permit of a concurrent pool or of a tool's own pool that an agent above it
/// holds, and all share one read pool and one serial pool.
pub proof fn nesting_renews_what_could_block(
    line: Seq<ConcurrencyConfig>,
    above: int,
    below: int,
    name: Seq<char>,
    purpose: PoolUse,
)
    requires
        nested(line),
        0 <= above < below < line.len(),
        line[above].pool(purpose) is Some,
    ensures
        line[below].concurrent_pool().semaphore() != line[above].pool(purpose)->0.semaphore(),
        line[below].own_pool(name) is Some ==> line[below].own_pool(name)->0.semaphore()
            != line[above].pool(purpose)->0.semaphore(),
        line[below].read_pool() == line[above].read_pool(),
        line[below].serial_pool() == line[above].serial_pool(),
{
    levels_keep_in_use(line, above, below - 1);
    assert(forked(line[below - 1], line[below]));
}

proof fn levels_keep_in_use(line: Seq<ConcurrencyConfig>, above: int, below: int)
    requires
        nested(line),
        0 <= above <= below < line.len(),
    ensures
        covered(line[above]),
        forall|s: Semaphore|
            line[above].in_use().contains(s) ==> #[trigger] line[below].in_use().contains(s),
        line[below].read_pool() == line[above].read_pool(),
        line[below].serial_pool() == line[above].serial_pool(),
    decreases below - above,
{
    if above < below {
        levels_keep_in_use(line, above, below - 1);
        assert(forked(line[below - 1], line[below]));
    } else if above > 0 {
        assert(forked(line[above - 1], line[above]));
    }
}

proof fn joined_one(list: Seq<Semaphore>, more: Semaphore, s: Semaphore)
    ensures
        list.push(more).contains(s) == (list.contains(s) || s == more),
{
    let joined = list.push(more);
    if list.contains(s) {
        let k = choose|k: int| 0 <= k < list.len() && list[k] == s;
        assert(joined[k] == s);
    }
    if s == more {
        assert(joined[list.len() as int] == s);
    }
    if joined.contains(s) {
        let k = choose|k: int| 0 <= k < joined.len() && joined[k] == s;
        if k < list.len() {
            assert(list[k] == s);
        }
    }
}

proof fn taken_one_more(names: Seq<Seq<char>>, i: int, name: Seq<char>)
    requires
        0 <= i < names.len(),
    ensures
        names.take(i + 1).contains(name) == (names.take(i).contains(name) || names[i] == name),
{
    let more = names.take(i + 1);
    let less = names.take(i);
    if less.contains(name) {
        let k = choose|k: int| 0 <= k < less.len() && less[k] == name;
        assert(more[k] == name);
    }
    if names[i] == name {
        assert(more[i] == name);
    }
    if more.contains(name) {
        let k = choose|k: int| 0 <= k < more.len() && more[k] == name;
        if k < i {
            assert(less[k] == name);
        }
    }
}

/// The last setting for a tool counts, and a setting for one tool says nothing
/// of another: a tool is promoted and limited exactly as its last setting says.
pub proof fn the_last_setting_counts(
    settings: Seq<(String, ToolConcurrency)>,
    name: String,
    setting: ToolConcurrency,
    other: Seq<char>,
)
    ensures
        promoted_by(settings.push((name, setting)), name@) == setting.promotes(),
        limit_by(settings.push((name, setting)), name@) == setting.limit(),
        other != name@ ==> promoted_by(settings.push((name, setting)), other) == promoted_by(
            settings,
            other,
        ) && limit_by(settings.push((name, setting)), other) == limit_by(settings, other),
        !promoted_by(Seq::<(String, ToolConcurrency)>::empty(), other),
        limit_by(Seq::<(String, ToolConcurrency)>::empty(), other) is None,
{
    assert(settings.push((name, setting)).drop_last() =~= settings);
}

/// Limits are as they were set: a tool has a pool of its own exactly where its
/// setting limits it, with as many permits, and is promoted exactly where its
/// setting says so; a level below has the same limits and promotes the same
/// tools.
pub proof fn limits_are_as_set(
    config: ConcurrencyConfig,
    child: ConcurrencyConfig,
    reads: usize,
    mutations: usize,
    settings: Seq<(String, ToolConcurrency)>,
    name: Seq<char>,
)
    requires
        configured(config, reads, mutations, settings),
        forked(config, child),
    ensures
        config.read_pool().cap() == reads && child.read_pool().cap() == reads,
        config.concurrent_pool().cap() == mutations && child.concurrent_pool().cap() == mutations,
        config.serial_pool().cap() == 1 && child.serial_pool().cap() == 1,
        config.promotes(name) == promoted_by(settings, name),
        child.promotes(name) == promoted_by(settings, name),
        match limit_by(settings, name) {
            Some(limit) => config.own_pool(name) is Some && config.own_pool(name)->0.cap() == limit
                && child.own_pool(name) is Some && child.own_pool(name)->0.cap() == limit,
            None => config.own_pool(name) is None && child.own_pool(name) is None,
        },
{
    assert(config.own_pool(name) is Some ==> limit_by(settings, name) == Some(
        config.own_pool(name)->0.cap(),
    ));
    assert(child.own_pool(name) is Some ==> config.own_pool(name) is Some);
}

} // verus!
