//! The dispatcher's decision core: registration, shard partition and
//! lifecycle.
//!
//! The engine proper owns sockets and worker threads; everything it has
//! to decide — which worker owns a symbol, whether a registration is the
//! first for its symbol and must subscribe, how the symbols are
//! partitioned at start-up, and what each lifecycle transition may do —
//! is decided here and proved. The surrounding process performs the
//! transport work and follows these answers verbatim.

use vstd::prelude::*;

use crate::shard::{shard_index, shard_key};
use crate::types::{symbol_eq, SymbolType};

verus! {

/// The lifecycle of the engine: configured, running, stopped.
#[derive(Copy, Clone, Debug, PartialEq, Eq, Structural)]
pub enum EngineState {
    Configured,
    Running,
    Stopped,
}

/// Why the engine refused a call.
#[derive(Copy, Clone, Debug, PartialEq, Eq, Structural)]
pub enum EngineError {
    /// Registration is only possible before `init`.
    NotConfigured,
    /// `init` ran already.
    AlreadyStarted,
    /// Ticks are only routed while the engine runs.
    NotRunning,
}

impl EngineError {
    /// A short description, in place of a `Display` impl.
    pub fn describe(&self) -> String {
        match self {
            EngineError::NotConfigured => "strategies can only be added before init".to_owned(),
            EngineError::AlreadyStarted => "init ran already".to_owned(),
            EngineError::NotRunning => "the engine is not running".to_owned(),
        }
    }
}

/// First index of `key` in `s`, or -1 when absent.
pub open spec fn sym_index(s: Seq<Seq<u8>>, key: Seq<u8>) -> int
    decreases s.len(),
{
    if s.len() == 0 {
        -1
    } else if s[0] == key {
        0
    } else {
        let r = sym_index(s.subrange(1, s.len() as int), key);
        if r == -1 {
            -1
        } else {
            r + 1
        }
    }
}

/// `sym_index` returns -1 or a position holding the key.
pub proof fn lemma_sym_index_spec(s: Seq<Seq<u8>>, key: Seq<u8>)
    ensures
        sym_index(s, key) == -1 ==> (forall|i: int| 0 <= i < s.len() ==> s[i] != key),
        sym_index(s, key) != -1 ==> 0 <= sym_index(s, key) < s.len() && s[sym_index(s, key)]
            == key,
    decreases s.len(),
{
    if s.len() > 0 {
        lemma_sym_index_spec(s.subrange(1, s.len() as int), key);
        assert(forall|i: int| 1 <= i < s.len() ==> s.subrange(1, s.len() as int)[i - 1] == s[i]);
    }
}

/// When the first `i` entries miss the key and entry `i` holds it, the
/// index is `i`.
proof fn lemma_sym_index_at(s: Seq<Seq<u8>>, key: Seq<u8>, i: int)
    requires
        0 <= i < s.len(),
        forall|j: int| 0 <= j < i ==> s[j] != key,
        s[i] == key,
    ensures
        sym_index(s, key) == i,
    decreases i,
{
    if i > 0 {
        lemma_sym_index_at(s.subrange(1, s.len() as int), key, i - 1);
    }
}

/// What one registration decided.
#[derive(Copy, Clone, Debug, PartialEq, Eq, Structural)]
pub struct Registration {
    /// First strategy for this symbol: the caller must subscribe the
    /// tick socket to the symbol's bytes, exactly once.
    pub first_for_symbol: bool,
    /// Index of the symbol in registration order.
    pub symbol_index: usize,
    /// Position of the strategy within the symbol's list.
    pub slot: usize,
    /// The worker that will own this symbol.
    pub worker: usize,
}

/// The dispatcher's bookkeeping: worker count, lifecycle state, and the
/// registered symbols with how many strategies each carries.
pub struct EngineCore {
    num_workers: usize,
    state: EngineState,
    symbols: Vec<SymbolType>,
    strategy_counts: Vec<usize>,
}

impl EngineCore {
    /// The registered symbols' bytes, in registration order.
    pub closed spec fn spec_symbols(&self) -> Seq<Seq<u8>> {
        Seq::new(self.symbols@.len(), |i: int| self.symbols@[i]@)
    }

    /// Strategies per symbol, in registration order.
    pub closed spec fn spec_counts(&self) -> Seq<usize> {
        self.strategy_counts@
    }

    /// The lifecycle state.
    pub closed spec fn spec_state(&self) -> EngineState {
        self.state
    }

    /// The worker count.
    pub closed spec fn spec_workers(&self) -> int {
        self.num_workers as int
    }

    /// Strategies registered for `key`; 0 when the symbol is unknown.
    pub open spec fn spec_count_of(&self, key: Seq<u8>) -> int {
        if sym_index(self.spec_symbols(), key) == -1 {
            0
        } else {
            self.spec_counts()[sym_index(self.spec_symbols(), key)] as int
        }
    }

    /// At least one worker; symbols unique; one positive strategy count
    /// per symbol.
    pub closed spec fn wf(&self) -> bool {
        &&& self.num_workers >= 1
        &&& self.strategy_counts@.len() == self.symbols@.len()
        &&& forall|i: int, j: int|
            0 <= i < j < self.spec_symbols().len() ==> self.spec_symbols()[i]
                != self.spec_symbols()[j]
        &&& forall|i: int| 0 <= i < self.spec_counts().len() ==> self.spec_counts()[i] >= 1
    }

    /// `e` with its lifecycle state set to `Stopped` and nothing else
    /// touched.
    pub closed spec fn stopped(e: EngineCore) -> EngineCore {
        EngineCore {
            num_workers: e.num_workers,
            state: EngineState::Stopped,
            symbols: e.symbols,
            strategy_counts: e.strategy_counts,
        }
    }

    /// A configured engine with `num_workers` workers and no strategies.
    pub fn new(num_workers: usize) -> (e: EngineCore)
        requires
            num_workers >= 1,
        ensures
            e.wf(),
            e.spec_state() == EngineState::Configured,
            e.spec_workers() == num_workers,
            e.spec_symbols() =~= Seq::<Seq<u8>>::empty(),
    {
        EngineCore {
            num_workers,
            state: EngineState::Configured,
            symbols: Vec::new(),
            strategy_counts: Vec::new(),
        }
    }

    /// The lifecycle state.
    pub fn current_state(&self) -> (s: EngineState)
        ensures
            s == self.spec_state(),
    {
        self.state
    }

    /// The worker count.
    pub fn workers(&self) -> (w: usize)
        ensures
            w == self.spec_workers(),
    {
        self.num_workers
    }

    /// How many symbols are registered.
    pub fn symbol_count(&self) -> (n: usize)
        ensures
            n == self.spec_symbols().len(),
    {
        self.symbols.len()
    }

    /// Registers one more strategy for `symbol`. Only a configured
    /// engine accepts it; the answer says whether the caller must
    /// subscribe (first registration of the symbol), where the strategy
    /// lives, and which worker will own the symbol.
    pub fn add_strategy(&mut self, symbol: &SymbolType) -> (r: Result<Registration, EngineError>)
        requires
            old(self).wf(),
            old(self).spec_count_of(symbol@) < usize::MAX,
        ensures
            final(self).wf(),
            final(self).spec_state() == old(self).spec_state(),
            final(self).spec_workers() == old(self).spec_workers(),
            old(self).spec_state() != EngineState::Configured ==> (r == Err::<
                Registration,
                EngineError,
            >(EngineError::NotConfigured) && *final(self) == *old(self)),
            old(self).spec_state() == EngineState::Configured ==> (r matches Ok(reg) && {
                let idx = sym_index(old(self).spec_symbols(), symbol@);
                &&& reg.first_for_symbol == (idx == -1)
                &&& reg.worker == shard_key(symbol@) % old(self).spec_workers()
                &&& reg.worker < old(self).spec_workers()
                &&& if idx == -1 {
                    &&& reg.symbol_index == old(self).spec_symbols().len()
                    &&& reg.slot == 0
                    &&& final(self).spec_symbols() =~= old(self).spec_symbols().push(symbol@)
                    &&& final(self).spec_counts() =~= old(self).spec_counts().push(1usize)
                } else {
                    &&& reg.symbol_index == idx
                    &&& reg.slot == old(self).spec_counts()[idx]
                    &&& final(self).spec_symbols() =~= old(self).spec_symbols()
                    &&& final(self).spec_counts() =~= old(self).spec_counts().update(
                        idx,
                        (old(self).spec_counts()[idx] + 1) as usize,
                    )
                }
            }),
    {
        if !matches!(self.state, EngineState::Configured) {
            return Err(EngineError::NotConfigured);
        }
        let worker = shard_index(symbol, self.num_workers);
        let n = self.symbols.len();
        let mut i: usize = 0;
        while i < n
            invariant
                *self == *old(self),
                self.wf(),
                self.spec_state() == EngineState::Configured,
                old(self).spec_count_of(symbol@) < usize::MAX,
                worker == shard_key(symbol@) % self.spec_workers(),
                worker < self.spec_workers(),
                n == self.spec_symbols().len(),
                i <= n,
                forall|j: int| 0 <= j < i ==> self.spec_symbols()[j] != symbol@,
            decreases n - i,
        {
            if symbol_eq(&self.symbols[i], symbol) {
                proof {
                    lemma_sym_index_at(self.spec_symbols(), symbol@, i as int);
                }
                let slot = self.strategy_counts[i];
                let ghost pre = *self;
                self.strategy_counts.set(i, slot + 1);
                proof {
                    assert(self.spec_symbols() =~~= pre.spec_symbols());
                    assert(self.spec_counts() =~= pre.spec_counts().update(
                        i as int,
                        (slot + 1) as usize,
                    ));
                }
                return Ok(
                    Registration { first_for_symbol: false, symbol_index: i, slot, worker },
                );
            }
            i = i + 1;
        }
        proof {
            lemma_sym_index_spec(self.spec_symbols(), symbol@);
            assert(sym_index(self.spec_symbols(), symbol@) == -1);
        }
        let ghost old_syms = self.spec_symbols();
        let ghost old_counts = self.spec_counts();
        self.symbols.push(*symbol);
        self.strategy_counts.push(1);
        proof {
            assert(self.spec_symbols() =~~= old_syms.push(symbol@));
            assert(self.spec_counts() =~= old_counts.push(1usize));
        }
        Ok(Registration { first_for_symbol: true, symbol_index: n, slot: 0, worker })
    }

    /// Moves a configured engine to running and partitions the symbols
    /// over the workers: worker `w` receives, in increasing registration
    /// order, exactly the indices of the symbols whose shard is `w`.
    /// A second `init` is refused.
    pub fn init(&mut self) -> (r: Result<Vec<Vec<usize>>, EngineError>)
        requires
            old(self).wf(),
        ensures
            final(self).wf(),
            final(self).spec_workers() == old(self).spec_workers(),
            final(self).spec_symbols() == old(self).spec_symbols(),
            final(self).spec_counts() == old(self).spec_counts(),
            old(self).spec_state() != EngineState::Configured ==> (r == Err::<
                Vec<Vec<usize>>,
                EngineError,
            >(EngineError::AlreadyStarted) && *final(self) == *old(self)),
            old(self).spec_state() == EngineState::Configured ==> (r matches Ok(part) && {
                let syms = old(self).spec_symbols();
                let w_count = old(self).spec_workers();
                &&& final(self).spec_state() == EngineState::Running
                &&& part@.len() == w_count
                &&& forall|w: int, k: int|
                    0 <= w < w_count && 0 <= k < part@[w]@.len() ==> #[trigger] part@[w]@[k]
                        < syms.len() && shard_key(syms[part@[w]@[k] as int]) % w_count == w
                &&& forall|w: int, k1: int, k2: int|
                    0 <= w < w_count && 0 <= k1 < k2 < part@[w]@.len() ==> part@[w]@[k1]
                        < part@[w]@[k2]
                &&& forall|j: int|
                    0 <= j < syms.len() ==> #[trigger] part@[shard_key(syms[j]) % w_count]@.contains(
                        j as usize,
                    )
            }),
    {
        if !matches!(self.state, EngineState::Configured) {
            return Err(EngineError::AlreadyStarted);
        }
        let w_count = self.num_workers;
        let s_count = self.symbols.len();
        let mut part: Vec<Vec<usize>> = Vec::new();
        let mut w: usize = 0;
        while w < w_count
            invariant
                *self == *old(self),
                self.wf(),
                self.spec_state() == EngineState::Configured,
                w_count == self.spec_workers(),
                s_count == self.spec_symbols().len(),
                w <= w_count,
                part@.len() == w,
                forall|w2: int, k: int|
                    0 <= w2 < w && 0 <= k < part@[w2]@.len() ==> #[trigger] part@[w2]@[k] < s_count
                        && shard_key(self.spec_symbols()[part@[w2]@[k] as int]) % (w_count as int)
                        == w2,
                forall|w2: int, k1: int, k2: int|
                    0 <= w2 < w && 0 <= k1 < k2 < part@[w2]@.len() ==> part@[w2]@[k1]
                        < part@[w2]@[k2],
                forall|j: int|
                    0 <= j < s_count && #[trigger] shard_key(self.spec_symbols()[j]) % (w_count as int)
                        < w ==> part@[shard_key(self.spec_symbols()[j]) % (w_count as int)]@.contains(
                        j as usize,
                    ),
            decreases w_count - w,
        {
            let mut lst: Vec<usize> = Vec::new();
            let mut j: usize = 0;
            while j < s_count
                invariant
                    *self == *old(self),
                    self.wf(),
                    w_count == self.spec_workers(),
                    s_count == self.spec_symbols().len(),
                    w < w_count,
                    j <= s_count,
                    forall|k: int|
                        0 <= k < lst@.len() ==> #[trigger] lst@[k] < j && shard_key(
                            self.spec_symbols()[lst@[k] as int],
                        ) % (w_count as int) == w,
                    forall|k1: int, k2: int|
                        0 <= k1 < k2 < lst@.len() ==> lst@[k1] < lst@[k2],
                    forall|j2: int|
                        0 <= j2 < j && #[trigger] shard_key(self.spec_symbols()[j2])
                            % (w_count as int) == w ==> lst@.contains(j2 as usize),
                decreases s_count - j,
            {
                let wj = shard_index(&self.symbols[j], w_count);
                if wj == w {
                    let ghost old_lst = lst@;
                    lst.push(j);
                    proof {
                        assert(lst@ =~= old_lst.push(j));
                        assert forall|j2: int|
                            0 <= j2 < j + 1 && #[trigger] shard_key(self.spec_symbols()[j2]) % (
                            w_count as int) == w implies lst@.contains(j2 as usize) by {
                            if j2 < j {
                                let k = choose|k: int|
                                    0 <= k < old_lst.len() && old_lst[k] == j2 as usize;
                                assert(lst@[k] == j2 as usize);
                            } else {
                                assert(lst@[lst@.len() - 1] == j);
                            }
                        }
                    }
                }
                j = j + 1;
            }
            part.push(lst);
            w = w + 1;
        }
        let ghost pre = *self;
        self.state = EngineState::Running;
        proof {
            assert(self.spec_symbols() =~~= pre.spec_symbols());
            assert(self.spec_counts() =~= pre.spec_counts());
        }
        Ok(part)
    }

    /// Moves the engine to stopped. Stopping is idempotent: on a stopped
    /// engine nothing changes at all.
    pub fn stop(&mut self)
        requires
            old(self).wf(),
        ensures
            final(self).wf(),
            *final(self) == EngineCore::stopped(*old(self)),
            final(self).spec_state() == EngineState::Stopped,
            final(self).spec_workers() == old(self).spec_workers(),
            final(self).spec_symbols() == old(self).spec_symbols(),
            final(self).spec_counts() == old(self).spec_counts(),
            old(self).spec_state() == EngineState::Stopped ==> *final(self) == *old(self),
    {
        let ghost pre = *self;
        self.state = EngineState::Stopped;
        proof {
            assert(self.spec_symbols() =~~= pre.spec_symbols());
            assert(self.spec_counts() =~= pre.spec_counts());
        }
    }

    /// The worker a tick for `symbol` goes to. Exactly one worker is
    /// named, and only while the engine runs: a stopped engine routes
    /// nothing, so no further orders can be produced.
    pub fn worker_for_tick(&self, symbol: &SymbolType) -> (r: Result<usize, EngineError>)
        requires
            self.wf(),
        ensures
            self.spec_state() == EngineState::Running ==> (r matches Ok(w) && w == shard_key(
                symbol@,
            ) % self.spec_workers() && w < self.spec_workers()),
            self.spec_state() != EngineState::Running ==> r == Err::<usize, EngineError>(
                EngineError::NotRunning,
            ),
    {
        if !matches!(self.state, EngineState::Running) {
            return Err(EngineError::NotRunning);
        }
        Ok(shard_index(symbol, self.num_workers))
    }
}

/// Stopping twice is stopping once: the engine after two stops is the
/// engine after one.
pub proof fn lemma_stop_idempotent(e: EngineCore)
    ensures
        EngineCore::stopped(EngineCore::stopped(e)) == EngineCore::stopped(e),
{
}

} // verus!
