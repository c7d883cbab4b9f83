//! The contract-fee registry: a load-once table from contract code
//! (such as `SHFE.rb`) to that contract's fee and margin parameters.
//!
//! All rates and fixed amounts are double bit patterns (`crate::fp`);
//! the close-today pair is kept as parsed though the fill path charges
//! every close with the plain close pair. A missing code is an ordinary
//! `None`, never a panic.

use vstd::prelude::*;

verus! {

/// Fee and margin parameters of one contract, as double bit patterns.
#[derive(Copy, Clone, Debug, PartialEq, Eq, Structural)]
pub struct ContractInfo {
    pub contract_multiplier: u64,
    pub min_move: u64,
    pub open_fee_rate: u64,
    pub open_fee_fixed: u64,
    pub close_fee_rate: u64,
    pub close_fee_fixed: u64,
    pub close_today_fee_rate: u64,
    pub close_today_fee_fixed: u64,
    pub long_margin_rate: u64,
    pub long_margin_fixed: u64,
    pub short_margin_rate: u64,
    pub short_margin_fixed: u64,
}

/// The fee parameters of `offset`: the open pair for an open, the close
/// pair for a close (close-today is parsed but never charged).
pub fn fee_params(offset: crate::types::OffsetFlagType, info: &ContractInfo) -> (r: (u64, u64))
    requires
        offset != crate::types::OffsetFlagType::NONE,
    ensures
        offset == crate::types::OffsetFlagType::OPEN ==> r == (
            info.open_fee_rate,
            info.open_fee_fixed,
        ),
        offset == crate::types::OffsetFlagType::CLOSE ==> r == (
            info.close_fee_rate,
            info.close_fee_fixed,
        ),
{
    if offset == crate::types::OffsetFlagType::OPEN {
        (info.open_fee_rate, info.open_fee_fixed)
    } else {
        (info.close_fee_rate, info.close_fee_fixed)
    }
}

/// The margin parameters of the leg `direction` trades on.
pub fn margin_params(direction: crate::types::DirectionType, info: &ContractInfo) -> (r: (
    u64,
    u64,
))
    requires
        direction != crate::types::DirectionType::NONE,
    ensures
        direction == crate::types::DirectionType::BUY ==> r == (
            info.long_margin_rate,
            info.long_margin_fixed,
        ),
        direction == crate::types::DirectionType::SELL ==> r == (
            info.short_margin_rate,
            info.short_margin_fixed,
        ),
{
    if direction == crate::types::DirectionType::BUY {
        (info.long_margin_rate, info.long_margin_fixed)
    } else {
        (info.short_margin_rate, info.short_margin_fixed)
    }
}

/// First match of `key` in an association list.
pub open spec fn spec_lookup(s: Seq<(Seq<u8>, ContractInfo)>, key: Seq<u8>) -> Option<ContractInfo>
    decreases s.len(),
{
    if s.len() == 0 {
        None
    } else if s[0].0 == key {
        Some(s[0].1)
    } else {
        spec_lookup(s.subrange(1, s.len() as int), key)
    }
}

/// A lookup misses exactly when no entry carries the key.
pub proof fn lemma_lookup_none_iff_absent(s: Seq<(Seq<u8>, ContractInfo)>, key: Seq<u8>)
    ensures
        (spec_lookup(s, key) is None) <==> (forall|i: int| 0 <= i < s.len() ==> s[i].0 != key),
    decreases s.len(),
{
    if s.len() > 0 {
        lemma_lookup_none_iff_absent(s.subrange(1, s.len() as int), key);
        assert(forall|i: int|
            1 <= i < s.len() ==> s.subrange(1, s.len() as int)[i - 1] == s[i]);
    }
}

/// When the first `i` entries miss `key` and entry `i` carries it, the
/// lookup returns entry `i`.
proof fn lemma_lookup_at(s: Seq<(Seq<u8>, ContractInfo)>, key: Seq<u8>, i: int)
    requires
        0 <= i < s.len(),
        forall|j: int| 0 <= j < i ==> s[j].0 != key,
        s[i].0 == key,
    ensures
        spec_lookup(s, key) == Some(s[i].1),
    decreases i,
{
    if i > 0 {
        lemma_lookup_at(s.subrange(1, s.len() as int), key, i - 1);
    }
}

/// Byte equality of two slices.
fn bytes_eq(a: &[u8], b: &[u8]) -> (r: bool)
    ensures
        r == (a@ == b@),
{
    let n = a.len();
    if n != b.len() {
        assert(a@ != b@);
        return false;
    }
    let mut i: usize = 0;
    while i < n
        invariant
            n == a@.len(),
            n == b@.len(),
            i <= n,
            forall|j: int| 0 <= j < i ==> a@[j] == b@[j],
        decreases n - i,
    {
        if a[i] != b[i] {
            assert(a@ != b@);
            return false;
        }
        i = i + 1;
    }
    proof {
        assert(a@ =~= b@);
    }
    true
}

/// The registry: contract code bytes to parameters, codes unique.
pub struct FeeTable {
    entries: Vec<(Vec<u8>, ContractInfo)>,
}

impl FeeTable {
    /// The table as an association list of byte keys.
    pub closed spec fn entries_view(&self) -> Seq<(Seq<u8>, ContractInfo)> {
        Seq::new(self.entries@.len(), |i: int| (self.entries@[i].0@, self.entries@[i].1))
    }

    /// Every code appears at most once.
    pub closed spec fn wf(&self) -> bool {
        forall|i: int, j: int|
            0 <= i < j < self.entries_view().len() ==> self.entries_view()[i].0
                != self.entries_view()[j].0
    }

    /// An empty registry.
    pub fn new() -> (t: FeeTable)
        ensures
            t.wf(),
            t.entries_view() =~= Seq::<(Seq<u8>, ContractInfo)>::empty(),
    {
        FeeTable { entries: Vec::new() }
    }

    /// How many contracts the registry holds.
    pub fn len(&self) -> (n: usize)
        ensures
            n == self.entries_view().len(),
    {
        self.entries.len()
    }

    /// The parameters registered for `code`, when any.
    pub fn get(&self, code: &[u8]) -> (r: Option<&ContractInfo>)
        requires
            self.wf(),
        ensures
            match spec_lookup(self.entries_view(), code@) {
                Some(info) => r matches Some(x) && *x == info,
                None => r is None,
            },
    {
        let n = self.entries.len();
        let mut i: usize = 0;
        while i < n
            invariant
                self.wf(),
                n == self.entries_view().len(),
                i <= n,
                forall|j: int| 0 <= j < i ==> self.entries_view()[j].0 != code@,
            decreases n - i,
        {
            if bytes_eq(self.entries[i].0.as_slice(), code) {
                proof {
                    lemma_lookup_at(self.entries_view(), code@, i as int);
                }
                return Some(&self.entries[i].1);
            }
            i = i + 1;
        }
        proof {
            lemma_lookup_none_iff_absent(self.entries_view(), code@);
        }
        None
    }

    /// Registers `code`; a duplicate code is refused and leaves the
    /// registry unchanged.
    pub fn insert(&mut self, code: Vec<u8>, info: ContractInfo) -> (ok: bool)
        requires
            old(self).wf(),
        ensures
            final(self).wf(),
            ok == (spec_lookup(old(self).entries_view(), code@) is None),
            ok ==> final(self).entries_view() =~= old(self).entries_view().push((code@, info)),
            !ok ==> *final(self) == *old(self),
    {
        let exists_already = self.get(code.as_slice()).is_some();
        if exists_already {
            return false;
        }
        proof {
            lemma_lookup_none_iff_absent(self.entries_view(), code@);
        }
        let ghost old_view = self.entries_view();
        self.entries.push((code, info));
        proof {
            assert(self.entries_view() =~= old_view.push((code@, info)));
        }
        true
    }
}

} // verus!
