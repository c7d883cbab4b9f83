//! Fixed-layout data types shared by the quote feed and the order stream.
//!
//! A symbol is a 16-byte NUL-padded ASCII name and a strategy name a
//! 32-byte one; both compare and travel byte for byte. Price fields of
//! the tick record are IEEE-754 double bit patterns carried as `u64`
//! (see `crate::fp`); whoever owns real doubles converts with
//! `f64::to_bits` / `f64::from_bits` at the boundary.

use vstd::prelude::*;
use vstd::string::StringSliceAdditionalSpecFns;
use vstd::utf8::{decode_utf8, valid_utf8};

verus! {

broadcast use vstd::array::group_array_axioms;

/// A 16-byte, NUL-padded contract symbol, compared over all 16 bytes.
#[derive(Copy, Clone, Debug, PartialEq, Eq, Hash)]
pub struct SymbolType(pub [u8; 16]);

/// A 32-byte, NUL-padded strategy name, compared over all 32 bytes.
#[derive(Copy, Clone, Debug, PartialEq, Eq, Hash)]
pub struct NameType(pub [u8; 32]);

impl View for SymbolType {
    type V = Seq<u8>;

    open spec fn view(&self) -> Seq<u8> {
        self.0@
    }
}

impl View for NameType {
    type V = Seq<u8>;

    open spec fn view(&self) -> Seq<u8> {
        self.0@
    }
}

/// The bytes of `s` before its first NUL; all of `s` when none occurs.
pub open spec fn nul_prefix(s: Seq<u8>) -> Seq<u8>
    decreases s.len(),
{
    if s.len() == 0 {
        s
    } else if s[0] == 0 {
        Seq::empty()
    } else {
        seq![s[0]] + nul_prefix(s.subrange(1, s.len() as int))
    }
}

/// `s` truncated to `n` bytes and padded with NULs to exactly `n`.
pub open spec fn nul_padded(s: Seq<u8>, n: nat) -> Seq<u8> {
    Seq::new(n, |i: int| if i < s.len() { s[i] } else { 0 })
}

/// When the first `i` bytes of `s` are non-NUL and byte `i` (if any)
/// is NUL, the NUL prefix is exactly those first `i` bytes.
proof fn lemma_nul_prefix_at(s: Seq<u8>, i: int)
    requires
        0 <= i <= s.len(),
        forall|j: int| 0 <= j < i ==> s[j] != 0,
        i == s.len() || s[i] == 0,
    ensures
        nul_prefix(s) =~= s.subrange(0, i),
    decreases i,
{
    if i == 0 {
        if s.len() > 0 {
            assert(s[0] == 0);
        }
        assert(s.subrange(0, 0) =~= Seq::<u8>::empty());
    } else {
        let rest = s.subrange(1, s.len() as int);
        lemma_nul_prefix_at(rest, i - 1);
        assert(seq![s[0]] + rest.subrange(0, i - 1) =~= s.subrange(0, i));
    }
}

/// Copies the bytes of `bytes` before its first NUL into a vector.
fn nul_prefix_vec(bytes: &[u8]) -> (v: Vec<u8>)
    ensures
        v@ =~= nul_prefix(bytes@),
{
    let n = bytes.len();
    let mut v: Vec<u8> = Vec::new();
    let mut i: usize = 0;
    while i < n
        invariant
            n == bytes@.len(),
            i <= n,
            v@.len() == i,
            forall|j: int| 0 <= j < i ==> v@[j] == bytes@[j] && bytes@[j] != 0,
        decreases n - i,
    {
        let b = bytes[i];
        if b == 0 {
            proof {
                lemma_nul_prefix_at(bytes@, i as int);
            }
            return v;
        }
        v.push(b);
        i = i + 1;
    }
    proof {
        lemma_nul_prefix_at(bytes@, n as int);
    }
    v
}

/// Relies on `String::from_utf8`: it decodes exactly the valid UTF-8
/// byte sequences and refuses the rest; invalid input becomes the empty
/// string here, as the callers' fallback requires.
#[verifier::external_body]
fn utf8_to_string(bytes: Vec<u8>) -> (r: String)
    ensures
        valid_utf8(bytes@) ==> r@ == decode_utf8(bytes@),
        !valid_utf8(bytes@) ==> r@ =~= Seq::<char>::empty(),
{
    String::from_utf8(bytes).unwrap_or_else(|_| String::new())
}

/// Writes the first `n` bytes of `s` into a fresh vector, padding with
/// NULs to exactly `n` bytes.
fn pad_bytes(s: &str, n: usize) -> (v: Vec<u8>)
    ensures
        v@ =~= nul_padded(s.spec_bytes(), n as nat),
{
    let bytes = s.as_bytes();
    let len = bytes.len();
    let mut v: Vec<u8> = Vec::new();
    let mut i: usize = 0;
    while i < n
        invariant
            bytes@ == s.spec_bytes(),
            len == bytes@.len(),
            i <= n,
            v@.len() == i,
            forall|j: int| 0 <= j < i ==> v@[j] == nul_padded(s.spec_bytes(), n as nat)[j],
        decreases n - i,
    {
        if i < len {
            v.push(bytes[i]);
        } else {
            v.push(0);
        }
        i = i + 1;
    }
    v
}

impl SymbolType {
    /// The bytes before the first NUL, decoded as UTF-8; the empty
    /// string when they are not valid UTF-8.
    pub fn as_str(&self) -> (r: String)
        ensures
            valid_utf8(nul_prefix(self@)) ==> r@ == decode_utf8(nul_prefix(self@)),
            !valid_utf8(nul_prefix(self@)) ==> r@ =~= Seq::<char>::empty(),
    {
        let prefix = nul_prefix_vec(self.0.as_slice());
        utf8_to_string(prefix)
    }

    /// A symbol holding the first 16 bytes of `s`, NUL-padded.
    pub fn from(s: &str) -> (r: SymbolType)
        ensures
            r@ =~= nul_padded(s.spec_bytes(), 16),
    {
        let v = pad_bytes(s, 16);
        let mut arr: [u8; 16] = [0; 16];
        let mut i: usize = 0;
        while i < 16
            invariant
                v@.len() == 16,
                i <= 16,
                forall|j: int| 0 <= j < i ==> arr@[j] == v@[j],
            decreases 16 - i,
        {
            arr[i] = v[i];
            i = i + 1;
        }
        proof {
            assert(arr@ =~= v@);
        }
        SymbolType(arr)
    }
}

impl NameType {
    /// The bytes before the first NUL, decoded as UTF-8; the empty
    /// string when they are not valid UTF-8.
    pub fn as_str(&self) -> (r: String)
        ensures
            valid_utf8(nul_prefix(self@)) ==> r@ == decode_utf8(nul_prefix(self@)),
            !valid_utf8(nul_prefix(self@)) ==> r@ =~= Seq::<char>::empty(),
    {
        let prefix = nul_prefix_vec(self.0.as_slice());
        utf8_to_string(prefix)
    }

    /// A name holding the first 32 bytes of `s`, NUL-padded.
    pub fn from(s: &str) -> (r: NameType)
        ensures
            r@ =~= nul_padded(s.spec_bytes(), 32),
    {
        let v = pad_bytes(s, 32);
        let mut arr: [u8; 32] = [0; 32];
        let mut i: usize = 0;
        while i < 32
            invariant
                v@.len() == 32,
                i <= 32,
                forall|j: int| 0 <= j < i ==> arr@[j] == v@[j],
            decreases 32 - i,
        {
            arr[i] = v[i];
            i = i + 1;
        }
        proof {
            assert(arr@ =~= v@);
        }
        NameType(arr)
    }
}

/// Byte equality of two symbols, usable from verified code.
pub fn symbol_eq(a: &SymbolType, b: &SymbolType) -> (r: bool)
    ensures
        r == (a@ == b@),
{
    let mut i: usize = 0;
    while i < 16
        invariant
            i <= 16,
            forall|j: int| 0 <= j < i ==> a.0@[j] == b.0@[j],
        decreases 16 - i,
    {
        if a.0[i] != b.0[i] {
            assert(a@ != b@);
            return false;
        }
        i = i + 1;
    }
    proof {
        assert(a@ =~= b@);
    }
    true
}

/// Whether an order buys or sells; `NONE` marks an inert order.
#[allow(non_camel_case_types)]
#[derive(Copy, Clone, Debug, PartialEq, Eq, Structural)]
pub enum DirectionType {
    NONE,
    BUY,
    SELL,
}

/// Whether an order opens a position or closes one; `NONE` is inert.
#[allow(non_camel_case_types)]
#[derive(Copy, Clone, Debug, PartialEq, Eq, Structural)]
pub enum OffsetFlagType {
    NONE,
    OPEN,
    CLOSE,
}

/// The wire byte of a direction.
pub open spec fn direction_byte(d: DirectionType) -> u8 {
    match d {
        DirectionType::NONE => 0,
        DirectionType::BUY => 1,
        DirectionType::SELL => 2,
    }
}

/// The wire byte of an offset flag.
pub open spec fn offset_byte(o: OffsetFlagType) -> u8 {
    match o {
        OffsetFlagType::NONE => 0,
        OffsetFlagType::OPEN => 1,
        OffsetFlagType::CLOSE => 2,
    }
}

/// Encodes a direction as its wire byte.
pub fn direction_to_byte(d: DirectionType) -> (b: u8)
    ensures
        b == direction_byte(d),
{
    match d {
        DirectionType::NONE => 0,
        DirectionType::BUY => 1,
        DirectionType::SELL => 2,
    }
}

/// Decodes a direction from its wire byte; bytes above 2 are invalid.
pub fn direction_from_byte(b: u8) -> (r: Option<DirectionType>)
    ensures
        b <= 2 ==> (r matches Some(d) && direction_byte(d) == b),
        b > 2 ==> r is None,
{
    match b {
        0 => Some(DirectionType::NONE),
        1 => Some(DirectionType::BUY),
        2 => Some(DirectionType::SELL),
        _ => None,
    }
}

/// Encodes an offset flag as its wire byte.
pub fn offset_to_byte(o: OffsetFlagType) -> (b: u8)
    ensures
        b == offset_byte(o),
{
    match o {
        OffsetFlagType::NONE => 0,
        OffsetFlagType::OPEN => 1,
        OffsetFlagType::CLOSE => 2,
    }
}

/// Decodes an offset flag from its wire byte; bytes above 2 are invalid.
pub fn offset_from_byte(b: u8) -> (r: Option<OffsetFlagType>)
    ensures
        b <= 2 ==> (r matches Some(o) && offset_byte(o) == b),
        b > 2 ==> r is None,
{
    match b {
        0 => Some(OffsetFlagType::NONE),
        1 => Some(OffsetFlagType::OPEN),
        2 => Some(OffsetFlagType::CLOSE),
        _ => None,
    }
}

/// One top-of-book quote snapshot. Every price field holds the bit
/// pattern of an IEEE-754 double.
#[derive(Copy, Clone, Debug, PartialEq, Eq)]
pub struct TickData {
    pub symbol: SymbolType,
    pub stamp: i64,
    pub open: u64,
    pub high: u64,
    pub low: u64,
    pub last: u64,
    pub limit_down: u64,
    pub limit_up: u64,
    pub preclose: u64,
    pub close: u64,
    pub presettle: u64,
    pub settle: u64,
    pub preoi: u64,
    pub oi: u64,
    pub volume: i64,
    pub amount: u64,
    pub avgprice: u64,
    pub ap1: u64,
    pub ap2: u64,
    pub ap3: u64,
    pub ap4: u64,
    pub ap5: u64,
    pub bp1: u64,
    pub bp2: u64,
    pub bp3: u64,
    pub bp4: u64,
    pub bp5: u64,
    pub av1: i32,
    pub av2: i32,
    pub av3: i32,
    pub av4: i32,
    pub av5: i32,
    pub bv1: i32,
    pub bv2: i32,
    pub bv3: i32,
    pub bv4: i32,
    pub bv5: i32,
    pub adj: u64,
}

/// A trading intent produced by a strategy.
#[derive(Copy, Clone, Debug, PartialEq, Eq)]
pub struct Order {
    pub stg_name: NameType,
    pub symbol: SymbolType,
    pub timestamp: i64,
    pub volume: u32,
    pub direction: DirectionType,
    pub offset: OffsetFlagType,
}

} // verus!
