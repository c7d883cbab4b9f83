//! Shard selection: which worker owns a symbol.
//!
//! The shard key looks at the first two bytes of the 16-byte symbol. A
//! symbol whose first byte is not an ASCII letter keys to 0; otherwise
//! the key is the first byte in the high octet, with the second byte in
//! the low octet when it too is a letter. Two-letter contract prefixes
//! thus spread across workers while digits of the expiry do not.

use vstd::prelude::*;

use crate::types::SymbolType;

verus! {

/// Whether `b` is an ASCII letter, `A`-`Z` or `a`-`z`.
pub open spec fn is_ascii_letter(b: u8) -> bool {
    (65 <= b <= 90) || (97 <= b <= 122)
}

/// The shard key of a symbol, from its first two bytes.
pub open spec fn shard_key(s: Seq<u8>) -> int
    recommends
        s.len() >= 2,
{
    if !is_ascii_letter(s[0]) {
        0
    } else if is_ascii_letter(s[1]) {
        (s[0] as u32) * 256 + (s[1] as u32)
    } else {
        (s[0] as u32) * 256
    }
}

/// Computes the shard key of `sym`.
pub fn symbol_shard(sym: &SymbolType) -> (k: u32)
    ensures
        k == shard_key(sym@),
{
    let b0 = sym.0[0];
    if !(b0 >= 65 && b0 <= 90 || b0 >= 97 && b0 <= 122) {
        return 0;
    }
    let b1 = sym.0[1];
    if b1 >= 65 && b1 <= 90 || b1 >= 97 && b1 <= 122 {
        (b0 as u32) * 256 + (b1 as u32)
    } else {
        (b0 as u32) * 256
    }
}

/// The worker index a symbol belongs to, among `workers` workers.
pub fn shard_index(sym: &SymbolType, workers: usize) -> (w: usize)
    requires
        workers >= 1,
    ensures
        w == shard_key(sym@) as int % workers as int,
        w < workers,
{
    (symbol_shard(sym) as usize) % workers
}

} // verus!
