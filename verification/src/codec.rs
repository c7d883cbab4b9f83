//! Wire codecs for the fixed-layout tick and order records.
//!
//! Both records travel as single binary frames of a fixed size, fields
//! in declaration order, multi-byte integers little-endian, doubles as
//! their 8 raw bytes. A frame of any other size is not a record. The
//! byte image of each record is pinned field by field, so an encoded
//! record decodes to itself and a well-sized frame re-encodes to the
//! same bytes.

use vstd::bytes::*;
use vstd::prelude::*;
use vstd::slice::slice_subrange;

use crate::types::{
    direction_byte, direction_from_byte, direction_to_byte, offset_byte, offset_from_byte,
    offset_to_byte, NameType, Order, SymbolType, TickData,
};

verus! {

broadcast use vstd::array::group_array_axioms;

/// The exact size of one tick frame.
pub const TICK_WIRE_BYTES: usize = 272;

/// The exact size of one order frame.
pub const ORDER_WIRE_BYTES: usize = 64;

/// Whether a received frame has the size of a tick record; every other
/// size is dropped by the dispatcher.
pub fn tick_frame_size_ok(n: usize) -> (r: bool)
    ensures
        r == (n == TICK_WIRE_BYTES),
{
    n == TICK_WIRE_BYTES
}

/// The little-endian bytes of a signed 64-bit value.
pub open spec fn spec_i64_le(x: i64) -> Seq<u8> {
    spec_u64_to_le_bytes(x as u64)
}

/// The little-endian bytes of a signed 32-bit value.
pub open spec fn spec_i32_le(x: i32) -> Seq<u8> {
    spec_u32_to_le_bytes(x as u32)
}

/// Bytes 0..24 of a tick frame: symbol and timestamp.
pub open spec fn spec_tick_head(t: TickData) -> Seq<u8> {
    t.symbol@ + spec_i64_le(t.stamp)
}

/// Bytes 24..120 of a tick frame: the twelve session price fields.
pub open spec fn spec_tick_px(t: TickData) -> Seq<u8> {
    spec_u64_to_le_bytes(t.open) + spec_u64_to_le_bytes(t.high) + spec_u64_to_le_bytes(t.low)
        + spec_u64_to_le_bytes(t.last) + spec_u64_to_le_bytes(t.limit_down) + spec_u64_to_le_bytes(
        t.limit_up,
    ) + spec_u64_to_le_bytes(t.preclose) + spec_u64_to_le_bytes(t.close) + spec_u64_to_le_bytes(
        t.presettle,
    ) + spec_u64_to_le_bytes(t.settle) + spec_u64_to_le_bytes(t.preoi) + spec_u64_to_le_bytes(t.oi)
}

/// Bytes 120..144 of a tick frame: volume, turnover, VWAP.
pub open spec fn spec_tick_mid(t: TickData) -> Seq<u8> {
    spec_i64_le(t.volume) + spec_u64_to_le_bytes(t.amount) + spec_u64_to_le_bytes(t.avgprice)
}

/// Bytes 144..224 of a tick frame: the five ask and five bid prices.
pub open spec fn spec_tick_depth_px(t: TickData) -> Seq<u8> {
    spec_u64_to_le_bytes(t.ap1) + spec_u64_to_le_bytes(t.ap2) + spec_u64_to_le_bytes(t.ap3)
        + spec_u64_to_le_bytes(t.ap4) + spec_u64_to_le_bytes(t.ap5) + spec_u64_to_le_bytes(t.bp1)
        + spec_u64_to_le_bytes(t.bp2) + spec_u64_to_le_bytes(t.bp3) + spec_u64_to_le_bytes(t.bp4)
        + spec_u64_to_le_bytes(t.bp5)
}

/// Bytes 224..264 of a tick frame: the five ask and five bid volumes.
pub open spec fn spec_tick_depth_vol(t: TickData) -> Seq<u8> {
    spec_i32_le(t.av1) + spec_i32_le(t.av2) + spec_i32_le(t.av3) + spec_i32_le(t.av4) + spec_i32_le(
        t.av5,
    ) + spec_i32_le(t.bv1) + spec_i32_le(t.bv2) + spec_i32_le(t.bv3) + spec_i32_le(t.bv4)
        + spec_i32_le(t.bv5)
}

/// The full 272-byte image of a tick record.
pub open spec fn spec_tick_bytes(t: TickData) -> Seq<u8> {
    spec_tick_head(t) + spec_tick_px(t) + spec_tick_mid(t) + spec_tick_depth_px(t)
        + spec_tick_depth_vol(t) + spec_u64_to_le_bytes(t.adj)
}

/// The full 64-byte image of an order record: name, symbol, timestamp,
/// quantity, direction byte, offset byte, two NUL padding bytes.
pub open spec fn spec_order_bytes(o: Order) -> Seq<u8> {
    o.stg_name@ + o.symbol@ + spec_i64_le(o.timestamp) + spec_u32_to_le_bytes(o.volume) + seq![
        direction_byte(o.direction),
        offset_byte(o.offset),
        0u8,
        0u8,
    ]
}

/// Appends the little-endian bytes of `x`.
fn push_u64(out: &mut Vec<u8>, x: u64)
    ensures
        final(out)@ == old(out)@ + spec_u64_to_le_bytes(x),
{
    let mut part = u64_to_le_bytes(x);
    out.append(&mut part);
}

/// Appends the little-endian bytes of `x`.
fn push_i64(out: &mut Vec<u8>, x: i64)
    ensures
        final(out)@ == old(out)@ + spec_i64_le(x),
{
    let mut part = u64_to_le_bytes(x as u64);
    out.append(&mut part);
}

/// Appends the little-endian bytes of `x`.
fn push_u32(out: &mut Vec<u8>, x: u32)
    ensures
        final(out)@ == old(out)@ + spec_u32_to_le_bytes(x),
{
    let mut part = u32_to_le_bytes(x);
    out.append(&mut part);
}

/// Appends the little-endian bytes of `x`.
fn push_i32(out: &mut Vec<u8>, x: i32)
    ensures
        final(out)@ == old(out)@ + spec_i32_le(x),
{
    let mut part = u32_to_le_bytes(x as u32);
    out.append(&mut part);
}

/// Appends `n` bytes of `src` starting at 0; `src` must hold them.
fn push_bytes(out: &mut Vec<u8>, src: &[u8])
    ensures
        final(out)@ == old(out)@ + src@,
{
    let mut part = vstd::slice::slice_to_vec(src);
    out.append(&mut part);
}

/// Encodes a tick record as its 272-byte frame.
pub fn encode_tick(t: &TickData) -> (out: Vec<u8>)
    ensures
        out@ == spec_tick_bytes(*t),
        out@.len() == TICK_WIRE_BYTES,
{
    proof {
        lemma_auto_spec_u64_to_from_le_bytes();
        lemma_auto_spec_u32_to_from_le_bytes();
    }
    let mut out: Vec<u8> = Vec::new();
    push_bytes(&mut out, t.symbol.0.as_slice());
    push_i64(&mut out, t.stamp);
    assert(out@ =~= spec_tick_head(*t));
    let ghost done = spec_tick_head(*t);
    push_u64(&mut out, t.open);
    push_u64(&mut out, t.high);
    push_u64(&mut out, t.low);
    push_u64(&mut out, t.last);
    push_u64(&mut out, t.limit_down);
    push_u64(&mut out, t.limit_up);
    push_u64(&mut out, t.preclose);
    push_u64(&mut out, t.close);
    push_u64(&mut out, t.presettle);
    push_u64(&mut out, t.settle);
    push_u64(&mut out, t.preoi);
    push_u64(&mut out, t.oi);
    assert(out@ =~= done + spec_tick_px(*t));
    let ghost done = done + spec_tick_px(*t);
    push_i64(&mut out, t.volume);
    push_u64(&mut out, t.amount);
    push_u64(&mut out, t.avgprice);
    assert(out@ =~= done + spec_tick_mid(*t));
    let ghost done = done + spec_tick_mid(*t);
    push_u64(&mut out, t.ap1);
    push_u64(&mut out, t.ap2);
    push_u64(&mut out, t.ap3);
    push_u64(&mut out, t.ap4);
    push_u64(&mut out, t.ap5);
    push_u64(&mut out, t.bp1);
    push_u64(&mut out, t.bp2);
    push_u64(&mut out, t.bp3);
    push_u64(&mut out, t.bp4);
    push_u64(&mut out, t.bp5);
    assert(out@ =~= done + spec_tick_depth_px(*t));
    let ghost done = done + spec_tick_depth_px(*t);
    push_i32(&mut out, t.av1);
    push_i32(&mut out, t.av2);
    push_i32(&mut out, t.av3);
    push_i32(&mut out, t.av4);
    push_i32(&mut out, t.av5);
    push_i32(&mut out, t.bv1);
    push_i32(&mut out, t.bv2);
    push_i32(&mut out, t.bv3);
    push_i32(&mut out, t.bv4);
    push_i32(&mut out, t.bv5);
    assert(out@ =~= done + spec_tick_depth_vol(*t));
    push_u64(&mut out, t.adj);
    assert(out@ =~= spec_tick_bytes(*t));
    out
}

/// Encodes an order record as its 64-byte frame.
pub fn encode_order(o: &Order) -> (out: Vec<u8>)
    ensures
        out@ == spec_order_bytes(*o),
        out@.len() == ORDER_WIRE_BYTES,
{
    proof {
        lemma_auto_spec_u64_to_from_le_bytes();
        lemma_auto_spec_u32_to_from_le_bytes();
    }
    let mut out: Vec<u8> = Vec::new();
    push_bytes(&mut out, o.stg_name.0.as_slice());
    push_bytes(&mut out, o.symbol.0.as_slice());
    push_i64(&mut out, o.timestamp);
    push_u32(&mut out, o.volume);
    out.push(direction_to_byte(o.direction));
    out.push(offset_to_byte(o.offset));
    out.push(0);
    out.push(0);
    assert(out@ =~= spec_order_bytes(*o));
    out
}

/// Reads 16 bytes at `off` as a symbol.
fn read_symbol(b: &[u8], off: usize) -> (r: SymbolType)
    requires
        off + 16 <= b@.len(),
    ensures
        r@ == b@.subrange(off as int, off as int + 16),
{
    let n = b.len();
    let mut arr: [u8; 16] = [0; 16];
    let mut i: usize = 0;
    while i < 16
        invariant
            n == b@.len(),
            off + 16 <= b@.len(),
            i <= 16,
            forall|j: int| 0 <= j < i ==> arr@[j] == b@[off + j],
        decreases 16 - i,
    {
        arr[i] = b[off + i];
        i = i + 1;
    }
    proof {
        assert(arr@ =~= b@.subrange(off as int, off as int + 16));
    }
    SymbolType(arr)
}

/// Reads 32 bytes at `off` as a strategy name.
fn read_name(b: &[u8], off: usize) -> (r: NameType)
    requires
        off + 32 <= b@.len(),
    ensures
        r@ == b@.subrange(off as int, off as int + 32),
{
    let n = b.len();
    let mut arr: [u8; 32] = [0; 32];
    let mut i: usize = 0;
    while i < 32
        invariant
            n == b@.len(),
            off + 32 <= b@.len(),
            i <= 32,
            forall|j: int| 0 <= j < i ==> arr@[j] == b@[off + j],
        decreases 32 - i,
    {
        arr[i] = b[off + i];
        i = i + 1;
    }
    proof {
        assert(arr@ =~= b@.subrange(off as int, off as int + 32));
    }
    NameType(arr)
}

/// Reads the 8 bytes at `off` as an unsigned 64-bit value.
fn read_u64(b: &[u8], off: usize) -> (r: u64)
    requires
        off + 8 <= b@.len(),
    ensures
        spec_u64_to_le_bytes(r) == b@.subrange(off as int, off as int + 8),
{
    let n = b.len();
    proof {
        lemma_auto_spec_u64_to_from_le_bytes();
    }
    u64_from_le_bytes(slice_subrange(b, off, off + 8))
}

/// Reads the 8 bytes at `off` as a signed 64-bit value.
fn read_i64(b: &[u8], off: usize) -> (r: i64)
    requires
        off + 8 <= b@.len(),
    ensures
        spec_i64_le(r) == b@.subrange(off as int, off as int + 8),
{
    let n = b.len();
    proof {
        lemma_auto_spec_u64_to_from_le_bytes();
    }
    let x = u64_from_le_bytes(slice_subrange(b, off, off + 8));
    #[verifier::truncate]
    let r = x as i64;
    proof {
        assert(r as u64 == x) by (bit_vector)
            requires
                r == x as i64,
        ;
    }
    r
}

/// Reads the 4 bytes at `off` as an unsigned 32-bit value.
fn read_u32(b: &[u8], off: usize) -> (r: u32)
    requires
        off + 4 <= b@.len(),
    ensures
        spec_u32_to_le_bytes(r) == b@.subrange(off as int, off as int + 4),
{
    let n = b.len();
    proof {
        lemma_auto_spec_u32_to_from_le_bytes();
    }
    u32_from_le_bytes(slice_subrange(b, off, off + 4))
}

/// Reads the 4 bytes at `off` as a signed 32-bit value.
fn read_i32(b: &[u8], off: usize) -> (r: i32)
    requires
        off + 4 <= b@.len(),
    ensures
        spec_i32_le(r) == b@.subrange(off as int, off as int + 4),
{
    let n = b.len();
    proof {
        lemma_auto_spec_u32_to_from_le_bytes();
    }
    let x = u32_from_le_bytes(slice_subrange(b, off, off + 4));
    #[verifier::truncate]
    let r = x as i32;
    proof {
        assert(r as u32 == x) by (bit_vector)
            requires
                r == x as i32,
        ;
    }
    r
}

/// Decodes a 272-byte frame as the tick record it is the image of:
/// re-encoding the result gives back the frame byte for byte.
pub fn decode_tick(b: &[u8]) -> (t: TickData)
    requires
        b@.len() == TICK_WIRE_BYTES,
    ensures
        spec_tick_bytes(t) == b@,
{
    let t = TickData {
        symbol: read_symbol(b, 0),
        stamp: read_i64(b, 16),
        open: read_u64(b, 24),
        high: read_u64(b, 32),
        low: read_u64(b, 40),
        last: read_u64(b, 48),
        limit_down: read_u64(b, 56),
        limit_up: read_u64(b, 64),
        preclose: read_u64(b, 72),
        close: read_u64(b, 80),
        presettle: read_u64(b, 88),
        settle: read_u64(b, 96),
        preoi: read_u64(b, 104),
        oi: read_u64(b, 112),
        volume: read_i64(b, 120),
        amount: read_u64(b, 128),
        avgprice: read_u64(b, 136),
        ap1: read_u64(b, 144),
        ap2: read_u64(b, 152),
        ap3: read_u64(b, 160),
        ap4: read_u64(b, 168),
        ap5: read_u64(b, 176),
        bp1: read_u64(b, 184),
        bp2: read_u64(b, 192),
        bp3: read_u64(b, 200),
        bp4: read_u64(b, 208),
        bp5: read_u64(b, 216),
        av1: read_i32(b, 224),
        av2: read_i32(b, 228),
        av3: read_i32(b, 232),
        av4: read_i32(b, 236),
        av5: read_i32(b, 240),
        bv1: read_i32(b, 244),
        bv2: read_i32(b, 248),
        bv3: read_i32(b, 252),
        bv4: read_i32(b, 256),
        bv5: read_i32(b, 260),
        adj: read_u64(b, 264),
    };
    proof {
        lemma_auto_spec_u64_to_from_le_bytes();
        lemma_auto_spec_u32_to_from_le_bytes();
        assert(spec_tick_head(t) =~= b@.subrange(0, 24));
        assert(spec_tick_px(t) =~= b@.subrange(24, 120));
        assert(spec_tick_mid(t) =~= b@.subrange(120, 144));
        assert(spec_tick_depth_px(t) =~= b@.subrange(144, 224));
        assert(spec_tick_depth_vol(t) =~= b@.subrange(224, 264));
        assert(spec_tick_bytes(t) =~= b@);
    }
    t
}

/// Decodes a 64-byte frame as an order record. The direction and offset
/// bytes must be valid; the two padding bytes are ignored, so the frame
/// of the result differs from `b` at most there.
pub fn decode_order(b: &[u8]) -> (r: Option<Order>)
    requires
        b@.len() == ORDER_WIRE_BYTES,
    ensures
        (b@[60] <= 2 && b@[61] <= 2) <==> r is Some,
        r matches Some(o) ==> spec_order_bytes(o) == b@.subrange(0, 62) + seq![0u8, 0u8],
{
    let dir_byte = b[60];
    let off_byte = b[61];
    let direction = match direction_from_byte(dir_byte) {
        Some(d) => d,
        None => {
            return None;
        },
    };
    let offset = match offset_from_byte(off_byte) {
        Some(o) => o,
        None => {
            return None;
        },
    };
    let o = Order {
        stg_name: read_name(b, 0),
        symbol: read_symbol(b, 32),
        timestamp: read_i64(b, 48),
        volume: read_u32(b, 56),
        direction,
        offset,
    };
    proof {
        assert(spec_order_bytes(o) =~= b@.subrange(0, 62) + seq![0u8, 0u8]);
    }
    Some(o)
}

/// Two orders with the same frame are the same order: a frame denotes
/// at most one record, so decoding what was encoded gives it back.
pub proof fn lemma_order_bytes_injective(a: Order, b: Order)
    requires
        spec_order_bytes(a) == spec_order_bytes(b),
    ensures
        a == b,
{
    lemma_auto_spec_u64_to_from_le_bytes();
    lemma_auto_spec_u32_to_from_le_bytes();
    let s = spec_order_bytes(a);
    assert(a.stg_name@ =~= s.subrange(0, 32));
    assert(b.stg_name@ =~= s.subrange(0, 32));
    assert(a.symbol@ =~= s.subrange(32, 48));
    assert(b.symbol@ =~= s.subrange(32, 48));
    assert(spec_i64_le(a.timestamp) =~= s.subrange(48, 56));
    assert(spec_i64_le(b.timestamp) =~= s.subrange(48, 56));
    assert(spec_u32_to_le_bytes(a.volume) =~= s.subrange(56, 60));
    assert(spec_u32_to_le_bytes(b.volume) =~= s.subrange(56, 60));
    assert(s[60] == direction_byte(a.direction) && s[60] == direction_byte(b.direction));
    assert(s[61] == offset_byte(a.offset) && s[61] == offset_byte(b.offset));
    lemma_i64_le_injective(a.timestamp, b.timestamp);
    assert(a.stg_name.0 == b.stg_name.0);
    assert(a.symbol.0 == b.symbol.0);
}

/// Equal little-endian images mean equal signed values.
proof fn lemma_i64_le_injective(x: i64, y: i64)
    requires
        spec_i64_le(x) == spec_i64_le(y),
    ensures
        x == y,
{
    lemma_auto_spec_u64_to_from_le_bytes();
    assert(x as u64 == y as u64);
    assert(x as u64 == y as u64 ==> x == y) by (bit_vector);
}

/// Equal little-endian images mean equal signed values.
proof fn lemma_i32_le_injective(x: i32, y: i32)
    requires
        spec_i32_le(x) == spec_i32_le(y),
    ensures
        x == y,
{
    lemma_auto_spec_u32_to_from_le_bytes();
    assert(spec_u32_to_le_bytes(x as u32).len() == 4);
    assert(spec_u32_to_le_bytes(y as u32).len() == 4);
    assert(x as u32 == y as u32);
    assert(x as u32 == y as u32 ==> x == y) by (bit_vector);
}

/// Two ticks with the same frame are the same tick: a frame denotes at
/// most one record, so decoding what was encoded gives it back.
pub proof fn lemma_tick_bytes_injective(a: TickData, b: TickData)
    requires
        spec_tick_bytes(a) == spec_tick_bytes(b),
    ensures
        a == b,
{
    lemma_auto_spec_u64_to_from_le_bytes();
    lemma_auto_spec_u32_to_from_le_bytes();
    let s = spec_tick_bytes(a);
    lemma_tick_fields_at(a);
    lemma_tick_fields_at(b);
    lemma_i64_le_injective(a.stamp, b.stamp);
    lemma_i64_le_injective(a.volume, b.volume);
    lemma_i32_le_injective(a.av1, b.av1);
    lemma_i32_le_injective(a.av2, b.av2);
    lemma_i32_le_injective(a.av3, b.av3);
    lemma_i32_le_injective(a.av4, b.av4);
    lemma_i32_le_injective(a.av5, b.av5);
    lemma_i32_le_injective(a.bv1, b.bv1);
    lemma_i32_le_injective(a.bv2, b.bv2);
    lemma_i32_le_injective(a.bv3, b.bv3);
    lemma_i32_le_injective(a.bv4, b.bv4);
    lemma_i32_le_injective(a.bv5, b.bv5);
    assert(a.symbol@ =~= b.symbol@);
    assert(a.symbol.0 == b.symbol.0);
}

/// Each field of a tick sits at its fixed offset inside the frame.
proof fn lemma_tick_fields_at(t: TickData)
    ensures
        ({
            let s = spec_tick_bytes(t);
            &&& s.len() == 272
            &&& t.symbol@ =~= s.subrange(0, 16)
            &&& spec_i64_le(t.stamp) =~= s.subrange(16, 24)
            &&& spec_u64_to_le_bytes(t.open) =~= s.subrange(24, 32)
            &&& spec_u64_to_le_bytes(t.high) =~= s.subrange(32, 40)
            &&& spec_u64_to_le_bytes(t.low) =~= s.subrange(40, 48)
            &&& spec_u64_to_le_bytes(t.last) =~= s.subrange(48, 56)
            &&& spec_u64_to_le_bytes(t.limit_down) =~= s.subrange(56, 64)
            &&& spec_u64_to_le_bytes(t.limit_up) =~= s.subrange(64, 72)
            &&& spec_u64_to_le_bytes(t.preclose) =~= s.subrange(72, 80)
            &&& spec_u64_to_le_bytes(t.close) =~= s.subrange(80, 88)
            &&& spec_u64_to_le_bytes(t.presettle) =~= s.subrange(88, 96)
            &&& spec_u64_to_le_bytes(t.settle) =~= s.subrange(96, 104)
            &&& spec_u64_to_le_bytes(t.preoi) =~= s.subrange(104, 112)
            &&& spec_u64_to_le_bytes(t.oi) =~= s.subrange(112, 120)
            &&& spec_i64_le(t.volume) =~= s.subrange(120, 128)
            &&& spec_u64_to_le_bytes(t.amount) =~= s.subrange(128, 136)
            &&& spec_u64_to_le_bytes(t.avgprice) =~= s.subrange(136, 144)
            &&& spec_u64_to_le_bytes(t.ap1) =~= s.subrange(144, 152)
            &&& spec_u64_to_le_bytes(t.ap2) =~= s.subrange(152, 160)
            &&& spec_u64_to_le_bytes(t.ap3) =~= s.subrange(160, 168)
            &&& spec_u64_to_le_bytes(t.ap4) =~= s.subrange(168, 176)
            &&& spec_u64_to_le_bytes(t.ap5) =~= s.subrange(176, 184)
            &&& spec_u64_to_le_bytes(t.bp1) =~= s.subrange(184, 192)
            &&& spec_u64_to_le_bytes(t.bp2) =~= s.subrange(192, 200)
            &&& spec_u64_to_le_bytes(t.bp3) =~= s.subrange(200, 208)
            &&& spec_u64_to_le_bytes(t.bp4) =~= s.subrange(208, 216)
            &&& spec_u64_to_le_bytes(t.bp5) =~= s.subrange(216, 224)
            &&& spec_i32_le(t.av1) =~= s.subrange(224, 228)
            &&& spec_i32_le(t.av2) =~= s.subrange(228, 232)
            &&& spec_i32_le(t.av3) =~= s.subrange(232, 236)
            &&& spec_i32_le(t.av4) =~= s.subrange(236, 240)
            &&& spec_i32_le(t.av5) =~= s.subrange(240, 244)
            &&& spec_i32_le(t.bv1) =~= s.subrange(244, 248)
            &&& spec_i32_le(t.bv2) =~= s.subrange(248, 252)
            &&& spec_i32_le(t.bv3) =~= s.subrange(252, 256)
            &&& spec_i32_le(t.bv4) =~= s.subrange(256, 260)
            &&& spec_i32_le(t.bv5) =~= s.subrange(260, 264)
            &&& spec_u64_to_le_bytes(t.adj) =~= s.subrange(264, 272)
        }),
{
    lemma_auto_spec_u64_to_from_le_bytes();
    lemma_auto_spec_u32_to_from_le_bytes();
}

} // verus!
