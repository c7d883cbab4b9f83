use cta_engine::codec::{
    decode_order, decode_tick, encode_order, encode_tick, tick_frame_size_ok, ORDER_WIRE_BYTES,
    TICK_WIRE_BYTES,
};
use cta_engine::types::{DirectionType, NameType, OffsetFlagType, Order, SymbolType, TickData};

fn sample_tick() -> TickData {
    TickData {
        symbol: SymbolType::from("rb2505"),
        stamp: 1_700_000_000_123,
        open: 3300.0f64.to_bits(),
        high: 3350.5f64.to_bits(),
        low: 3280.0f64.to_bits(),
        last: 3333.5f64.to_bits(),
        limit_down: 3100.0f64.to_bits(),
        limit_up: 3500.0f64.to_bits(),
        preclose: 3290.0f64.to_bits(),
        close: f64::NAN.to_bits(),
        presettle: 3295.0f64.to_bits(),
        settle: f64::NAN.to_bits(),
        preoi: 100_000.0f64.to_bits(),
        oi: 100_500.0f64.to_bits(),
        volume: 987_654,
        amount: 3.2e9f64.to_bits(),
        avgprice: 3310.7f64.to_bits(),
        ap1: 3334.0f64.to_bits(),
        ap2: 3334.5f64.to_bits(),
        ap3: 3335.0f64.to_bits(),
        ap4: 3335.5f64.to_bits(),
        ap5: 3336.0f64.to_bits(),
        bp1: 3333.0f64.to_bits(),
        bp2: 3332.5f64.to_bits(),
        bp3: 3332.0f64.to_bits(),
        bp4: 3331.5f64.to_bits(),
        bp5: 3331.0f64.to_bits(),
        av1: 12,
        av2: 7,
        av3: 3,
        av4: 9,
        av5: 1,
        bv1: -1,
        bv2: 20,
        bv3: 5,
        bv4: 8,
        bv5: 2,
        adj: 1.0f64.to_bits(),
    }
}

#[test]
fn tick_frame_is_272_bytes() {
    let t = sample_tick();
    let bytes = encode_tick(&t);
    assert_eq!(bytes.len(), TICK_WIRE_BYTES);
    assert_eq!(bytes.len(), 272);
}

#[test]
fn tick_symbol_sits_at_offset_zero() {
    // topic filtering relies on the symbol bytes leading the frame
    let t = sample_tick();
    let bytes = encode_tick(&t);
    assert_eq!(&bytes[..16], &t.symbol.0[..]);
}

#[test]
fn tick_round_trips_through_the_wire() {
    let t = sample_tick();
    let bytes = encode_tick(&t);
    let back = decode_tick(&bytes);
    assert_eq!(back, t);
    let again = encode_tick(&back);
    assert_eq!(again, bytes);
}

#[test]
fn tick_fields_are_little_endian() {
    let t = sample_tick();
    let bytes = encode_tick(&t);
    assert_eq!(&bytes[16..24], &t.stamp.to_le_bytes());
    assert_eq!(&bytes[24..32], &t.open.to_le_bytes());
    assert_eq!(&bytes[120..128], &t.volume.to_le_bytes());
    assert_eq!(&bytes[224..228], &t.av1.to_le_bytes());
    assert_eq!(&bytes[264..272], &t.adj.to_le_bytes());
}

#[test]
fn frame_size_filter_accepts_exactly_272() {
    assert!(tick_frame_size_ok(272));
    assert!(!tick_frame_size_ok(271));
    assert!(!tick_frame_size_ok(273));
    assert!(!tick_frame_size_ok(0));
}

fn sample_order() -> Order {
    Order {
        stg_name: NameType::from("Aberration100"),
        symbol: SymbolType::from("MA505"),
        timestamp: -5,
        volume: 1,
        direction: DirectionType::SELL,
        offset: OffsetFlagType::CLOSE,
    }
}

#[test]
fn order_frame_is_64_bytes() {
    let o = sample_order();
    let bytes = encode_order(&o);
    assert_eq!(bytes.len(), ORDER_WIRE_BYTES);
    assert_eq!(bytes.len(), 64);
}

#[test]
fn order_round_trips_through_the_wire() {
    let o = sample_order();
    let bytes = encode_order(&o);
    let back = decode_order(&bytes).expect("valid frame");
    assert_eq!(back, o);
    assert_eq!(encode_order(&back), bytes);
}

#[test]
fn order_layout_matches_field_order() {
    let o = sample_order();
    let bytes = encode_order(&o);
    assert_eq!(&bytes[..32], &o.stg_name.0[..]);
    assert_eq!(&bytes[32..48], &o.symbol.0[..]);
    assert_eq!(&bytes[48..56], &o.timestamp.to_le_bytes());
    assert_eq!(&bytes[56..60], &o.volume.to_le_bytes());
    assert_eq!(bytes[60], 2); // SELL
    assert_eq!(bytes[61], 2); // CLOSE
    assert_eq!(&bytes[62..], &[0, 0]);
}

#[test]
fn order_with_invalid_direction_byte_is_refused() {
    let o = sample_order();
    let mut bytes = encode_order(&o);
    bytes[60] = 9;
    assert!(decode_order(&bytes).is_none());
    bytes[60] = 1;
    bytes[61] = 200;
    assert!(decode_order(&bytes).is_none());
}
