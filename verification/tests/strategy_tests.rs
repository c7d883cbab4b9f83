//! The strategy capability from a user's side: a custom handler bound
//! to the trait, driven by decoded ticks.

use cta_engine::codec::{decode_tick, encode_tick};
use cta_engine::strategy::Strategy;
use cta_engine::types::{DirectionType, NameType, OffsetFlagType, Order, SymbolType, TickData};

/// Buys one lot on every tick whose last price is above a threshold.
struct Threshold {
    name: NameType,
    threshold: f64,
    ticks_seen: usize,
}

impl Strategy for Threshold {
    fn name(&self) -> NameType {
        self.name
    }

    fn update(&mut self, tick: &TickData) -> Option<Order> {
        self.ticks_seen += 1;
        if f64::from_bits(tick.last) > self.threshold {
            Some(Order {
                stg_name: self.name,
                symbol: tick.symbol,
                timestamp: tick.stamp,
                volume: 1,
                direction: DirectionType::BUY,
                offset: OffsetFlagType::OPEN,
            })
        } else {
            None
        }
    }
}

fn tick_with_last(last: f64) -> TickData {
    let mut t = TickData {
        symbol: SymbolType::from("rb2505"),
        stamp: 7,
        open: 0,
        high: 0,
        low: 0,
        last: last.to_bits(),
        limit_down: 0,
        limit_up: 0,
        preclose: 0,
        close: 0,
        presettle: 0,
        settle: 0,
        preoi: 0,
        oi: 0,
        volume: 0,
        amount: 0,
        avgprice: 0,
        ap1: 0,
        ap2: 0,
        ap3: 0,
        ap4: 0,
        ap5: 0,
        bp1: 0,
        bp2: 0,
        bp3: 0,
        bp4: 0,
        bp5: 0,
        av1: 0,
        av2: 0,
        av3: 0,
        av4: 0,
        av5: 0,
        bv1: 0,
        bv2: 0,
        bv3: 0,
        bv4: 0,
        bv5: 0,
        adj: 0,
    };
    t.avgprice = last.to_bits();
    t
}

#[test]
fn a_strategy_sees_each_tick_once_and_emits_at_most_one_order() {
    let mut stg = Threshold {
        name: NameType::from("Threshold"),
        threshold: 10.0,
        ticks_seen: 0,
    };
    let quiet = tick_with_last(5.0);
    assert!(stg.update(&quiet).is_none());
    let hot = tick_with_last(15.0);
    let order = stg.update(&hot).expect("above threshold");
    assert_eq!(order.direction, DirectionType::BUY);
    assert_eq!(order.offset, OffsetFlagType::OPEN);
    assert_eq!(order.volume, 1);
    assert_eq!(order.symbol, hot.symbol);
    assert_eq!(order.timestamp, hot.stamp);
    assert_eq!(stg.ticks_seen, 2);
}

#[test]
fn a_strategy_driven_by_wire_frames_sees_the_published_tick() {
    let mut stg = Threshold {
        name: NameType::from("Threshold"),
        threshold: 10.0,
        ticks_seen: 0,
    };
    let published = tick_with_last(12.5);
    let frame = encode_tick(&published);
    let received = decode_tick(&frame);
    let order = stg.update(&received).expect("above threshold");
    assert_eq!(order.symbol, published.symbol);
}
