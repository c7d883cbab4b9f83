//! Accounting identities of a simulated account driven through the
//! library's verified fill machinery: the ledger decides which leg each
//! fill touches and how many lots move, the parameter selectors pick
//! the fee and margin pairs, and this file applies the documented money
//! formulas on top.

use cta_engine::fees::{fee_params, margin_params, ContractInfo};
use cta_engine::ledger::{fill_price, FillAction, PositionLots, Side};
use cta_engine::types::{DirectionType, OffsetFlagType};

fn info() -> ContractInfo {
    ContractInfo {
        contract_multiplier: 10.0f64.to_bits(),
        min_move: 1.0f64.to_bits(),
        open_fee_rate: 1e-4f64.to_bits(),
        open_fee_fixed: 0.5f64.to_bits(),
        close_fee_rate: 2e-4f64.to_bits(),
        close_fee_fixed: 1.0f64.to_bits(),
        close_today_fee_rate: 3e-4f64.to_bits(),
        close_today_fee_fixed: 2.0f64.to_bits(),
        long_margin_rate: 0.1f64.to_bits(),
        long_margin_fixed: 2.0f64.to_bits(),
        short_margin_rate: 0.12f64.to_bits(),
        short_margin_fixed: 5.0f64.to_bits(),
    }
}

/// A minimal account over the verified lot ledger, applying the design's
/// money formulas to the actions it returns.
struct Account {
    info: ContractInfo,
    init_cash: f64,
    cash: f64,
    lots: PositionLots,
    long_avg: f64,
    long_margin: f64,
    short_avg: f64,
    short_margin: f64,
    total_fee: f64,
    total_realized: f64,
}

impl Account {
    fn new(init_cash: f64, info: ContractInfo) -> Account {
        Account {
            info,
            init_cash,
            cash: init_cash,
            lots: PositionLots::new(),
            long_avg: 0.0,
            long_margin: 0.0,
            short_avg: 0.0,
            short_margin: 0.0,
            total_fee: 0.0,
            total_realized: 0.0,
        }
    }

    /// Applies one fill; returns (fee, margin_delta, realized).
    fn fill(
        &mut self,
        direction: DirectionType,
        offset: OffsetFlagType,
        lots: u32,
        ap1: f64,
        bp1: f64,
    ) -> (f64, f64, f64) {
        if direction == DirectionType::NONE || offset == OffsetFlagType::NONE {
            return (0.0, 0.0, 0.0);
        }
        let mult = f64::from_bits(self.info.contract_multiplier);
        let price = f64::from_bits(fill_price(direction, ap1.to_bits(), bp1.to_bits()));
        let (fr, ff) = fee_params(offset, &self.info);
        let fee = (f64::from_bits(fr) * price * mult + f64::from_bits(ff)) * lots as f64;
        self.total_fee += fee;
        self.cash -= fee;
        let (mr, mf) = margin_params(direction, &self.info);
        let (m_rate, m_fixed) = (f64::from_bits(mr), f64::from_bits(mf));
        match self.lots.apply_fill(direction, offset, lots) {
            FillAction::Ignored => (0.0, 0.0, 0.0),
            FillAction::Opened { side, prev_lots, new_lots } => {
                let (avg_slot, margin_slot) = match side {
                    Side::Long => (&mut self.long_avg, &mut self.long_margin),
                    Side::Short => (&mut self.short_avg, &mut self.short_margin),
                };
                let prev_margin = *margin_slot;
                let added = new_lots - prev_lots;
                *avg_slot = if new_lots == 0 {
                    0.0
                } else {
                    (*avg_slot * prev_lots as f64 + price * added as f64) / new_lots as f64
                };
                *margin_slot = (m_rate * *avg_slot * mult + m_fixed) * new_lots as f64;
                let delta = *margin_slot - prev_margin;
                self.cash -= delta;
                (fee, delta, 0.0)
            }
            FillAction::CloseIgnored { .. } => (fee, 0.0, 0.0),
            FillAction::Closed { side, closed_lots, remaining_lots } => {
                let (avg_slot, margin_slot) = match side {
                    Side::Long => (&mut self.long_avg, &mut self.long_margin),
                    Side::Short => (&mut self.short_avg, &mut self.short_margin),
                };
                let diff = match side {
                    Side::Long => price - *avg_slot,
                    Side::Short => *avg_slot - price,
                };
                let realized = diff * mult * closed_lots as f64;
                let released = (m_rate * price * mult + m_fixed) * closed_lots as f64;
                if remaining_lots == 0 {
                    *avg_slot = 0.0;
                    *margin_slot = 0.0;
                } else {
                    *margin_slot = (m_rate * *avg_slot * mult + m_fixed) * remaining_lots as f64;
                }
                self.cash += realized + released;
                self.total_realized += realized;
                (fee, -released, realized)
            }
        }
    }

    /// Equity against a last-trade price: cash + unrealized + margin.
    fn equity(&self, last: f64) -> f64 {
        let mult = f64::from_bits(self.info.contract_multiplier);
        let mut unreal = 0.0;
        let mut margin = 0.0;
        if let Some(l) = self.lots.long {
            unreal += (last - self.long_avg) * mult * l as f64;
            margin += self.long_margin;
        }
        if let Some(l) = self.lots.short {
            unreal += (self.short_avg - last) * mult * l as f64;
            margin += self.short_margin;
        }
        self.cash + unreal + margin
    }
}

#[test]
fn cash_moves_only_by_fee_margin_delta_and_realized_pnl() {
    let mut acct = Account::new(1e6, info());
    let fills = [
        (DirectionType::BUY, OffsetFlagType::OPEN, 2u32, 100.0, 99.0),
        (DirectionType::SELL, OffsetFlagType::OPEN, 1, 101.0, 100.0),
        (DirectionType::BUY, OffsetFlagType::CLOSE, 1, 102.0, 101.0),
        (DirectionType::BUY, OffsetFlagType::CLOSE, 5, 103.0, 102.0),
        (DirectionType::SELL, OffsetFlagType::CLOSE, 1, 104.0, 103.0),
        (DirectionType::NONE, OffsetFlagType::OPEN, 3, 105.0, 104.0),
    ];
    for &(d, o, l, ap1, bp1) in &fills {
        let before = acct.cash;
        let (fee, margin_delta, realized) = acct.fill(d, o, l, ap1, bp1);
        let after = acct.cash;
        let explained = -fee - margin_delta + realized;
        assert!(
            (after - before - explained).abs() < 1e-9,
            "cash moved by {} but fee/margin/P&L explain {}",
            after - before,
            explained
        );
    }
}

#[test]
fn balanced_sequence_is_conservative() {
    // every OPEN matched by a CLOSE of the same size at the same price
    // against the same direction: available_cash + realized + fees must
    // return to the initial cash
    let mut acct = Account::new(1e6, info());
    let px = 250.0;
    acct.fill(DirectionType::BUY, OffsetFlagType::OPEN, 3, px, px);
    acct.fill(DirectionType::SELL, OffsetFlagType::OPEN, 2, px, px);
    acct.fill(DirectionType::BUY, OffsetFlagType::CLOSE, 3, px, px);
    acct.fill(DirectionType::SELL, OffsetFlagType::CLOSE, 2, px, px);
    assert_eq!(acct.lots.long, None);
    assert_eq!(acct.lots.short, None);
    assert_eq!(acct.total_realized, 0.0);
    let balance = acct.cash + acct.total_realized + acct.total_fee;
    assert!(
        (balance - acct.init_cash).abs() < 1e-6,
        "conservation broken: {balance} vs {}",
        acct.init_cash
    );
}

#[test]
fn equity_is_cash_plus_unrealized_plus_margin() {
    let mut acct = Account::new(1e6, info());
    acct.fill(DirectionType::BUY, OffsetFlagType::OPEN, 2, 300.0, 299.0);
    let last = 305.0;
    let mult = 10.0;
    // flat components recomputed directly from the design formulas
    let unreal = (last - acct.long_avg) * mult * 2.0;
    let expected = acct.cash + unreal + acct.long_margin;
    assert_eq!(acct.equity(last), expected);
    // after a full close at the same price the equity equals the cash
    acct.fill(DirectionType::BUY, OffsetFlagType::CLOSE, 2, 305.0, 304.0);
    assert_eq!(acct.equity(last), acct.cash);
}
