//! Position bookkeeping: how a simulated fill changes the open lots.
//!
//! A tracker holds at most one long and one short position per contract.
//! The lot arithmetic and the choice of which leg a fill touches are
//! proved here; the money attached to a fill (price, fee, margin,
//! realized P&L) is floating point and stays with the caller, which
//! follows the returned `FillAction` verbatim. The direction itself
//! selects the leg for both opens and closes: a BUY close reduces the
//! long leg and a SELL close the short leg.

use vstd::prelude::*;

use crate::types::{DirectionType, OffsetFlagType};

verus! {

/// The leg of a position: long or short.
#[derive(Copy, Clone, Debug, PartialEq, Eq, Structural)]
pub enum Side {
    Long,
    Short,
}

/// The leg a direction trades on: BUY the long leg, SELL the short leg.
pub open spec fn side_of(d: DirectionType) -> Side
    recommends
        d != DirectionType::NONE,
{
    if d == DirectionType::BUY {
        Side::Long
    } else {
        Side::Short
    }
}

/// The lots of an optional position; absent means zero.
pub open spec fn lots_or_zero(p: Option<u32>) -> int {
    match p {
        Some(l) => l as int,
        None => 0,
    }
}

/// What a single fill did to the positions, for the caller to price.
#[derive(Copy, Clone, Debug, PartialEq, Eq, Structural)]
pub enum FillAction {
    /// Direction or offset was `NONE`: nothing changed, no fee is owed.
    Ignored,
    /// An open grew (or created) the `side` leg from `prev_lots` to
    /// `new_lots` lots.
    Opened { side: Side, prev_lots: u32, new_lots: u32 },
    /// A close hit an absent leg: positions unchanged, fee still owed.
    CloseIgnored { side: Side },
    /// A close took `closed_lots` off the `side` leg, leaving
    /// `remaining_lots`; at zero the leg is dropped.
    Closed { side: Side, closed_lots: u32, remaining_lots: u32 },
}

/// The open lots of both legs of one contract. `Some(l)` always has
/// `l >= 1`: a leg at zero lots is absent.
#[derive(Copy, Clone, Debug, PartialEq, Eq, Structural)]
pub struct PositionLots {
    pub long: Option<u32>,
    pub short: Option<u32>,
}

/// The lots of the `s` leg of `p`.
pub open spec fn side_lots(p: PositionLots, s: Side) -> Option<u32> {
    match s {
        Side::Long => p.long,
        Side::Short => p.short,
    }
}

impl PositionLots {
    /// No leg is present at zero lots.
    pub open spec fn wf(&self) -> bool {
        self.long != Some(0u32) && self.short != Some(0u32)
    }

    /// Both legs absent.
    pub fn new() -> (p: PositionLots)
        ensures
            p.wf(),
            p.long is None,
            p.short is None,
    {
        PositionLots { long: None, short: None }
    }

    /// Applies one fill: an OPEN grows the leg the direction trades on,
    /// a CLOSE shrinks it by at most its size, and a fill with direction
    /// or offset `NONE` is ignored. Returns what happened so the caller
    /// can price it.
    pub fn apply_fill(&mut self, direction: DirectionType, offset: OffsetFlagType, lots: u32) -> (a:
        FillAction)
        requires
            old(self).wf(),
            direction != DirectionType::NONE && offset == OffsetFlagType::OPEN ==> lots_or_zero(
                side_lots(*old(self), side_of(direction)),
            ) + lots <= u32::MAX,
        ensures
            final(self).wf(),
            (direction == DirectionType::NONE || offset == OffsetFlagType::NONE) ==> (a
                == FillAction::Ignored && *final(self) == *old(self)),
            (direction != DirectionType::NONE && offset != OffsetFlagType::NONE) ==> side_lots(
                *final(self),
                side_of(direction),
            ) == apply_leg_event(
                side_lots(*old(self), side_of(direction)),
                (offset == OffsetFlagType::OPEN, lots),
            ),
            (direction != DirectionType::NONE && offset == OffsetFlagType::OPEN) ==> {
                let s = side_of(direction);
                let prev = lots_or_zero(side_lots(*old(self), s));
                &&& a == (FillAction::Opened {
                    side: s,
                    prev_lots: prev as u32,
                    new_lots: (prev + lots) as u32,
                })
                &&& side_lots(*final(self), s) == (if prev + lots == 0 {
                    Option::<u32>::None
                } else {
                    Option::<u32>::Some((prev + lots) as u32)
                })
                &&& side_lots(*final(self), flip(s)) == side_lots(*old(self), flip(s))
            },
            (direction != DirectionType::NONE && offset == OffsetFlagType::CLOSE && side_lots(
                *old(self),
                side_of(direction),
            ) is None) ==> (a == (FillAction::CloseIgnored { side: side_of(direction) })
                && *final(self) == *old(self)),
            (direction != DirectionType::NONE && offset == OffsetFlagType::CLOSE) ==> (side_lots(
                *old(self),
                side_of(direction),
            ) matches Some(cur) ==> {
                let s = side_of(direction);
                let closed: int = if lots <= cur {
                    lots as int
                } else {
                    cur as int
                };
                let remaining: int = cur - closed;
                &&& a == (FillAction::Closed {
                    side: s,
                    closed_lots: closed as u32,
                    remaining_lots: remaining as u32,
                })
                &&& side_lots(*final(self), s) == (if remaining == 0 {
                    Option::<u32>::None
                } else {
                    Option::<u32>::Some(remaining as u32)
                })
                &&& side_lots(*final(self), flip(s)) == side_lots(*old(self), flip(s))
            }),
    {
        if direction == DirectionType::NONE || offset == OffsetFlagType::NONE {
            return FillAction::Ignored;
        }
        let long_side = direction == DirectionType::BUY;
        let cur: Option<u32> = if long_side {
            self.long
        } else {
            self.short
        };
        match offset {
            OffsetFlagType::OPEN => {
                let prev: u32 = match cur {
                    Some(l) => l,
                    None => 0,
                };
                let total = prev + lots;
                let slot: Option<u32> = if total == 0 {
                    None
                } else {
                    Some(total)
                };
                if long_side {
                    self.long = slot;
                } else {
                    self.short = slot;
                }
                FillAction::Opened {
                    side: if long_side {
                        Side::Long
                    } else {
                        Side::Short
                    },
                    prev_lots: prev,
                    new_lots: total,
                }
            },
            _ => {
                match cur {
                    None => FillAction::CloseIgnored {
                        side: if long_side {
                            Side::Long
                        } else {
                            Side::Short
                        },
                    },
                    Some(cur_lots) => {
                        let closed = if lots <= cur_lots {
                            lots
                        } else {
                            cur_lots
                        };
                        let remaining = cur_lots - closed;
                        let slot: Option<u32> = if remaining == 0 {
                            None
                        } else {
                            Some(remaining)
                        };
                        if long_side {
                            self.long = slot;
                        } else {
                            self.short = slot;
                        }
                        FillAction::Closed {
                            side: if long_side {
                                Side::Long
                            } else {
                                Side::Short
                            },
                            closed_lots: closed,
                            remaining_lots: remaining,
                        }
                    },
                }
            },
        }
    }
}

/// The other leg.
pub open spec fn flip(s: Side) -> Side {
    match s {
        Side::Long => Side::Short,
        Side::Short => Side::Long,
    }
}

/// The leg of `p` named by `s`, folded over a sequence of open sizes.
pub open spec fn open_seq(p: Option<u32>, opens: Seq<u32>) -> Option<u32>
    decreases opens.len(),
{
    if opens.len() == 0 {
        p
    } else {
        let prev = lots_or_zero(open_seq(p, opens.drop_last()));
        let total = prev + opens.last();
        if total == 0 {
            None
        } else {
            Some(total as u32)
        }
    }
}

/// The total size of a sequence of opens.
pub open spec fn sum_lots(opens: Seq<u32>) -> int
    decreases opens.len(),
{
    if opens.len() == 0 {
        0
    } else {
        sum_lots(opens.drop_last()) + opens.last()
    }
}

/// Opens only accumulate: after any sequence of opens on one leg the
/// leg holds exactly the lots it started with plus every open's size.
pub proof fn lemma_opens_accumulate(p: Option<u32>, opens: Seq<u32>)
    requires
        lots_or_zero(p) + sum_lots(opens) <= u32::MAX,
    ensures
        lots_or_zero(open_seq(p, opens)) == lots_or_zero(p) + sum_lots(opens),
    decreases opens.len(),
{
    if opens.len() > 0 {
        lemma_opens_accumulate(p, opens.drop_last());
    }
}

/// After any sequence of opens on an empty leg followed by one close of
/// at least the accumulated size, the close takes exactly the total
/// opened lots and the leg is gone.
pub proof fn lemma_opens_then_full_close(opens: Seq<u32>, close_lots: u32)
    requires
        sum_lots(opens) <= u32::MAX,
        close_lots >= sum_lots(opens),
    ensures
        ({
            let cur = open_seq(None, opens);
            match cur {
                None => true,
                Some(c) => {
                    let closed: int = if close_lots <= c {
                        close_lots as int
                    } else {
                        c as int
                    };
                    closed == sum_lots(opens) && c - closed == 0
                },
            }
        }),
{
    lemma_sum_lots_nonneg(opens);
    lemma_opens_accumulate(None, opens);
}

/// A sequence of opens never totals a negative size.
pub proof fn lemma_sum_lots_nonneg(opens: Seq<u32>)
    ensures
        sum_lots(opens) >= 0,
    decreases opens.len(),
{
    if opens.len() > 0 {
        lemma_sum_lots_nonneg(opens.drop_last());
    }
}

/// One open (`true`) or close (`false`) of some size on one leg.
pub type LegEvent = (bool, u32);

/// The leg after one event: an open adds its lots, a close removes at
/// most the current lots; a leg at zero is absent.
pub open spec fn apply_leg_event(p: Option<u32>, ev: LegEvent) -> Option<u32> {
    let cur = lots_or_zero(p);
    let next = if ev.0 {
        cur + ev.1
    } else if ev.1 <= cur {
        cur - ev.1
    } else {
        0
    };
    if next == 0 {
        None
    } else {
        Some(next as u32)
    }
}

/// The leg after a sequence of events, first to last.
pub open spec fn leg_after(p: Option<u32>, evs: Seq<LegEvent>) -> Option<u32>
    decreases evs.len(),
{
    if evs.len() == 0 {
        p
    } else {
        apply_leg_event(leg_after(p, evs.drop_last()), evs.last())
    }
}

/// Total size of the opens among the events.
pub open spec fn opened_lots(evs: Seq<LegEvent>) -> int
    decreases evs.len(),
{
    if evs.len() == 0 {
        0
    } else {
        opened_lots(evs.drop_last()) + if evs.last().0 {
            evs.last().1 as int
        } else {
            0
        }
    }
}

/// Total size of the closes among the events.
pub open spec fn closed_lots(evs: Seq<LegEvent>) -> int
    decreases evs.len(),
{
    if evs.len() == 0 {
        0
    } else {
        closed_lots(evs.drop_last()) + if evs.last().0 {
            0
        } else {
            evs.last().1 as int
        }
    }
}

/// In a balanced sequence no prefix closes more than it has opened.
pub open spec fn never_over_closes(evs: Seq<LegEvent>) -> bool {
    forall|i: int|
        0 <= i <= evs.len() ==> closed_lots(#[trigger] evs.subrange(0, i)) <= opened_lots(
            evs.subrange(0, i),
        )
}

/// While no prefix over-closes, the leg holds exactly the opened lots
/// minus the closed ones.
pub proof fn lemma_leg_holds_net_lots(evs: Seq<LegEvent>)
    requires
        never_over_closes(evs),
        opened_lots(evs) <= u32::MAX,
    ensures
        lots_or_zero(leg_after(None, evs)) == opened_lots(evs) - closed_lots(evs),
    decreases evs.len(),
{
    if evs.len() > 0 {
        let head = evs.drop_last();
        assert forall|i: int|
            0 <= i <= head.len() implies closed_lots(#[trigger] head.subrange(0, i))
            <= opened_lots(head.subrange(0, i)) by {
            assert(head.subrange(0, i) =~= evs.subrange(0, i));
        }
        lemma_opened_monotone(evs);
        lemma_lots_sums_nonneg(evs);
        lemma_lots_sums_nonneg(head);
        lemma_leg_holds_net_lots(head);
        assert(evs.subrange(0, evs.len() as int) =~= evs);
        assert(evs.subrange(0, evs.len() - 1) =~= head);
    }
}

/// Opened and closed totals are never negative.
proof fn lemma_lots_sums_nonneg(evs: Seq<LegEvent>)
    ensures
        opened_lots(evs) >= 0,
        closed_lots(evs) >= 0,
    decreases evs.len(),
{
    if evs.len() > 0 {
        lemma_lots_sums_nonneg(evs.drop_last());
    }
}

/// Every balanced sequence — every open matched by a close and no
/// prefix closing more than was open — leaves the leg absent.
pub proof fn lemma_balanced_sequence_flattens(evs: Seq<LegEvent>)
    requires
        never_over_closes(evs),
        opened_lots(evs) <= u32::MAX,
        closed_lots(evs) == opened_lots(evs),
    ensures
        leg_after(None, evs) is None,
{
    lemma_leg_holds_net_lots(evs);
}

/// A prefix never opens more than the whole sequence does.
proof fn lemma_opened_monotone(evs: Seq<LegEvent>)
    requires
        evs.len() > 0,
    ensures
        opened_lots(evs.drop_last()) <= opened_lots(evs),
{
}

/// The price a marketable order fills at: a BUY lifts the best ask, a
/// SELL hits the best bid.
pub fn fill_price(direction: DirectionType, ap1: u64, bp1: u64) -> (p: u64)
    requires
        direction != DirectionType::NONE,
    ensures
        direction == DirectionType::BUY ==> p == ap1,
        direction == DirectionType::SELL ==> p == bp1,
{
    if direction == DirectionType::BUY {
        ap1
    } else {
        bp1
    }
}

} // verus!
