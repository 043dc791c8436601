use vstd::prelude::*;

use crate::fixed::{parse_decimal, parsed_decimal};

verus! {

/// An inbound market-data event.
pub enum BinanceEvent {
    Trade(AggTrade),
    Depth(DepthUpdate),
}

/// An aggregated trade. `is_buyer_maker` holds when the seller took liquidity.
pub struct AggTrade {
    pub agg_id: u64,
    pub trade_time: u64,
    pub price: String,
    pub quantity: String,
    pub is_buyer_maker: bool,
}

/// A depth snapshot: price and quantity numerals per level, bids best first,
/// asks best first.
pub struct DepthUpdate {
    pub trans_time: u64,
    pub update_id: u64,
    pub bids: Vec<(String, String)>,
    pub asks: Vec<(String, String)>,
}

/// The fixed-point value of a decimal numeral written as text.
pub open spec fn decimal_text(s: Seq<char>) -> Option<u64> {
    parsed_decimal(vstd::utf8::encode_utf8(s))
}

/// Whether every price and quantity of `levels` is a numeral.
pub open spec fn levels_readable(levels: Seq<(String, String)>) -> bool {
    forall|i: int|
        0 <= i < levels.len() ==> decimal_text((#[trigger] levels[i]).0@).is_some() && decimal_text(
            levels[i].1@,
        ).is_some()
}

/// The fixed-point (price, quantity) pairs of readable `levels`.
pub open spec fn levels_value(levels: Seq<(String, String)>) -> Seq<(u64, u64)> {
    Seq::new(
        levels.len(),
        |i: int| (decimal_text(levels[i].0@).unwrap(), decimal_text(levels[i].1@).unwrap()),
    )
}

/// Parses a decimal numeral into fixed-point units.
pub fn parse_text(s: &String) -> (r: Option<u64>)
    ensures
        r == decimal_text(s@),
{
    parse_decimal(s.as_str())
}

/// Parses every level, or nothing if any numeral is malformed.
pub fn parse_levels(levels: &Vec<(String, String)>) -> (r: Option<Vec<(u64, u64)>>)
    ensures
        r.is_some() <==> levels_readable(levels@),
        r.is_some() ==> r.unwrap()@ == levels_value(levels@),
{
    let mut out: Vec<(u64, u64)> = Vec::new();
    let mut i: usize = 0;
    while i < levels.len()
        invariant
            i <= levels@.len(),
            levels_readable(levels@.subrange(0, i as int)),
            out@ == levels_value(levels@.subrange(0, i as int)),
        decreases levels.len() - i,
    {
        let p = parse_text(&levels[i].0);
        let q = parse_text(&levels[i].1);
        match (p, q) {
            (Some(p), Some(q)) => {
                out.push((p, q));
                i = i + 1;
                assert(out@ =~= levels_value(levels@.subrange(0, i as int)));
                assert(levels_readable(levels@.subrange(0, i as int))) by {
                    assert forall|j: int| 0 <= j < i implies decimal_text(
                        (#[trigger] levels@.subrange(0, i as int)[j]).0@,
                    ).is_some() && decimal_text(levels@.subrange(0, i as int)[j].1@).is_some() by {
                        if j < i - 1 {
                            assert(levels@.subrange(0, i as int)[j] == levels@.subrange(0, i - 1)[j]);
                        }
                    }
                }
            },
            _ => {
                assert(!levels_readable(levels@)) by {
                    assert(levels@[i as int] == levels[i as int]);
                }
                return None;
            },
        }
    }
    assert(levels@.subrange(0, levels@.len() as int) =~= levels@);
    Some(out)
}

impl AggTrade {
    /// The trade's (price, quantity) in fixed-point units, if both are numerals.
    pub fn parsed(&self) -> (r: Option<(u64, u64)>)
        ensures
            r.is_some() <==> decimal_text(self.price@).is_some() && decimal_text(self.quantity@).is_some(),
            r.is_some() ==> r.unwrap() == (decimal_text(self.price@).unwrap(), decimal_text(self.quantity@).unwrap()),
    {
        match (parse_text(&self.price), parse_text(&self.quantity)) {
            (Some(p), Some(q)) => Some((p, q)),
            _ => None,
        }
    }
}

impl DepthUpdate {
    /// The snapshot's bid and ask levels in fixed-point units, if every
    /// numeral is well formed.
    pub fn parsed_levels(&self) -> (r: Option<(Vec<(u64, u64)>, Vec<(u64, u64)>)>)
        ensures
            r.is_some() <==> levels_readable(self.bids@) && levels_readable(self.asks@),
            r.is_some() ==> r.unwrap().0@ == levels_value(self.bids@) && r.unwrap().1@ == levels_value(
                self.asks@,
            ),
    {
        match (parse_levels(&self.bids), parse_levels(&self.asks)) {
            (Some(b), Some(a)) => Some((b, a)),
            _ => None,
        }
    }
}

} // verus!
