//! Summary of a detailed item record: its prices and its best vendor offer.

use vstd::prelude::*;
use crate::error::RecordError;

verus! {

/// The open-market channel. Its offers are a reference price, not a vendor
/// price, and never count as the best vendor offer.
pub const OPEN_MARKET: &'static str = "Flea Market";

/// One buyer's offer for an item.
#[derive(Debug)]
pub struct SellOffer {
    pub vendor: String,
    pub price: i64,
}

/// A detailed item record as the catalog service delivers it; any field may be absent.
#[derive(Debug)]
pub struct DetailedItem {
    pub base_price: Option<i64>,
    pub last_low_price: Option<i64>,
    pub avg24h_price: Option<i64>,
    pub link: Option<String>,
    pub icon_link: Option<String>,
    pub name: Option<String>,
    pub sell_for: Option<Vec<SellOffer>>,
}

/// The display-ready summary of one item.
#[derive(Debug)]
pub struct ItemInfo {
    pub base_price: i64,
    pub low_price: i64,
    pub avg_price: i64,
    pub link: String,
    pub icon_link: String,
    pub name: String,
    pub vendor_price: i64,
    pub vendor: String,
}

/// The best offer among `offers` from a vendor other than `excluded`, scanning in
/// order and keeping the first offer of the highest price above zero; `(0, "")`
/// when there is none.
pub open spec fn best_offer(offers: Seq<SellOffer>, excluded: Seq<char>) -> (int, Seq<char>)
    decreases offers.len(),
{
    if offers.len() == 0 {
        (0, Seq::empty())
    } else {
        let prev = best_offer(offers.drop_last(), excluded);
        let last = offers.last();
        if last.vendor@ != excluded && last.price > prev.0 {
            (last.price as int, last.vendor@)
        } else {
            prev
        }
    }
}

/// The offers of `offers` that do not come from `excluded`.
pub open spec fn without_channel(offers: Seq<SellOffer>, excluded: Seq<char>) -> Seq<SellOffer>
    decreases offers.len(),
{
    if offers.len() == 0 {
        offers
    } else {
        let kept = without_channel(offers.drop_last(), excluded);
        if offers.last().vendor@ != excluded {
            kept.push(offers.last())
        } else {
            kept
        }
    }
}

/// Offers of the excluded channel never change the best offer, however high
/// they are: dropping them all leaves the result as it was.
pub proof fn excluded_channel_is_ignored(offers: Seq<SellOffer>, excluded: Seq<char>)
    ensures
        best_offer(offers, excluded) == best_offer(without_channel(offers, excluded), excluded),
    decreases offers.len(),
{
    if offers.len() > 0 {
        let rest = offers.drop_last();
        excluded_channel_is_ignored(rest, excluded);
        let kept = without_channel(rest, excluded);
        if offers.last().vendor@ != excluded {
            assert(kept.push(offers.last()).drop_last() =~= kept);
        }
    }
}

/// The best offer is at least every offer of another channel, and is either
/// `(0, "")` or the price and vendor of one such offer.
pub proof fn best_offer_is_highest(offers: Seq<SellOffer>, excluded: Seq<char>)
    ensures
        forall|i: int|
            0 <= i < offers.len() && (#[trigger] offers[i]).vendor@ != excluded ==> offers[i].price
                <= best_offer(offers, excluded).0,
        best_offer(offers, excluded) == (0int, Seq::<char>::empty()) || exists|i: int|
            0 <= i < offers.len() && (#[trigger] offers[i]).vendor@ != excluded
                && best_offer(offers, excluded) == (offers[i].price as int, offers[i].vendor@),
    decreases offers.len(),
{
    if offers.len() > 0 {
        let rest = offers.drop_last();
        best_offer_is_highest(rest, excluded);
        let n = offers.len() - 1;
        assert forall|i: int|
            0 <= i < offers.len() && (#[trigger] offers[i]).vendor@ != excluded implies offers[i].price
                <= best_offer(offers, excluded).0 by {
            if i < n {
                assert(rest[i] == offers[i]);
            }
        }
        if best_offer(offers, excluded) != (0int, Seq::<char>::empty()) {
            if best_offer(offers, excluded) == best_offer(rest, excluded) {
                let i = choose|i: int|
                    0 <= i < rest.len() && (#[trigger] rest[i]).vendor@ != excluded
                        && best_offer(rest, excluded) == (rest[i].price as int, rest[i].vendor@);
                assert(offers[i] == rest[i]);
            } else {
                assert(offers[n] == offers.last());
            }
        }
    }
}

/// The value of an optional price, zero when it is absent.
pub open spec fn or_zero(p: Option<i64>) -> i64 {
    match p {
        Some(v) => v,
        None => 0,
    }
}

/// Every field that a summary cannot do without is present.
pub open spec fn has_required_fields(item: DetailedItem) -> bool {
    &&& item.base_price is Some
    &&& item.link is Some
    &&& item.icon_link is Some
    &&& item.name is Some
    &&& item.sell_for is Some
}

/// `info` is the summary of `item`: its prices and texts carried over, absent
/// optional prices read as zero, and the best offer of any channel but the open market.
pub open spec fn summarizes(item: DetailedItem, info: ItemInfo) -> bool {
    &&& info.base_price == item.base_price->0
    &&& info.low_price == or_zero(item.last_low_price)
    &&& info.avg_price == or_zero(item.avg24h_price)
    &&& info.link@ == item.link->0@
    &&& info.icon_link@ == item.icon_link->0@
    &&& info.name@ == item.name->0@
    &&& (info.vendor_price as int, info.vendor@) == best_offer(item.sell_for->0@, OPEN_MARKET@)
}

/// The summary of `item`; fails with `MissingRequiredField` when the base price,
/// the link, the icon link, the name or the offer list is absent.
pub fn aggregate(item: DetailedItem) -> (r: Result<ItemInfo, RecordError>)
    ensures
        r is Ok <==> has_required_fields(item),
        r matches Ok(info) ==> summarizes(item, info),
        r matches Err(e) ==> e == RecordError::MissingRequiredField,
        r matches Ok(info) ==> (item.sell_for->0@.len() == 0 ==> info.vendor_price == 0
            && info.vendor@.len() == 0),
{
    let low_price = match item.last_low_price {
        Some(p) => p,
        None => 0,
    };
    let avg_price = match item.avg24h_price {
        Some(p) => p,
        None => 0,
    };
    match (item.base_price, item.link, item.icon_link, item.name, item.sell_for) {
        (Some(base_price), Some(link), Some(icon_link), Some(name), Some(offers)) => {
            let (vendor_price, vendor) = best_vendor_offer(&offers, OPEN_MARKET);
            Ok(ItemInfo { base_price, low_price, avg_price, link, icon_link, name, vendor_price, vendor })
        },
        _ => Err(RecordError::MissingRequiredField),
    }
}

/// The best vendor offer of `offers`, leaving out those of `excluded`.
pub fn best_vendor_offer(offers: &Vec<SellOffer>, excluded: &str) -> (r: (i64, String))
    ensures
        (r.0 as int, r.1@) == best_offer(offers@, excluded@),
        offers@.len() == 0 ==> r.0 == 0 && r.1@.len() == 0,
{
    let excluded_name = excluded.to_owned();
    let mut best_price: i64 = 0;
    let mut best_vendor = String::new();
    let mut k: usize = 0;
    while k < offers.len()
        invariant
            k <= offers@.len(),
            excluded_name@ == excluded@,
            (best_price as int, best_vendor@) == best_offer(offers@.subrange(0, k as int), excluded@),
        decreases offers@.len() - k,
    {
        assert(offers@.subrange(0, k as int + 1).drop_last() =~= offers@.subrange(0, k as int));
        let offer = &offers[k];
        if offer.vendor != excluded_name && offer.price > best_price {
            best_price = offer.price;
            best_vendor = offer.vendor.clone();
        }
        k += 1;
    }
    assert(offers@.subrange(0, offers@.len() as int) =~= offers@);
    (best_price, best_vendor)
}

} // verus!
