use tarkov_discord_bot::error::RecordError;
use tarkov_discord_bot::pricing::{aggregate, best_vendor_offer, DetailedItem, SellOffer, OPEN_MARKET};

fn offer(vendor: &str, price: i64) -> SellOffer {
    SellOffer { vendor: vendor.to_string(), price }
}

fn detailed(offers: Option<Vec<SellOffer>>) -> DetailedItem {
    DetailedItem {
        base_price: Some(11000),
        last_low_price: Some(9500),
        avg24h_price: Some(10200),
        link: Some("https://tarkov.dev/item/mayonnaise".to_string()),
        icon_link: Some("https://assets.tarkov.dev/mayo-icon.jpg".to_string()),
        name: Some("Mayonnaise".to_string()),
        sell_for: offers,
    }
}

fn sample_offers() -> Vec<SellOffer> {
    vec![offer("Flea Market", 5000), offer("Prapor", 3200), offer("Therapist", 4100)]
}

#[test]
fn best_vendor_skips_open_market() {
    let (price, vendor) = best_vendor_offer(&sample_offers(), "Flea Market");
    assert_eq!(price, 4100);
    assert_eq!(vendor, "Therapist");
}

#[test]
fn aggregate_sample_offers() {
    let info = aggregate(detailed(Some(sample_offers()))).unwrap();
    assert_eq!(info.vendor_price, 4100);
    assert_eq!(info.vendor, "Therapist");
    assert_eq!(info.base_price, 11000);
    assert_eq!(info.low_price, 9500);
    assert_eq!(info.avg_price, 10200);
    assert_eq!(info.link, "https://tarkov.dev/item/mayonnaise");
    assert_eq!(info.icon_link, "https://assets.tarkov.dev/mayo-icon.jpg");
    assert_eq!(info.name, "Mayonnaise");
}

#[test]
fn empty_offer_list_gives_no_vendor() {
    let info = aggregate(detailed(Some(vec![]))).unwrap();
    assert_eq!(info.vendor_price, 0);
    assert_eq!(info.vendor, "");
    let (price, vendor) = best_vendor_offer(&vec![], OPEN_MARKET);
    assert_eq!(price, 0);
    assert_eq!(vendor, "");
}

#[test]
fn open_market_ignored_even_when_highest() {
    let only_market = vec![offer("Flea Market", 90000)];
    let info = aggregate(detailed(Some(only_market))).unwrap();
    assert_eq!(info.vendor_price, 0);
    assert_eq!(info.vendor, "");
    let mixed = vec![offer("Mechanic", 100), offer("Flea Market", 90000), offer("Jaeger", 200)];
    let info = aggregate(detailed(Some(mixed))).unwrap();
    assert_eq!(info.vendor_price, 200);
    assert_eq!(info.vendor, "Jaeger");
}

#[test]
fn excluded_channel_is_a_parameter() {
    let (price, vendor) = best_vendor_offer(&sample_offers(), "Therapist");
    assert_eq!(price, 5000);
    assert_eq!(vendor, "Flea Market");
}

#[test]
fn equal_best_prices_keep_first_offer() {
    let offers = vec![offer("Skier", 700), offer("Peacekeeper", 700), offer("Ragman", 300)];
    let (price, vendor) = best_vendor_offer(&offers, OPEN_MARKET);
    assert_eq!(price, 700);
    assert_eq!(vendor, "Skier");
}

#[test]
fn zero_price_offer_counts_as_none() {
    let offers = vec![offer("Fence", 0)];
    let (price, vendor) = best_vendor_offer(&offers, OPEN_MARKET);
    assert_eq!(price, 0);
    assert_eq!(vendor, "");
}

#[test]
fn missing_name_fails() {
    let mut item = detailed(Some(sample_offers()));
    item.name = None;
    assert_eq!(aggregate(item).err(), Some(RecordError::MissingRequiredField));
}

#[test]
fn missing_low_price_defaults_to_zero() {
    let mut item = detailed(Some(sample_offers()));
    item.last_low_price = None;
    let info = aggregate(item).unwrap();
    assert_eq!(info.low_price, 0);
    assert_eq!(info.avg_price, 10200);
    let mut item = detailed(Some(sample_offers()));
    item.avg24h_price = None;
    assert_eq!(aggregate(item).unwrap().avg_price, 0);
}

#[test]
fn each_required_field_is_checked() {
    let mut item = detailed(Some(sample_offers()));
    item.link = None;
    assert_eq!(aggregate(item).err(), Some(RecordError::MissingRequiredField));
    let mut item = detailed(Some(sample_offers()));
    item.icon_link = None;
    assert_eq!(aggregate(item).err(), Some(RecordError::MissingRequiredField));
    let mut item = detailed(Some(sample_offers()));
    item.base_price = None;
    assert_eq!(aggregate(item).err(), Some(RecordError::MissingRequiredField));
    assert_eq!(aggregate(detailed(None)).err(), Some(RecordError::MissingRequiredField));
}
