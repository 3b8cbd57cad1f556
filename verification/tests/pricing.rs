use monitor_rust::{
    snapshot_prices, update_rates, update_supply, ExchangeRateSet, FeedError, Rate, SupplySet,
};

fn rate(mantissa: u64, scale: u32) -> Rate {
    Rate { mantissa, scale }
}

fn sample_rates() -> ExchangeRateSet {
    let mut rates = ExchangeRateSet::new();
    rates.insert("uusd".to_string(), rate(123, 2));
    rates.insert("ukrw".to_string(), rate(456, 2));
    rates.insert("uluna".to_string(), rate(1, 0));
    rates
}

fn sample_supply() -> SupplySet {
    let mut supply = SupplySet::new();
    supply.insert("uusd".to_string(), 1000);
    supply.insert("uluna".to_string(), 500);
    supply
}

#[test]
fn snapshot_not_ready_before_first_poll() {
    let rates = ExchangeRateSet::new();
    let supply = SupplySet::new();
    assert!(matches!(snapshot_prices(&rates, &supply), Err(FeedError::NotReady)));
    // one side alone is not enough
    assert!(matches!(snapshot_prices(&sample_rates(), &supply), Err(FeedError::NotReady)));
    let rates = ExchangeRateSet::new();
    assert!(matches!(snapshot_prices(&rates, &sample_supply()), Err(FeedError::NotReady)));
}

#[test]
fn snapshot_two_records() {
    let prices = snapshot_prices(&sample_rates(), &sample_supply()).unwrap();
    assert_eq!(prices.prices.len(), 2);
    let mut seen: Vec<(String, Rate, u64)> = prices
        .prices
        .iter()
        .map(|p| (p.denom.clone(), p.price, p.volume))
        .collect();
    seen.sort_by(|a, b| a.0.cmp(&b.0));
    assert_eq!(
        seen,
        vec![
            ("uluna".to_string(), rate(1, 0), 500),
            ("uusd".to_string(), rate(123, 2), 1000),
        ]
    );
}

#[test]
fn snapshot_one_price_per_supply_denomination() {
    // ukrw is known to the rate map only: never emitted
    let prices = snapshot_prices(&sample_rates(), &sample_supply()).unwrap();
    assert!(prices.prices.iter().all(|p| p.denom != "ukrw"));
    // a supply denomination without a rate is emitted at rate zero
    let mut supply = sample_supply();
    supply.insert("umnt".to_string(), 7);
    let prices = snapshot_prices(&sample_rates(), &supply).unwrap();
    assert_eq!(prices.prices.len(), 3);
    let umnt = prices.prices.iter().find(|p| p.denom == "umnt").unwrap();
    assert_eq!(umnt.price, rate(0, 0));
    assert_eq!(umnt.volume, 7);
}

#[test]
fn empty_update_keeps_old_snapshot() {
    let mut rates = sample_rates();
    let mut supply = sample_supply();
    update_rates(&mut rates, ExchangeRateSet::new());
    update_supply(&mut supply, SupplySet::new());
    let prices = snapshot_prices(&rates, &supply).unwrap();
    assert_eq!(prices.prices.len(), 2);
    let uusd = prices.prices.iter().find(|p| p.denom == "uusd").unwrap();
    assert_eq!(uusd.price, rate(123, 2));
    assert_eq!(uusd.volume, 1000);
}

#[test]
fn nonempty_update_replaces_wholesale() {
    let mut rates = sample_rates();
    let mut fresh = ExchangeRateSet::new();
    fresh.insert("umnt".to_string(), rate(7, 0));
    update_rates(&mut rates, fresh);
    assert_eq!(rates.len(), 1);
    assert_eq!(rates.get("umnt"), Some(rate(7, 0)));
    assert_eq!(rates.get("uusd"), None);
}

#[test]
fn insert_overwrites_by_denomination() {
    let mut rates = ExchangeRateSet::new();
    rates.insert("uusd".to_string(), rate(1, 0));
    rates.insert("uusd".to_string(), rate(2, 0));
    assert_eq!(rates.len(), 1);
    assert_eq!(rates.get("uusd"), Some(rate(2, 0)));
    assert!(rates.is_empty() == false);
}

#[test]
fn error_texts() {
    assert_eq!(FeedError::MalformedPayload.as_text(), "malformed payload");
    assert_eq!(FeedError::MissingData.as_text(), "no data found");
    assert_eq!(FeedError::NotReady.as_text(), "cache not ready");
    assert_eq!(
        FeedError::SignalDeliveryFailed.as_text(),
        "failed to send stop signal"
    );
}
