use fincept_stream::monitor::{
    apply_operator, extract_value, MonitorCondition, MonitorField, MonitorOperator,
    MonitoringService,
};
use fincept_stream::types::TickerData;

fn ticker(provider: &str, symbol: &str, price: i64) -> TickerData {
    TickerData {
        provider: provider.to_string(),
        symbol: symbol.to_string(),
        price,
        volume: None,
        bid: None,
        ask: None,
        bid_size: None,
        ask_size: None,
        high: None,
        low: None,
        open: None,
        close: None,
        change: None,
        change_percent: None,
        timestamp: 0,
    }
}

fn condition(
    id: i64,
    field: MonitorField,
    operator: MonitorOperator,
    value: i64,
    value2: Option<i64>,
) -> MonitorCondition {
    MonitorCondition {
        id: Some(id),
        provider: "acme".to_string(),
        symbol: "BTCUSD".to_string(),
        field,
        operator,
        value,
        value2,
        enabled: true,
    }
}

fn service_with(c: MonitorCondition) -> MonitoringService {
    let mut svc = MonitoringService::new();
    svc.install_conditions(vec![c]);
    svc
}

#[test]
fn price_threshold_fires_once_per_crossing() {
    let mut svc = service_with(condition(
        1,
        MonitorField::Price,
        MonitorOperator::GreaterThan,
        50000,
        None,
    ));
    // 50001 > 50000: exactly one alert, carrying the extracted value
    let alerts = svc.evaluate_ticker(&ticker("acme", "BTCUSD", 50001), 7);
    assert_eq!(alerts.len(), 1);
    assert_eq!(alerts[0].condition_id, 1);
    assert_eq!(alerts[0].triggered_value, 50001);
    assert_eq!(alerts[0].triggered_at, 7);
    // still above the threshold, no intervening drop: no second alert
    let alerts = svc.evaluate_ticker(&ticker("acme", "BTCUSD", 50002), 8);
    assert_eq!(alerts.len(), 0);
    // drop below re-arms, the next crossing fires exactly once more
    let alerts = svc.evaluate_ticker(&ticker("acme", "BTCUSD", 49000), 9);
    assert_eq!(alerts.len(), 0);
    let alerts = svc.evaluate_ticker(&ticker("acme", "BTCUSD", 50500), 10);
    assert_eq!(alerts.len(), 1);
    assert_eq!(alerts[0].triggered_value, 50500);
}

#[test]
fn other_provider_or_symbol_is_ignored() {
    let mut svc = service_with(condition(
        1,
        MonitorField::Price,
        MonitorOperator::GreaterThan,
        50000,
        None,
    ));
    assert!(svc.evaluate_ticker(&ticker("binance", "BTCUSD", 60000), 1).is_empty());
    assert!(svc.evaluate_ticker(&ticker("acme", "ETHUSD", 60000), 2).is_empty());
    assert_eq!(svc.evaluate_ticker(&ticker("acme", "BTCUSD", 60000), 3).len(), 1);
}

#[test]
fn disabled_conditions_never_fire() {
    let mut c = condition(1, MonitorField::Price, MonitorOperator::GreaterThan, 0, None);
    c.enabled = false;
    let mut svc = service_with(c);
    assert!(svc.evaluate_ticker(&ticker("acme", "BTCUSD", 100), 1).is_empty());
}

#[test]
fn between_is_inclusive_on_both_bounds() {
    for (volume, fires) in [(150, true), (99, false), (201, false), (100, true), (200, true)] {
        let mut svc = service_with(condition(
            1,
            MonitorField::Volume,
            MonitorOperator::Between,
            100,
            Some(200),
        ));
        let mut t = ticker("acme", "BTCUSD", 1);
        t.volume = Some(volume);
        let alerts = svc.evaluate_ticker(&t, 1);
        assert_eq!(alerts.len() == 1, fires, "volume {}", volume);
    }
}

#[test]
fn spread_without_bid_is_skipped() {
    let mut svc = service_with(condition(
        1,
        MonitorField::Spread,
        MonitorOperator::GreaterThanOrEqual,
        0,
        None,
    ));
    let mut t = ticker("acme", "BTCUSD", 1);
    t.bid = None;
    t.ask = Some(100);
    // the comparison would hold of any number, but the field is absent:
    // skipped, no match, no crash
    assert!(svc.evaluate_ticker(&t, 1).is_empty());
    // with both sides present the spread is ask - bid
    t.bid = Some(90);
    let alerts = svc.evaluate_ticker(&t, 2);
    assert_eq!(alerts.len(), 1);
    assert_eq!(alerts[0].triggered_value, 10);
}

#[test]
fn skipped_tick_does_not_rearm_or_fire() {
    let mut svc = service_with(condition(
        1,
        MonitorField::Volume,
        MonitorOperator::GreaterThan,
        10,
        None,
    ));
    let mut t = ticker("acme", "BTCUSD", 1);
    t.volume = Some(50);
    assert_eq!(svc.evaluate_ticker(&t, 1).len(), 1);
    // a tick without the field leaves the trigger state untouched
    t.volume = None;
    assert!(svc.evaluate_ticker(&t, 2).is_empty());
    t.volume = Some(60);
    assert!(svc.evaluate_ticker(&t, 3).is_empty(), "still armed from the first crossing");
}

#[test]
fn reload_swaps_the_whole_set_and_keeps_trigger_state() {
    let mut svc = service_with(condition(
        1,
        MonitorField::Price,
        MonitorOperator::GreaterThan,
        100,
        None,
    ));
    assert_eq!(svc.evaluate_ticker(&ticker("acme", "BTCUSD", 150), 1).len(), 1);
    // reload with the same condition (same id): the recorded state
    // survives, so the next satisfied tick still does not re-fire
    svc.install_conditions(vec![condition(
        1,
        MonitorField::Price,
        MonitorOperator::GreaterThan,
        100,
        None,
    )]);
    assert!(svc.evaluate_ticker(&ticker("acme", "BTCUSD", 160), 2).is_empty());
    // a reload to a fresh id evaluates as the new set, in full
    svc.install_conditions(vec![condition(
        2,
        MonitorField::Price,
        MonitorOperator::LessThan,
        200,
        None,
    )]);
    let alerts = svc.evaluate_ticker(&ticker("acme", "BTCUSD", 160), 3);
    assert_eq!(alerts.len(), 1);
    assert_eq!(alerts[0].condition_id, 2);
}

#[test]
fn operators_compare_as_stated() {
    assert!(apply_operator(MonitorOperator::GreaterThan, 5, 4, None));
    assert!(!apply_operator(MonitorOperator::GreaterThan, 4, 4, None));
    assert!(apply_operator(MonitorOperator::LessThan, 3, 4, None));
    assert!(!apply_operator(MonitorOperator::LessThan, 4, 4, None));
    assert!(apply_operator(MonitorOperator::GreaterThanOrEqual, 4, 4, None));
    assert!(!apply_operator(MonitorOperator::GreaterThanOrEqual, 3, 4, None));
    assert!(apply_operator(MonitorOperator::LessThanOrEqual, 4, 4, None));
    assert!(!apply_operator(MonitorOperator::LessThanOrEqual, 5, 4, None));
    assert!(apply_operator(MonitorOperator::Equal, 4, 4, None));
    assert!(!apply_operator(MonitorOperator::Equal, 5, 4, None));
    assert!(apply_operator(MonitorOperator::Between, 5, 4, Some(6)));
    assert!(!apply_operator(MonitorOperator::Between, 7, 4, Some(6)));
    // a Between without its upper bound matches nothing
    assert!(!apply_operator(MonitorOperator::Between, 5, 4, None));
}

#[test]
fn extract_value_reads_the_configured_field() {
    let mut t = ticker("acme", "BTCUSD", 123);
    t.volume = Some(9);
    t.change_percent = Some(-250);
    t.bid = Some(100);
    t.ask = Some(103);
    assert_eq!(extract_value(MonitorField::Price, &t), Some(123));
    assert_eq!(extract_value(MonitorField::Volume, &t), Some(9));
    assert_eq!(extract_value(MonitorField::ChangePercent, &t), Some(-250));
    assert_eq!(extract_value(MonitorField::Spread, &t), Some(3));
    t.ask = None;
    assert_eq!(extract_value(MonitorField::Spread, &t), None);
}

#[test]
fn field_and_operator_tokens_round_trip() {
    for f in [
        MonitorField::Price,
        MonitorField::Volume,
        MonitorField::ChangePercent,
        MonitorField::Spread,
    ] {
        assert_eq!(MonitorField::from_str(f.as_str()), Some(f));
    }
    for op in [
        MonitorOperator::GreaterThan,
        MonitorOperator::LessThan,
        MonitorOperator::GreaterThanOrEqual,
        MonitorOperator::LessThanOrEqual,
        MonitorOperator::Equal,
        MonitorOperator::Between,
    ] {
        assert_eq!(MonitorOperator::from_str(op.as_str()), Some(op));
    }
    assert_eq!(MonitorField::from_str("prices"), None);
    assert_eq!(MonitorOperator::from_str("=>"), None);
}

#[test]
fn conditions_are_tried_in_working_set_order() {
    let mut svc = MonitoringService::new();
    svc.install_conditions(vec![
        condition(1, MonitorField::Price, MonitorOperator::GreaterThan, 10, None),
        condition(2, MonitorField::Price, MonitorOperator::GreaterThan, 20, None),
    ]);
    let alerts = svc.evaluate_ticker(&ticker("acme", "BTCUSD", 100), 1);
    assert_eq!(alerts.len(), 2);
    assert_eq!(alerts[0].condition_id, 1);
    assert_eq!(alerts[1].condition_id, 2);
}
