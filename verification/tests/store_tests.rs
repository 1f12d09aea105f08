use fincept_stream::monitor::{MonitorCondition, MonitorField, MonitorOperator, MonitoringService};
use fincept_stream::store::{
    add_condition, delete_condition, get_all_settings, get_credentials, get_llm_configs,
    get_provider_config, get_ws_provider_configs, list_alerts, list_conditions,
    open_memory_store, save_credential, save_llm_config, save_setting, upsert_provider_config,
    LLMConfig,
};
use fincept_stream::types::{ProviderConfig, TickerData, WsError};

fn condition(value: i64) -> MonitorCondition {
    MonitorCondition {
        id: None,
        provider: "acme".to_string(),
        symbol: "BTCUSD".to_string(),
        field: MonitorField::Price,
        operator: MonitorOperator::GreaterThan,
        value,
        value2: None,
        enabled: true,
    }
}

fn ticker(price: i64) -> TickerData {
    TickerData {
        provider: "acme".to_string(),
        symbol: "BTCUSD".to_string(),
        price,
        volume: None,
        bid: None,
        ask: None,
        bid_size: None,
        ask_size: None,
        high: None,
        low: None,
        open: None,
        close: None,
        change: None,
        change_percent: None,
        timestamp: 0,
    }
}

#[test]
fn conditions_round_trip_through_the_store() {
    let conn = open_memory_store().unwrap();
    let id = add_condition(&conn, &condition(50000)).unwrap();
    assert_eq!(id, 1);
    let conds = list_conditions(&conn).unwrap();
    assert_eq!(conds.len(), 1);
    let c = &conds[0];
    assert_eq!(c.id, Some(1));
    assert_eq!(c.provider, "acme");
    assert_eq!(c.symbol, "BTCUSD");
    assert_eq!(c.field, MonitorField::Price);
    assert_eq!(c.operator, MonitorOperator::GreaterThan);
    assert_eq!(c.value, 50000);
    assert_eq!(c.value2, None);
    assert!(c.enabled);
    delete_condition(&conn, 1).unwrap();
    assert!(list_conditions(&conn).unwrap().is_empty());
}

#[test]
fn between_without_upper_bound_is_invalid() {
    let conn = open_memory_store().unwrap();
    let mut c = condition(100);
    c.operator = MonitorOperator::Between;
    match add_condition(&conn, &c) {
        Err(WsError::InvalidCondition(_)) => {}
        _ => panic!("expected InvalidCondition"),
    }
    // and an upper bound without Between is invalid too
    let mut c = condition(100);
    c.value2 = Some(200);
    match add_condition(&conn, &c) {
        Err(WsError::InvalidCondition(_)) => {}
        _ => panic!("expected InvalidCondition"),
    }
}

#[test]
fn a_malformed_row_is_skipped_not_fatal() {
    let conn = open_memory_store().unwrap();
    add_condition(&conn, &condition(1)).unwrap();
    // a row written by some other tool with an unknown field token
    conn.execute(
        "INSERT INTO monitor_conditions (provider, symbol, field, operator, value, value2, enabled) VALUES (?1, ?2, ?3, ?4, ?5, ?6, ?7)",
        ("acme", "BTCUSD", "open_interest", ">", 5i64, None::<i64>, 1i64),
    )
    .unwrap();
    add_condition(&conn, &condition(2)).unwrap();
    let conds = list_conditions(&conn).unwrap();
    assert_eq!(conds.len(), 2, "the malformed row is skipped, the rest load");
    let mut svc = MonitoringService::new();
    assert_eq!(svc.load_conditions(&conn).unwrap(), 2);
}

#[test]
fn process_ticker_persists_fired_alerts() {
    let conn = open_memory_store().unwrap();
    add_condition(&conn, &condition(50000)).unwrap();
    let mut svc = MonitoringService::new();
    svc.load_conditions(&conn).unwrap();
    assert_eq!(svc.process_ticker(&conn, &ticker(50001), 1234).unwrap(), 1);
    // still satisfied: edge-triggered, nothing new is persisted
    assert_eq!(svc.process_ticker(&conn, &ticker(50002), 1235).unwrap(), 0);
    let alerts = list_alerts(&conn, 10).unwrap();
    assert_eq!(alerts.len(), 1);
    assert_eq!(alerts[0].condition_id, 1);
    assert_eq!(alerts[0].provider, "acme");
    assert_eq!(alerts[0].symbol, "BTCUSD");
    assert_eq!(alerts[0].field, MonitorField::Price);
    assert_eq!(alerts[0].triggered_value, 50001);
    assert_eq!(alerts[0].triggered_at, 1234);
}

#[test]
fn list_alerts_honours_the_limit_newest_first() {
    let conn = open_memory_store().unwrap();
    add_condition(&conn, &condition(10)).unwrap();
    let mut svc = MonitoringService::new();
    svc.load_conditions(&conn).unwrap();
    for (price, now) in [(20, 1), (5, 2), (30, 3), (1, 4), (40, 5)] {
        svc.process_ticker(&conn, &ticker(price), now).unwrap();
    }
    // three crossings happened; only the two newest are asked for
    let alerts = list_alerts(&conn, 2).unwrap();
    assert_eq!(alerts.len(), 2);
    assert_eq!(alerts[0].triggered_at, 5);
    assert_eq!(alerts[1].triggered_at, 3);
}

#[test]
fn condition_mutations_reload_the_working_set() {
    let conn = open_memory_store().unwrap();
    let mut svc = MonitoringService::new();
    svc.load_conditions(&conn).unwrap();
    assert!(svc.process_ticker(&conn, &ticker(100), 1).unwrap() == 0);
    // adding through the service makes the evaluator see it at once
    let id = svc.add_condition(&conn, &condition(50)).unwrap();
    assert_eq!(svc.process_ticker(&conn, &ticker(100), 2).unwrap(), 1);
    // deleting through the service removes it from evaluation at once
    svc.delete_condition(&conn, id).unwrap();
    assert_eq!(svc.process_ticker(&conn, &ticker(5), 3).unwrap(), 0);
    assert_eq!(svc.process_ticker(&conn, &ticker(100), 4).unwrap(), 0);
}

#[test]
fn provider_configs_round_trip() {
    let conn = open_memory_store().unwrap();
    assert!(get_provider_config(&conn, "acme").unwrap().is_none());
    let cfg = ProviderConfig {
        name: "acme".to_string(),
        endpoint: "wss://acme.example/stream".to_string(),
        api_key: Some("demo-key".to_string()),
        api_secret: None,
        enabled: true,
        params: Some("{\"depth\":10}".to_string()),
    };
    upsert_provider_config(&conn, &cfg).unwrap();
    let got = get_provider_config(&conn, "acme").unwrap().unwrap();
    assert_eq!(got.name, "acme");
    assert_eq!(got.endpoint, "wss://acme.example/stream");
    assert_eq!(got.api_key.as_deref(), Some("demo-key"));
    assert_eq!(got.api_secret, None);
    assert!(got.enabled);
    assert_eq!(got.params.as_deref(), Some("{\"depth\":10}"));
    // upsert replaces in place, keyed by name
    let mut cfg2 = cfg;
    cfg2.enabled = false;
    upsert_provider_config(&conn, &cfg2).unwrap();
    let all = get_ws_provider_configs(&conn).unwrap();
    assert_eq!(all.len(), 1);
    assert!(!all[0].enabled);
    assert_eq!(all[0].provider_name, "acme");
}

#[test]
fn settings_round_trip() {
    let conn = open_memory_store().unwrap();
    save_setting(&conn, "theme", "dark", Some("ui".to_string())).unwrap();
    save_setting(&conn, "theme", "light", Some("ui".to_string())).unwrap();
    save_setting(&conn, "locale", "en", None).unwrap();
    let mut settings = get_all_settings(&conn).unwrap();
    settings.sort_by(|a, b| a.setting_key.cmp(&b.setting_key));
    assert_eq!(settings.len(), 2);
    assert_eq!(settings[0].setting_key, "locale");
    assert_eq!(settings[0].setting_value, "en");
    assert_eq!(settings[0].category, None);
    assert_eq!(settings[1].setting_key, "theme");
    assert_eq!(settings[1].setting_value, "light");
    assert_eq!(settings[1].category.as_deref(), Some("ui"));
}

#[test]
fn credentials_round_trip() {
    let conn = open_memory_store().unwrap();
    save_credential(
        &conn,
        "acme",
        Some("alex".to_string()),
        None,
        Some("demo-key".to_string()),
        None,
        None,
    )
    .unwrap();
    let creds = get_credentials(&conn).unwrap();
    assert_eq!(creds.len(), 1);
    assert_eq!(creds[0].service_name, "acme");
    assert_eq!(creds[0].username.as_deref(), Some("alex"));
    assert_eq!(creds[0].password, None);
    assert_eq!(creds[0].api_key.as_deref(), Some("demo-key"));
}

#[test]
fn llm_configs_round_trip() {
    let conn = open_memory_store().unwrap();
    let cfg = LLMConfig {
        provider: "local".to_string(),
        api_key: None,
        base_url: Some("http://localhost:8080".to_string()),
        model: Some("small".to_string()),
        is_active: true,
    };
    save_llm_config(&conn, &cfg).unwrap();
    let got = get_llm_configs(&conn).unwrap();
    assert_eq!(got.len(), 1);
    assert_eq!(got[0].provider, "local");
    assert!(got[0].is_active);
    assert_eq!(got[0].base_url.as_deref(), Some("http://localhost:8080"));
}
