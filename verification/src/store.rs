//! SQLite-backed persistence: provider configurations, monitor
//! conditions, the append-only alert log, and the terminal's small
//! record stores (settings, credentials, model configurations).
//!
//! Each query or statement is issued through one trusted wrapper around
//! rusqlite that moves plain row values in and out; everything done with
//! a row — validation, parsing of stored tokens, the skip-bad-rows
//! policy of a reload — is verified code with an exact contract.

use vstd::prelude::*;

use rusqlite::OptionalExtension;

use crate::monitor::{
    parse_field, parse_operator, MonitorAlert, MonitorCondition, MonitoringService,
};
use crate::types::{ProviderConfig, WsError};

verus! {

/// The SQLite connection handle of rusqlite, carried opaquely.
#[verifier::external_type_specification]
#[verifier::external_body]
pub struct ExConnection(rusqlite::Connection);

/// One stored monitor condition, as raw column values.
pub struct ConditionRow {
    pub id: i64,
    pub provider: String,
    pub symbol: String,
    pub field: String,
    pub operator: String,
    pub value: i64,
    pub value2: Option<i64>,
    pub enabled: i64,
}

/// One stored alert, as raw column values.
pub struct AlertRow {
    pub id: i64,
    pub condition_id: i64,
    pub provider: String,
    pub symbol: String,
    pub field: String,
    pub triggered_value: i64,
    pub triggered_at: i64,
}

/// One stored provider configuration, as raw column values.
pub struct ProviderRow {
    pub id: i64,
    pub provider_name: String,
    pub enabled: i64,
    pub api_key: Option<String>,
    pub api_secret: Option<String>,
    pub endpoint: Option<String>,
    pub config_data: Option<String>,
}

/// A stored provider configuration record, as exposed to callers.
pub struct WSProviderConfig {
    pub id: Option<i64>,
    pub provider_name: String,
    pub enabled: bool,
    pub api_key: Option<String>,
    pub api_secret: Option<String>,
    pub endpoint: Option<String>,
    pub config_data: Option<String>,
}

/// A stored setting.
pub struct Setting {
    pub setting_key: String,
    pub setting_value: String,
    pub category: Option<String>,
}

/// A stored credential record.
pub struct Credential {
    pub id: i64,
    pub service_name: String,
    pub username: Option<String>,
    pub password: Option<String>,
    pub api_key: Option<String>,
    pub api_secret: Option<String>,
    pub additional_data: Option<String>,
}

/// One stored language-model configuration, as raw column values.
pub struct LLMRow {
    pub provider: String,
    pub api_key: Option<String>,
    pub base_url: Option<String>,
    pub model: Option<String>,
    pub is_active: i64,
}

/// A stored language-model configuration record.
pub struct LLMConfig {
    pub provider: String,
    pub api_key: Option<String>,
    pub base_url: Option<String>,
    pub model: Option<String>,
    pub is_active: bool,
}

/// Relies on rusqlite::Connection::open_in_memory.
#[verifier::external_body]
fn open_memory_conn() -> (r: Result<rusqlite::Connection, String>)
{
    match rusqlite::Connection::open_in_memory() {
        Ok(c) => Ok(c),
        Err(e) => Err(e.to_string()),
    }
}

/// Relies on rusqlite::Connection::execute_batch to create the tables.
#[verifier::external_body]
fn exec_schema(conn: &rusqlite::Connection) -> (r: Result<(), String>)
{
    let sql = "CREATE TABLE IF NOT EXISTS monitor_conditions (id INTEGER PRIMARY KEY AUTOINCREMENT, provider TEXT NOT NULL, symbol TEXT NOT NULL, field TEXT NOT NULL, operator TEXT NOT NULL, value INTEGER NOT NULL, value2 INTEGER, enabled INTEGER NOT NULL);
        CREATE TABLE IF NOT EXISTS monitor_alerts (id INTEGER PRIMARY KEY AUTOINCREMENT, condition_id INTEGER NOT NULL, provider TEXT NOT NULL, symbol TEXT NOT NULL, field TEXT NOT NULL, triggered_value INTEGER NOT NULL, triggered_at INTEGER NOT NULL);
        CREATE TABLE IF NOT EXISTS ws_provider_configs (id INTEGER PRIMARY KEY AUTOINCREMENT, provider_name TEXT NOT NULL UNIQUE, enabled INTEGER NOT NULL DEFAULT 1, api_key TEXT, api_secret TEXT, endpoint TEXT, config_data TEXT);
        CREATE TABLE IF NOT EXISTS settings (setting_key TEXT PRIMARY KEY, setting_value TEXT NOT NULL, category TEXT);
        CREATE TABLE IF NOT EXISTS credentials (id INTEGER PRIMARY KEY AUTOINCREMENT, service_name TEXT NOT NULL UNIQUE, username TEXT, password TEXT, api_key TEXT, api_secret TEXT, additional_data TEXT);
        CREATE TABLE IF NOT EXISTS llm_configs (provider TEXT PRIMARY KEY, api_key TEXT, base_url TEXT, model TEXT, is_active INTEGER NOT NULL DEFAULT 0);";
    match conn.execute_batch(sql) {
        Ok(()) => Ok(()),
        Err(e) => Err(e.to_string()),
    }
}

/// Relies on rusqlite::Connection::execute and last_insert_rowid to
/// insert one condition row.
#[verifier::external_body]
fn insert_condition_row(
    conn: &rusqlite::Connection,
    provider: &str,
    symbol: &str,
    field: &str,
    operator: &str,
    value: i64,
    value2: Option<i64>,
    enabled: i64,
) -> (r: Result<i64, String>)
{
    let res = conn.execute(
        "INSERT INTO monitor_conditions (provider, symbol, field, operator, value, value2, enabled) VALUES (?1, ?2, ?3, ?4, ?5, ?6, ?7)",
        (provider, symbol, field, operator, value, value2, enabled),
    );
    match res {
        Ok(_) => Ok(conn.last_insert_rowid()),
        Err(e) => Err(e.to_string()),
    }
}

/// Relies on rusqlite prepare/query_map to read all condition rows,
/// newest first.
#[verifier::external_body]
fn query_condition_rows(conn: &rusqlite::Connection) -> (r: Result<Vec<ConditionRow>, String>)
{
    let run = || -> rusqlite::Result<Vec<ConditionRow>> {
        let mut stmt = conn.prepare(
            "SELECT id, provider, symbol, field, operator, value, value2, enabled FROM monitor_conditions ORDER BY id DESC",
        )?;
        let rows = stmt.query_map([], |row| {
            Ok(ConditionRow {
                id: row.get(0)?, provider: row.get(1)?, symbol: row.get(2)?,
                field: row.get(3)?, operator: row.get(4)?, value: row.get(5)?,
                value2: row.get(6)?, enabled: row.get(7)?,
            })
        })?;
        rows.collect()
    };
    run().map_err(|e| e.to_string())
}

/// Relies on rusqlite::Connection::execute to delete one condition row.
#[verifier::external_body]
fn delete_condition_row(conn: &rusqlite::Connection, id: i64) -> (r: Result<(), String>)
{
    match conn.execute("DELETE FROM monitor_conditions WHERE id = ?1", (id,)) {
        Ok(_) => Ok(()),
        Err(e) => Err(e.to_string()),
    }
}

/// Relies on rusqlite::Connection::execute and last_insert_rowid to
/// append one alert row.
#[verifier::external_body]
fn insert_alert_row(
    conn: &rusqlite::Connection,
    condition_id: i64,
    provider: &str,
    symbol: &str,
    field: &str,
    triggered_value: i64,
    triggered_at: i64,
) -> (r: Result<i64, String>)
{
    let res = conn.execute(
        "INSERT INTO monitor_alerts (condition_id, provider, symbol, field, triggered_value, triggered_at) VALUES (?1, ?2, ?3, ?4, ?5, ?6)",
        (condition_id, provider, symbol, field, triggered_value, triggered_at),
    );
    match res {
        Ok(_) => Ok(conn.last_insert_rowid()),
        Err(e) => Err(e.to_string()),
    }
}

/// Relies on rusqlite prepare/query_map to read the newest alert rows.
#[verifier::external_body]
fn query_alert_rows(conn: &rusqlite::Connection, limit: i64) -> (r: Result<Vec<AlertRow>, String>)
{
    let run = || -> rusqlite::Result<Vec<AlertRow>> {
        let mut stmt = conn.prepare(
            "SELECT id, condition_id, provider, symbol, field, triggered_value, triggered_at FROM monitor_alerts ORDER BY triggered_at DESC, id DESC LIMIT ?1",
        )?;
        let rows = stmt.query_map((limit,), |row| {
            Ok(AlertRow {
                id: row.get(0)?, condition_id: row.get(1)?, provider: row.get(2)?,
                symbol: row.get(3)?, field: row.get(4)?, triggered_value: row.get(5)?,
                triggered_at: row.get(6)?,
            })
        })?;
        rows.collect()
    };
    run().map_err(|e| e.to_string())
}

/// Relies on rusqlite query_row (optional) to read one provider
/// configuration row by name.
#[verifier::external_body]
fn query_provider_row(conn: &rusqlite::Connection, name: &str) -> (r: Result<
    Option<ProviderRow>,
    String,
>)
{
    let res = conn.query_row(
        "SELECT id, provider_name, enabled, api_key, api_secret, endpoint, config_data FROM ws_provider_configs WHERE provider_name = ?1",
        (name,),
        |row| {
            Ok(ProviderRow {
                id: row.get(0)?, provider_name: row.get(1)?, enabled: row.get(2)?,
                api_key: row.get(3)?, api_secret: row.get(4)?, endpoint: row.get(5)?,
                config_data: row.get(6)?,
            })
        },
    ).optional();
    res.map_err(|e| e.to_string())
}

/// Relies on rusqlite prepare/query_map to read all provider
/// configuration rows, ordered by name.
#[verifier::external_body]
fn query_provider_rows(conn: &rusqlite::Connection) -> (r: Result<Vec<ProviderRow>, String>)
{
    let run = || -> rusqlite::Result<Vec<ProviderRow>> {
        let mut stmt = conn.prepare(
            "SELECT id, provider_name, enabled, api_key, api_secret, endpoint, config_data FROM ws_provider_configs ORDER BY provider_name",
        )?;
        let rows = stmt.query_map([], |row| {
            Ok(ProviderRow {
                id: row.get(0)?, provider_name: row.get(1)?, enabled: row.get(2)?,
                api_key: row.get(3)?, api_secret: row.get(4)?, endpoint: row.get(5)?,
                config_data: row.get(6)?,
            })
        })?;
        rows.collect()
    };
    run().map_err(|e| e.to_string())
}

/// Relies on rusqlite::Connection::execute to upsert one provider
/// configuration row, keyed by its unique name.
#[verifier::external_body]
fn upsert_provider_row(
    conn: &rusqlite::Connection,
    name: &str,
    enabled: i64,
    api_key: &Option<String>,
    api_secret: &Option<String>,
    endpoint: &str,
    config_data: &Option<String>,
) -> (r: Result<(), String>)
{
    let res = conn.execute(
        "INSERT INTO ws_provider_configs (provider_name, enabled, api_key, api_secret, endpoint, config_data) VALUES (?1, ?2, ?3, ?4, ?5, ?6)
         ON CONFLICT(provider_name) DO UPDATE SET enabled = excluded.enabled, api_key = excluded.api_key, api_secret = excluded.api_secret, endpoint = excluded.endpoint, config_data = excluded.config_data",
        (name, enabled, api_key, api_secret, endpoint, config_data),
    );
    match res {
        Ok(_) => Ok(()),
        Err(e) => Err(e.to_string()),
    }
}

/// Relies on rusqlite::Connection::execute to upsert one setting row.
#[verifier::external_body]
fn upsert_setting_row(
    conn: &rusqlite::Connection,
    key: &str,
    value: &str,
    category: &Option<String>,
) -> (r: Result<(), String>)
{
    let res = conn.execute(
        "INSERT OR REPLACE INTO settings (setting_key, setting_value, category) VALUES (?1, ?2, ?3)",
        (key, value, category),
    );
    match res {
        Ok(_) => Ok(()),
        Err(e) => Err(e.to_string()),
    }
}

/// Relies on rusqlite prepare/query_map to read all setting rows.
#[verifier::external_body]
fn query_setting_rows(conn: &rusqlite::Connection) -> (r: Result<Vec<Setting>, String>)
{
    let run = || -> rusqlite::Result<Vec<Setting>> {
        let mut stmt = conn.prepare(
            "SELECT setting_key, setting_value, category FROM settings",
        )?;
        let rows = stmt.query_map([], |row| {
            Ok(Setting {
                setting_key: row.get(0)?, setting_value: row.get(1)?, category: row.get(2)?,
            })
        })?;
        rows.collect()
    };
    run().map_err(|e| e.to_string())
}

/// Relies on rusqlite::Connection::execute to upsert one credential row,
/// keyed by its unique service name.
#[verifier::external_body]
fn upsert_credential_row(
    conn: &rusqlite::Connection,
    service_name: &str,
    username: &Option<String>,
    password: &Option<String>,
    api_key: &Option<String>,
    api_secret: &Option<String>,
    additional_data: &Option<String>,
) -> (r: Result<(), String>)
{
    let res = conn.execute(
        "INSERT INTO credentials (service_name, username, password, api_key, api_secret, additional_data) VALUES (?1, ?2, ?3, ?4, ?5, ?6)
         ON CONFLICT(service_name) DO UPDATE SET username = excluded.username, password = excluded.password, api_key = excluded.api_key, api_secret = excluded.api_secret, additional_data = excluded.additional_data",
        (service_name, username, password, api_key, api_secret, additional_data),
    );
    match res {
        Ok(_) => Ok(()),
        Err(e) => Err(e.to_string()),
    }
}

/// Relies on rusqlite prepare/query_map to read all credential rows,
/// ordered by service name.
#[verifier::external_body]
fn query_credential_rows(conn: &rusqlite::Connection) -> (r: Result<Vec<Credential>, String>)
{
    let run = || -> rusqlite::Result<Vec<Credential>> {
        let mut stmt = conn.prepare(
            "SELECT id, service_name, username, password, api_key, api_secret, additional_data FROM credentials ORDER BY service_name",
        )?;
        let rows = stmt.query_map([], |row| {
            Ok(Credential {
                id: row.get(0)?, service_name: row.get(1)?, username: row.get(2)?,
                password: row.get(3)?, api_key: row.get(4)?, api_secret: row.get(5)?,
                additional_data: row.get(6)?,
            })
        })?;
        rows.collect()
    };
    run().map_err(|e| e.to_string())
}

/// Relies on rusqlite::Connection::execute to upsert one model
/// configuration row.
#[verifier::external_body]
fn upsert_llm_row(
    conn: &rusqlite::Connection,
    provider: &str,
    api_key: &Option<String>,
    base_url: &Option<String>,
    model: &Option<String>,
    is_active: i64,
) -> (r: Result<(), String>)
{
    let res = conn.execute(
        "INSERT OR REPLACE INTO llm_configs (provider, api_key, base_url, model, is_active) VALUES (?1, ?2, ?3, ?4, ?5)",
        (provider, api_key, base_url, model, is_active),
    );
    match res {
        Ok(_) => Ok(()),
        Err(e) => Err(e.to_string()),
    }
}

/// Relies on rusqlite prepare/query_map to read all model configuration
/// rows.
#[verifier::external_body]
fn query_llm_rows(conn: &rusqlite::Connection) -> (r: Result<Vec<LLMRow>, String>)
{
    let run = || -> rusqlite::Result<Vec<LLMRow>> {
        let mut stmt = conn.prepare(
            "SELECT provider, api_key, base_url, model, is_active FROM llm_configs",
        )?;
        let rows = stmt.query_map([], |row| {
            Ok(LLMRow {
                provider: row.get(0)?, api_key: row.get(1)?, base_url: row.get(2)?,
                model: row.get(3)?, is_active: row.get(4)?,
            })
        })?;
        rows.collect()
    };
    run().map_err(|e| e.to_string())
}

/// Open a fresh in-memory store with the schema created, as used by the
/// tests and by callers that keep no file on disk.
pub fn open_memory_store() -> (r: Result<rusqlite::Connection, WsError>)
    ensures
        r matches Err(e) ==> e is StoreUnavailable,
{
    let conn = match open_memory_conn() {
        Ok(c) => c,
        Err(e) => {
            return Err(WsError::StoreUnavailable(e));
        },
    };
    match exec_schema(&conn) {
        Ok(()) => Ok(conn),
        Err(e) => Err(WsError::StoreUnavailable(e)),
    }
}

/// Create the store's tables on a connection opened elsewhere (e.g. on a
/// file-backed database owned by the process around this library).
pub fn create_schema(conn: &rusqlite::Connection) -> (r: Result<(), WsError>)
    ensures
        r matches Err(e) ==> e is StoreUnavailable,
{
    match exec_schema(conn) {
        Ok(()) => Ok(()),
        Err(e) => Err(WsError::StoreUnavailable(e)),
    }
}

/// What a stored condition row means: its tokens parsed, with the upper
/// bound present exactly for `Between`; nothing for a malformed row.
pub open spec fn parsed_condition(r: ConditionRow) -> Option<MonitorCondition> {
    if parse_field(r.field@) is Some && parse_operator(r.operator@) is Some && ((parse_operator(
        r.operator@,
    )->0 is Between) <==> r.value2 is Some) {
        Some(
            MonitorCondition {
                id: Some(r.id),
                provider: r.provider,
                symbol: r.symbol,
                field: parse_field(r.field@)->0,
                operator: parse_operator(r.operator@)->0,
                value: r.value,
                value2: r.value2,
                enabled: r.enabled != 0,
            },
        )
    } else {
        None
    }
}

/// Decode one stored condition row; a malformed row fails alone, with
/// `InvalidCondition`, exactly when its tokens do not parse or its upper
/// bound does not match its operator.
pub fn condition_from_row(row: ConditionRow) -> (r: Result<MonitorCondition, WsError>)
    ensures
        r matches Ok(c) ==> parsed_condition(row) == Some(c) && c.wf(),
        r is Err <==> parsed_condition(row) is None,
        r matches Err(e) ==> e is InvalidCondition,
{
    let field = match crate::monitor::MonitorField::from_str(row.field.as_str()) {
        Some(f) => f,
        None => {
            return Err(WsError::InvalidCondition(String::from_str("unknown field token")));
        },
    };
    let operator = match crate::monitor::MonitorOperator::from_str(row.operator.as_str()) {
        Some(op) => op,
        None => {
            return Err(WsError::InvalidCondition(String::from_str("unknown operator token")));
        },
    };
    let needs_upper = matches!(operator, crate::monitor::MonitorOperator::Between);
    if needs_upper != row.value2.is_some() {
        return Err(
            WsError::InvalidCondition(String::from_str("upper bound does not match operator")),
        );
    }
    Ok(
        MonitorCondition {
            id: Some(row.id),
            provider: row.provider,
            symbol: row.symbol,
            field,
            operator,
            value: row.value,
            value2: row.value2,
            enabled: row.enabled != 0,
        },
    )
}

/// The conditions of a sequence of stored rows, with each malformed row
/// skipped rather than failing the whole read.
pub open spec fn parsed_conditions(rows: Seq<ConditionRow>) -> Seq<MonitorCondition>
    decreases rows.len(),
{
    if rows.len() == 0 {
        Seq::empty()
    } else {
        match parsed_condition(rows[0]) {
            Some(c) => seq![c] + parsed_conditions(rows.drop_first()),
            None => parsed_conditions(rows.drop_first()),
        }
    }
}

/// Every condition the skip policy accepts is well-formed and carries
/// its store id: the live working set never holds a malformed entry.
pub proof fn lemma_parsed_conditions_wf(rows: Seq<ConditionRow>)
    ensures
        forall|i: int|
            0 <= i < parsed_conditions(rows).len() ==> (#[trigger] parsed_conditions(
                rows,
            )[i]).wf() && parsed_conditions(rows)[i].id is Some,
    decreases rows.len(),
{
    if rows.len() > 0 {
        lemma_parsed_conditions_wf(rows.drop_first());
    }
}

/// Decode a whole read of condition rows under the skip policy.
pub fn conditions_from_rows(rows: Vec<ConditionRow>) -> (r: Vec<MonitorCondition>)
    ensures
        r@ == parsed_conditions(rows@),
        forall|i: int| 0 <= i < r@.len() ==> (#[trigger] r@[i]).wf() && r@[i].id is Some,
{
    proof {
        lemma_parsed_conditions_wf(rows@);
    }
    let ghost rows0 = rows@;
    let mut out: Vec<MonitorCondition> = Vec::new();
    let mut it = rows;
    let n = it.len();
    let mut i: usize = 0;
    proof {
        assert(rows0.skip(0) =~= rows0);
        assert(out@ + parsed_conditions(rows0) =~= parsed_conditions(rows0));
    }
    while i < n
        invariant
            it@ == rows0,
            n == rows0.len(),
            i <= n,
            parsed_conditions(rows0) =~= out@ + parsed_conditions(rows0.skip(i as int)),
        decreases n - i,
    {
        proof {
            assert(rows0.skip(i as int)[0] == rows0[i as int]);
            assert(rows0.skip(i as int).drop_first() =~= rows0.skip(i as int + 1));
        }
        let row = duplicate_condition_row(&it[i]);
        match condition_from_row(row) {
            Ok(c) => {
                out.push(c);
            },
            Err(_) => {},
        }
        i = i + 1;
    }
    proof {
        assert(rows0.skip(n as int) =~= Seq::<ConditionRow>::empty());
        assert(parsed_conditions(rows0) =~= out@);
    }
    out
}

/// Field-for-field copy of a stored condition row.
fn duplicate_condition_row(r: &ConditionRow) -> (c: ConditionRow)
    ensures
        c == *r,
{
    ConditionRow {
        id: r.id,
        provider: r.provider.clone(),
        symbol: r.symbol.clone(),
        field: r.field.clone(),
        operator: r.operator.clone(),
        value: r.value,
        value2: r.value2,
        enabled: r.enabled,
    }
}

/// A condition written to the store reads back as the same condition,
/// with the store's id attached: no field is lost in the round trip.
/// The row named here is the one `add_condition` writes — the identifying
/// strings as given, the field and operator as their storage tokens, and
/// the enabled flag as zero-or-one.
pub proof fn lemma_condition_round_trip(c: MonitorCondition, row: ConditionRow)
    requires
        c.wf(),
        row.provider == c.provider,
        row.symbol == c.symbol,
        row.field@ == crate::monitor::field_token(c.field),
        row.operator@ == crate::monitor::operator_token(c.operator),
        row.value == c.value,
        row.value2 == c.value2,
        row.enabled == if c.enabled {
            1int
        } else {
            0int
        },
    ensures
        parsed_condition(row) == Some(MonitorCondition { id: Some(row.id), ..c }),
{
    crate::monitor::lemma_field_token_round_trip(c.field);
    crate::monitor::lemma_operator_token_round_trip(c.operator);
}

/// An alert written to the store reads back as the same alert, with the
/// store's id attached: no field is lost in the round trip.
pub proof fn lemma_alert_round_trip(a: MonitorAlert, row: AlertRow)
    requires
        a.triggered_at <= i64::MAX,
        row.condition_id == a.condition_id,
        row.provider == a.provider,
        row.symbol == a.symbol,
        row.field@ == crate::monitor::field_token(a.field),
        row.triggered_value == a.triggered_value,
        row.triggered_at == a.triggered_at,
    ensures
        parsed_alert(row) == Some(MonitorAlert { id: Some(row.id), ..a }),
{
    crate::monitor::lemma_field_token_round_trip(a.field);
}

/// Validate and persist one new condition.
///
/// Fails with `InvalidCondition` exactly when the condition's upper
/// bound does not match its operator; otherwise the row is written and
/// the store's id for it returned, or `StoreUnavailable` reported.
pub fn add_condition(conn: &rusqlite::Connection, c: &MonitorCondition) -> (r: Result<
    i64,
    WsError,
>)
    ensures
        !c.wf() <==> (r matches Err(e) && e is InvalidCondition),
        c.wf() ==> (r is Ok || (r matches Err(e) && e is StoreUnavailable)),
{
    let needs_upper = matches!(c.operator, crate::monitor::MonitorOperator::Between);
    if needs_upper != c.value2.is_some() {
        return Err(
            WsError::InvalidCondition(String::from_str("upper bound does not match operator")),
        );
    }
    let enabled: i64 = if c.enabled {
        1
    } else {
        0
    };
    let res = insert_condition_row(
        conn,
        c.provider.as_str(),
        c.symbol.as_str(),
        c.field.as_str(),
        c.operator.as_str(),
        c.value,
        c.value2,
        enabled,
    );
    match res {
        Ok(id) => Ok(id),
        Err(e) => Err(WsError::StoreUnavailable(e)),
    }
}

/// Read every stored condition, skipping malformed rows; everything
/// returned is well-formed and carries its store id.
pub fn list_conditions(conn: &rusqlite::Connection) -> (r: Result<Vec<MonitorCondition>, WsError>)
    ensures
        r matches Err(e) ==> e is StoreUnavailable,
        r matches Ok(cs) ==> forall|i: int|
            0 <= i < cs@.len() ==> (#[trigger] cs@[i]).wf() && cs@[i].id is Some,
{
    match query_condition_rows(conn) {
        Ok(rows) => Ok(conditions_from_rows(rows)),
        Err(e) => Err(WsError::StoreUnavailable(e)),
    }
}

/// Delete one stored condition by id; deleting an absent id succeeds.
pub fn delete_condition(conn: &rusqlite::Connection, id: i64) -> (r: Result<(), WsError>)
    ensures
        r matches Err(e) ==> e is StoreUnavailable,
{
    match delete_condition_row(conn, id) {
        Ok(()) => Ok(()),
        Err(e) => Err(WsError::StoreUnavailable(e)),
    }
}

/// Persist one alert; returns the store's id for it.
pub fn insert_alert(conn: &rusqlite::Connection, a: &MonitorAlert) -> (r: Result<i64, WsError>)
    requires
        a.triggered_at <= i64::MAX,
    ensures
        r matches Err(e) ==> e is StoreUnavailable,
{
    let res = insert_alert_row(
        conn,
        a.condition_id,
        a.provider.as_str(),
        a.symbol.as_str(),
        a.field.as_str(),
        a.triggered_value,
        a.triggered_at as i64,
    );
    match res {
        Ok(id) => Ok(id),
        Err(e) => Err(WsError::StoreUnavailable(e)),
    }
}

/// What a stored alert row means; nothing when its field token does not
/// parse.
pub open spec fn parsed_alert(r: AlertRow) -> Option<MonitorAlert> {
    if parse_field(r.field@) is Some {
        Some(
            MonitorAlert {
                id: Some(r.id),
                condition_id: r.condition_id,
                provider: r.provider,
                symbol: r.symbol,
                field: parse_field(r.field@)->0,
                triggered_value: r.triggered_value,
                triggered_at: r.triggered_at as u64,
            },
        )
    } else {
        None
    }
}

/// The alerts of a sequence of stored rows, skipping malformed rows.
pub open spec fn parsed_alerts(rows: Seq<AlertRow>) -> Seq<MonitorAlert>
    decreases rows.len(),
{
    if rows.len() == 0 {
        Seq::empty()
    } else {
        match parsed_alert(rows[0]) {
            Some(a) => seq![a] + parsed_alerts(rows.drop_first()),
            None => parsed_alerts(rows.drop_first()),
        }
    }
}

/// Decode a whole read of alert rows under the skip policy.
pub fn alerts_from_rows(rows: Vec<AlertRow>) -> (r: Vec<MonitorAlert>)
    ensures
        r@ == parsed_alerts(rows@),
{
    let ghost rows0 = rows@;
    let mut out: Vec<MonitorAlert> = Vec::new();
    let it = rows;
    let n = it.len();
    let mut i: usize = 0;
    proof {
        assert(rows0.skip(0) =~= rows0);
        assert(out@ + parsed_alerts(rows0) =~= parsed_alerts(rows0));
    }
    while i < n
        invariant
            it@ == rows0,
            n == rows0.len(),
            i <= n,
            parsed_alerts(rows0) =~= out@ + parsed_alerts(rows0.skip(i as int)),
        decreases n - i,
    {
        proof {
            assert(rows0.skip(i as int)[0] == rows0[i as int]);
            assert(rows0.skip(i as int).drop_first() =~= rows0.skip(i as int + 1));
        }
        match crate::monitor::MonitorField::from_str(it[i].field.as_str()) {
            Some(f) => {
                let a = MonitorAlert {
                    id: Some(it[i].id),
                    condition_id: it[i].condition_id,
                    provider: it[i].provider.clone(),
                    symbol: it[i].symbol.clone(),
                    field: f,
                    triggered_value: it[i].triggered_value,
                    triggered_at: it[i].triggered_at as u64,
                };
                out.push(a);
            },
            None => {},
        }
        i = i + 1;
    }
    proof {
        assert(rows0.skip(n as int) =~= Seq::<AlertRow>::empty());
        assert(parsed_alerts(rows0) =~= out@);
    }
    out
}

/// Read the newest stored alerts, at most `limit`, skipping malformed
/// rows.
pub fn list_alerts(conn: &rusqlite::Connection, limit: i64) -> (r: Result<
    Vec<MonitorAlert>,
    WsError,
>)
    ensures
        r matches Err(e) ==> e is StoreUnavailable,
{
    match query_alert_rows(conn, limit) {
        Ok(rows) => Ok(alerts_from_rows(rows)),
        Err(e) => Err(WsError::StoreUnavailable(e)),
    }
}

/// Decode one stored provider row into a connection-manager
/// configuration: a missing endpoint column reads as the empty
/// endpoint.
pub fn provider_config_from_row(row: ProviderRow) -> (r: ProviderConfig)
    ensures
        r.name == row.provider_name,
        r.endpoint@ == match row.endpoint {
            Some(e) => e@,
            None => Seq::<char>::empty(),
        },
        r.api_key == row.api_key,
        r.api_secret == row.api_secret,
        r.enabled == (row.enabled != 0),
        r.params == row.config_data,
{
    let endpoint = match row.endpoint {
        Some(e) => e,
        None => String::new(),
    };
    ProviderConfig {
        name: row.provider_name,
        endpoint,
        api_key: row.api_key,
        api_secret: row.api_secret,
        enabled: row.enabled != 0,
        params: row.config_data,
    }
}

/// Read one provider's stored configuration by name.
pub fn get_provider_config(conn: &rusqlite::Connection, name: &str) -> (r: Result<
    Option<ProviderConfig>,
    WsError,
>)
    ensures
        r matches Err(e) ==> e is StoreUnavailable,
        r matches Ok(Some(p)) ==> p.name@ == name@,
{
    match query_provider_row(conn, name) {
        Ok(Some(row)) => {
            if !crate::text::str_eq(row.provider_name.as_str(), name) {
                return Err(
                    WsError::StoreUnavailable(String::from_str("store returned a foreign row")),
                );
            }
            Ok(Some(provider_config_from_row(row)))
        },
        Ok(None) => Ok(None),
        Err(e) => Err(WsError::StoreUnavailable(e)),
    }
}

/// Store or replace one provider's configuration, keyed by name.
pub fn upsert_provider_config(conn: &rusqlite::Connection, c: &ProviderConfig) -> (r: Result<
    (),
    WsError,
>)
    ensures
        r matches Err(e) ==> e is StoreUnavailable,
{
    let enabled: i64 = if c.enabled {
        1
    } else {
        0
    };
    let res = upsert_provider_row(
        conn,
        c.name.as_str(),
        enabled,
        &c.api_key,
        &c.api_secret,
        c.endpoint.as_str(),
        &c.params,
    );
    match res {
        Ok(()) => Ok(()),
        Err(e) => Err(WsError::StoreUnavailable(e)),
    }
}

/// What a stored provider row means as a full record.
pub fn ws_config_from_row(row: ProviderRow) -> (r: WSProviderConfig)
    ensures
        r.id == Some(row.id),
        r.provider_name == row.provider_name,
        r.enabled == (row.enabled != 0),
        r.api_key == row.api_key,
        r.api_secret == row.api_secret,
        r.endpoint == row.endpoint,
        r.config_data == row.config_data,
{
    WSProviderConfig {
        id: Some(row.id),
        provider_name: row.provider_name,
        enabled: row.enabled != 0,
        api_key: row.api_key,
        api_secret: row.api_secret,
        endpoint: row.endpoint,
        config_data: row.config_data,
    }
}

/// Read all stored provider configuration records.
pub fn get_ws_provider_configs(conn: &rusqlite::Connection) -> (r: Result<
    Vec<WSProviderConfig>,
    WsError,
>)
    ensures
        r matches Err(e) ==> e is StoreUnavailable,
{
    let rows = match query_provider_rows(conn) {
        Ok(rows) => rows,
        Err(e) => {
            return Err(WsError::StoreUnavailable(e));
        },
    };
    let mut out: Vec<WSProviderConfig> = Vec::new();
    let mut it = rows;
    while it.len() > 0
        decreases it@.len(),
    {
        let row = it.remove(0);
        out.push(ws_config_from_row(row));
    }
    Ok(out)
}

/// Store or replace one setting.
pub fn save_setting(
    conn: &rusqlite::Connection,
    key: &str,
    value: &str,
    category: Option<String>,
) -> (r: Result<(), WsError>)
    ensures
        r matches Err(e) ==> e is StoreUnavailable,
{
    match upsert_setting_row(conn, key, value, &category) {
        Ok(()) => Ok(()),
        Err(e) => Err(WsError::StoreUnavailable(e)),
    }
}

/// Read all stored settings.
pub fn get_all_settings(conn: &rusqlite::Connection) -> (r: Result<Vec<Setting>, WsError>)
    ensures
        r matches Err(e) ==> e is StoreUnavailable,
{
    match query_setting_rows(conn) {
        Ok(rows) => Ok(rows),
        Err(e) => Err(WsError::StoreUnavailable(e)),
    }
}

/// Store or replace one credential record, keyed by service name.
pub fn save_credential(
    conn: &rusqlite::Connection,
    service_name: &str,
    username: Option<String>,
    password: Option<String>,
    api_key: Option<String>,
    api_secret: Option<String>,
    additional_data: Option<String>,
) -> (r: Result<(), WsError>)
    ensures
        r matches Err(e) ==> e is StoreUnavailable,
{
    let res = upsert_credential_row(
        conn,
        service_name,
        &username,
        &password,
        &api_key,
        &api_secret,
        &additional_data,
    );
    match res {
        Ok(()) => Ok(()),
        Err(e) => Err(WsError::StoreUnavailable(e)),
    }
}

/// Read all stored credential records.
pub fn get_credentials(conn: &rusqlite::Connection) -> (r: Result<Vec<Credential>, WsError>)
    ensures
        r matches Err(e) ==> e is StoreUnavailable,
{
    match query_credential_rows(conn) {
        Ok(rows) => Ok(rows),
        Err(e) => Err(WsError::StoreUnavailable(e)),
    }
}

/// Store or replace one language-model configuration.
pub fn save_llm_config(conn: &rusqlite::Connection, c: &LLMConfig) -> (r: Result<(), WsError>)
    ensures
        r matches Err(e) ==> e is StoreUnavailable,
{
    let is_active: i64 = if c.is_active {
        1
    } else {
        0
    };
    let res = upsert_llm_row(conn, c.provider.as_str(), &c.api_key, &c.base_url, &c.model, is_active);
    match res {
        Ok(()) => Ok(()),
        Err(e) => Err(WsError::StoreUnavailable(e)),
    }
}

/// Decode one stored language-model row.
pub fn llm_config_from_row(row: LLMRow) -> (r: LLMConfig)
    ensures
        r.provider == row.provider,
        r.api_key == row.api_key,
        r.base_url == row.base_url,
        r.model == row.model,
        r.is_active == (row.is_active != 0),
{
    LLMConfig {
        provider: row.provider,
        api_key: row.api_key,
        base_url: row.base_url,
        model: row.model,
        is_active: row.is_active != 0,
    }
}

/// Read all stored language-model configurations.
pub fn get_llm_configs(conn: &rusqlite::Connection) -> (r: Result<Vec<LLMConfig>, WsError>)
    ensures
        r matches Err(e) ==> e is StoreUnavailable,
{
    let rows = match query_llm_rows(conn) {
        Ok(rows) => rows,
        Err(e) => {
            return Err(WsError::StoreUnavailable(e));
        },
    };
    let mut out: Vec<LLMConfig> = Vec::new();
    let mut it = rows;
    while it.len() > 0
        decreases it@.len(),
    {
        let row = it.remove(0);
        out.push(llm_config_from_row(row));
    }
    Ok(out)
}

impl MonitoringService {
    /// Replace the in-memory working set with the store's current
    /// conditions, skipping malformed rows, in one atomic swap.  Reports
    /// `StoreUnavailable` — leaving the working set untouched — exactly
    /// when the read fails.
    pub fn load_conditions(&mut self, conn: &rusqlite::Connection) -> (r: Result<usize, WsError>)
        requires
            old(self).wf(),
        ensures
            final(self).wf(),
            r matches Err(e) ==> e is StoreUnavailable && *final(self) == *old(self),
            r matches Ok(n) ==> n == final(self).conds@.len() && final(self).last == old(
                self,
            ).last,
            r is Ok ==> forall|i: int|
                0 <= i < final(self).conds@.len() ==> (#[trigger] final(self).conds@[i]).wf()
                    && final(self).conds@[i].id is Some,
    {
        let rows = match query_condition_rows(conn) {
            Ok(rows) => rows,
            Err(e) => {
                return Err(WsError::StoreUnavailable(e));
            },
        };
        let conds = conditions_from_rows(rows);
        let n = conds.len();
        self.install_conditions(conds);
        Ok(n)
    }

    /// Persist a new condition and reload the whole working set from the
    /// store, so the live evaluator and the store never diverge for
    /// long.  An invalid condition is rejected before anything is
    /// written, leaving the service untouched.
    pub fn add_condition(&mut self, conn: &rusqlite::Connection, c: &MonitorCondition) -> (r:
        Result<i64, WsError>)
        requires
            old(self).wf(),
        ensures
            final(self).wf(),
            final(self).last == old(self).last,
            !c.wf() <==> (r matches Err(e) && e is InvalidCondition),
            !c.wf() ==> *final(self) == *old(self),
    {
        let id = match add_condition(conn, c) {
            Ok(id) => id,
            Err(e) => {
                return Err(e);
            },
        };
        match self.load_conditions(conn) {
            Ok(_) => Ok(id),
            Err(e) => Err(e),
        }
    }

    /// Delete a condition and reload the whole working set from the
    /// store.
    pub fn delete_condition(&mut self, conn: &rusqlite::Connection, id: i64) -> (r: Result<
        (),
        WsError,
    >)
        requires
            old(self).wf(),
        ensures
            final(self).wf(),
            final(self).last == old(self).last,
            r matches Err(e) ==> e is StoreUnavailable,
    {
        match delete_condition(conn, id) {
            Ok(()) => {},
            Err(e) => {
                return Err(e);
            },
        }
        match self.load_conditions(conn) {
            Ok(_) => Ok(()),
            Err(e) => Err(e),
        }
    }

    /// Evaluate one ticker and persist every alert it fired.
    ///
    /// The evaluation itself — which alerts fire, how the trigger state
    /// moves — is exactly `evaluate_ticker`'s contract and happens even
    /// when persistence fails; a store failure is reported once and the
    /// caller carries on with the next tick.
    pub fn process_ticker(
        &mut self,
        conn: &rusqlite::Connection,
        t: &crate::types::TickerData,
        now: u64,
    ) -> (r: Result<usize, WsError>)
        requires
            old(self).wf(),
            t.wf(),
            now <= i64::MAX,
        ensures
            final(self).wf(),
            final(self).conds == old(self).conds,
            to_map_post(*old(self), *final(self), *t),
            r matches Ok(n) ==> n == crate::monitor::alerts_of(
                old(self).conds@,
                *t,
                crate::monitor::to_map(old(self).last@),
                now,
            ).len(),
            r matches Err(e) ==> e is StoreUnavailable,
    {
        let alerts = self.evaluate_ticker(t, now);
        proof {
            crate::monitor::lemma_alert_timestamps(
                old(self).conds@,
                *t,
                crate::monitor::to_map(old(self).last@),
                now,
            );
        }
        let n = alerts.len();
        let mut i: usize = 0;
        while i < n
            invariant
                i <= n,
                n == alerts@.len(),
                forall|j: int| 0 <= j < alerts@.len() ==> #[trigger] alerts@[j].triggered_at == now,
                now <= i64::MAX,
                self.wf(),
                self.conds == old(self).conds,
                crate::monitor::to_map(self.last@) == crate::monitor::state_after(
                    old(self).conds@,
                    *t,
                    crate::monitor::to_map(old(self).last@),
                ),
            decreases n - i,
        {
            match insert_alert(conn, &alerts[i]) {
                Ok(_) => {},
                Err(e) => {
                    return Err(e);
                },
            }
            i = i + 1;
        }
        Ok(n)
    }
}

/// The trigger state moved exactly as the evaluation of this tick says.
pub open spec fn to_map_post(
    before: MonitoringService,
    after: MonitoringService,
    t: crate::types::TickerData,
) -> bool {
    crate::monitor::to_map(after.last@) == crate::monitor::state_after(
        before.conds@,
        t,
        crate::monitor::to_map(before.last@),
    )
}

} // verus!
