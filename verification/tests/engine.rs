use folketinget_mirror::api::{document_from_row, documents_query_statement, documents_since_param};
use folketinget_mirror::catalog::{get_entity_by_name, Catalog, ColumnDescriptor, EntityType, ScalarKind};
use folketinget_mirror::limiter::TokenBucket;
use folketinget_mirror::report::{backup_file_name, format_metric_line};
use folketinget_mirror::settings::Settings;
use folketinget_mirror::statement::{count_query_statement, cursor_query_statement, format_insert_statement, prepare_insert};
use folketinget_mirror::sync::{excluded_entity_names, plan_cycle};
use folketinget_mirror::timestamp::Timestamp;
use folketinget_mirror::value::{serialize, Field, Record, Value};
use folketinget_mirror::worker::{
    build_page_request, plan_page_inserts, progress_percent, remaining_count, resolve_cursor,
    Page, RemoteFetchError, WorkerState, worker_step,
};

fn column(name: &str, kind: ScalarKind, key: bool) -> ColumnDescriptor {
    ColumnDescriptor { name: name.to_string(), kind, nullable: !key, key }
}

fn case_entity() -> EntityType {
    EntityType {
        name: "Case".to_string(),
        columns: vec![
            column("id", ScalarKind::Int32, true),
            column("title", ScalarKind::Text, false),
            column("updated", ScalarKind::DateTime, false),
        ],
    }
}

fn case_record(id: u32, updated: &str) -> Record {
    Record {
        fields: vec![
            Field { name: "id".to_string(), value: Value::Number(id.to_string()) },
            Field { name: "title".to_string(), value: Value::Text(format!("case {}", id)) },
            Field { name: "updated".to_string(), value: Value::Text(updated.to_string()) },
        ],
    }
}

fn updated_stamp(k: u32) -> String {
    format!("2021-01-01T{:02}:{:02}:{:02}.000", k / 3600, (k / 60) % 60, k % 60)
}

#[test]
fn insert_statement_names_every_column_once() {
    assert_eq!(
        format_insert_statement(&case_entity()),
        "INSERT INTO Case(id, title, updated) VALUES(:id, :title, :updated)"
    );
}

#[test]
fn create_statement_mirrors_the_catalog() {
    assert_eq!(
        folketinget_mirror::statement::format_create_statement(&case_entity()),
        "CREATE TABLE IF NOT EXISTS Case(id INTEGER NOT NULL, title TEXT, updated DATETIME, PRIMARY KEY(id))"
    );
    let keyless = EntityType {
        name: "Log".to_string(),
        columns: vec![column("note", ScalarKind::Text, false)],
    };
    assert_eq!(
        folketinget_mirror::statement::format_create_statement(&keyless),
        "CREATE TABLE IF NOT EXISTS Log(note TEXT)"
    );
}

#[test]
fn serialize_renders_each_scalar_kind() {
    assert_eq!(serialize(&Value::Null), "NULL");
    assert_eq!(serialize(&Value::Bool(true)), "true");
    assert_eq!(serialize(&Value::Bool(false)), "false");
    assert_eq!(serialize(&Value::Number("42".to_string())), "42");
    assert_eq!(serialize(&Value::Text("hello".to_string())), "hello");
}

#[test]
fn prepare_insert_binds_every_catalog_column() {
    let entity = case_entity();
    let record = case_record(7, "2021-01-01T00:00:07.000");
    let plan = prepare_insert(&entity, &record).unwrap();
    assert_eq!(plan.statement, format_insert_statement(&entity));
    assert_eq!(plan.params.len(), 3);
    assert_eq!(plan.params[0].name, ":id");
    assert_eq!(plan.params[0].value, "7");
    assert_eq!(plan.params[1].name, ":title");
    assert_eq!(plan.params[1].value, "case 7");
    assert_eq!(plan.params[2].name, ":updated");
    assert_eq!(plan.params[2].value, "2021-01-01T00:00:07.000");
}

#[test]
fn prepare_insert_binds_missing_columns_as_null() {
    let entity = case_entity();
    let record = Record {
        fields: vec![Field { name: "id".to_string(), value: Value::Number("1".to_string()) }],
    };
    let plan = prepare_insert(&entity, &record).unwrap();
    assert_eq!(plan.params[1].value, "NULL");
    assert_eq!(plan.params[2].value, "NULL");
}

#[test]
fn prepare_insert_surfaces_a_non_scalar_column() {
    let entity = case_entity();
    let record = Record {
        fields: vec![
            Field { name: "id".to_string(), value: Value::Number("1".to_string()) },
            Field { name: "title".to_string(), value: Value::Composite },
        ],
    };
    let err = prepare_insert(&entity, &record).unwrap_err();
    assert_eq!(err.column, "title");
}

#[test]
fn catalog_lookup_finds_by_name() {
    let catalog = Catalog { entities: vec![case_entity()] };
    assert_eq!(get_entity_by_name(&catalog, "Case").unwrap().columns.len(), 3);
    assert!(get_entity_by_name(&catalog, "Missing").is_none());
}

#[test]
fn query_statements_name_the_entity_table() {
    assert_eq!(
        cursor_query_statement("Case"),
        "SELECT COUNT(id), MAX(opdateringsdato) FROM Case;"
    );
    assert_eq!(
        count_query_statement("Case"),
        "SELECT COUNT(id) FROM (SELECT DISTINCT id FROM Case);"
    );
}

#[test]
fn page_requests_resume_strictly_after_the_cursor() {
    let req = build_page_request("Case", &None);
    assert_eq!(req.resource, "Case");
    assert_eq!(req.order_field, "opdateringsdato");
    assert!(req.ascending);
    assert_eq!(req.filter_field, "opdateringsdato");
    assert_eq!(req.filter_value, "datetime'1970-01-01T00:00:00.000'");
    assert!(req.count_all_pages);

    let cursor = Timestamp { year: 2021, month: 11, day: 19, hour: 16, minute: 45, second: 35, milli: 537 };
    let req = build_page_request("Case", &Some(cursor));
    assert_eq!(req.filter_value, "datetime'2021-11-19T16:45:35.537'");
}

#[test]
fn resolve_cursor_reads_the_stored_maximum() {
    assert_eq!(resolve_cursor(&None), None);
    assert_eq!(resolve_cursor(&Some("not a timestamp".to_string())), None);
    assert_eq!(
        resolve_cursor(&Some("2021-11-19T16:45:35.537".to_string())),
        Some(Timestamp { year: 2021, month: 11, day: 19, hour: 16, minute: 45, second: 35, milli: 537 })
    );
}

#[test]
fn worker_ends_exactly_on_an_empty_page_or_shutdown() {
    let start = WorkerState::start();
    let failed: Result<Page, RemoteFetchError> =
        Err(RemoteFetchError { message: "timeout".to_string() });
    let after_failure = worker_step(&start, &failed, false);
    assert_eq!(after_failure, WorkerState { total: 0, done: false });

    let full: Result<Page, RemoteFetchError> =
        Ok(Page { records: vec![case_record(1, "2021-01-01T00:00:01.000")], count: None });
    let after_page = worker_step(&after_failure, &full, false);
    assert_eq!(after_page, WorkerState { total: 1, done: false });

    let empty: Result<Page, RemoteFetchError> = Ok(Page { records: vec![], count: None });
    let after_empty = worker_step(&after_page, &empty, false);
    assert_eq!(after_empty, WorkerState { total: 1, done: true });
}

#[test]
fn shutdown_ends_the_worker_at_the_next_checkpoint() {
    let start = WorkerState::start();
    let full: Result<Page, RemoteFetchError> =
        Ok(Page { records: vec![case_record(1, "2021-01-01T00:00:01.000")], count: None });
    let after = worker_step(&start, &full, true);
    assert_eq!(after, WorkerState { total: 1, done: true });

    let failed: Result<Page, RemoteFetchError> =
        Err(RemoteFetchError { message: "timeout".to_string() });
    assert!(worker_step(&start, &failed, true).done);
}

#[test]
fn remaining_counts_parse_or_default_to_zero() {
    assert_eq!(remaining_count(&Page { records: vec![], count: None }), Some(0));
    assert_eq!(
        remaining_count(&Page { records: vec![], count: Some("37".to_string()) }),
        Some(37)
    );
    assert_eq!(
        remaining_count(&Page { records: vec![], count: Some("many".to_string()) }),
        None
    );
}

#[test]
fn progress_percentages_round_down() {
    assert_eq!(progress_percent(0, 0), None);
    assert_eq!(progress_percent(50, 50), Some(50));
    assert_eq!(progress_percent(0, 10), Some(100));
    assert_eq!(progress_percent(100, 0), Some(0));
    assert_eq!(progress_percent(1, 2), Some(67));
}

#[test]
fn mirror_cycle_drains_an_entity_completely() {
    // the concrete scenario: pages of 100, 100 and 37 records, then the
    // empty page confirming completion
    let entity = case_entity();
    let mut store: Vec<String> = Vec::new();
    let mut requests = 0u32;
    let mut rows_inserted = 0usize;
    let mut bucket = TokenBucket::new(5, 0);
    let mut now_ms = 0u64;

    let mut remote: Vec<Vec<Record>> = Vec::new();
    let mut k = 0u32;
    for size in [100u32, 100, 37] {
        let mut page: Vec<Record> = Vec::new();
        for _ in 0..size {
            k += 1;
            page.push(case_record(k, &updated_stamp(k)));
        }
        remote.push(page);
    }

    let mut state = WorkerState::start();
    let mut next_page = 0usize;
    while !state.done {
        let cursor = resolve_cursor(&store.iter().max().cloned());
        let request = build_page_request("Case", &cursor);
        assert_eq!(request.resource, "Case");
        // one admission per request through the shared gate
        while let Some(wait) = bucket.try_acquire(now_ms) {
            now_ms += wait;
        }
        requests += 1;
        let records = if next_page < remote.len() { remote[next_page].clone() } else { Vec::new() };
        next_page += 1;
        let outcome: Result<Page, RemoteFetchError> =
            Ok(Page { records, count: None });
        if let Ok(page) = &outcome {
            let plans = plan_page_inserts(&entity, page).unwrap();
            assert_eq!(plans.len(), page.records.len());
            for record in &page.records {
                for field in &record.fields {
                    if field.name == "updated" {
                        if let Value::Text(ts) = &field.value {
                            store.push(ts.clone());
                            rows_inserted += 1;
                        }
                    }
                }
            }
        }
        state = worker_step(&state, &outcome, false);
    }

    assert_eq!(requests, 4);
    assert_eq!(state.total, 237);
    assert_eq!(rows_inserted, 237);
    assert_eq!(store.iter().max().unwrap(), &updated_stamp(237));
}

#[test]
fn cursor_never_moves_backwards_as_the_store_grows() {
    let mut store: Vec<String> = Vec::new();
    let mut last = "1970-01-01T00:00:00.000".to_string();
    for k in [5u32, 2, 9, 9, 40] {
        store.push(updated_stamp(k));
        let cursor = resolve_cursor(&store.iter().max().cloned()).unwrap();
        let rendered = folketinget_mirror::timestamp::format_timestamp(&cursor);
        assert!(rendered >= last);
        last = rendered;
    }
}

#[test]
fn excluded_entities_are_never_scheduled() {
    let catalog = Catalog {
        entities: vec![
            EntityType { name: "Case".to_string(), columns: vec![] },
            EntityType { name: "Sambehandlinger".to_string(), columns: vec![] },
            EntityType { name: "Dokument".to_string(), columns: vec![] },
        ],
    };
    let excluded = excluded_entity_names();
    assert_eq!(excluded, vec!["Sambehandlinger".to_string()]);
    let planned = plan_cycle(&catalog, &excluded);
    assert_eq!(planned, vec!["Case".to_string(), "Dokument".to_string()]);
    let nothing_excluded = plan_cycle(&catalog, &Vec::new());
    assert_eq!(nothing_excluded.len(), 3);
}

#[test]
fn the_gate_admits_at_most_burst_plus_refill_per_window() {
    let mut bucket = TokenBucket::new(3, 0);
    let mut admitted = 0u32;
    for at in [0u64, 0, 0, 0, 500, 999, 999, 999, 999, 999] {
        if bucket.try_acquire(at).is_none() {
            admitted += 1;
        }
    }
    // burst of three at the start, one refilled by 500 ms, one more by 999 ms
    assert_eq!(admitted, 5);
    assert!(admitted <= 3 + 3);
}

#[test]
fn denied_acquires_say_how_long_to_wait() {
    let mut bucket = TokenBucket::new(5, 0);
    for _ in 0..5 {
        assert_eq!(bucket.try_acquire(0), None);
    }
    assert_eq!(bucket.try_acquire(0), Some(200));
    assert_eq!(bucket.try_acquire(200), None);
}

#[test]
fn metric_lines_carry_the_entity_and_its_count() {
    assert_eq!(
        format_metric_line("Sag", 42),
        "items_cached_total{resource_type=\"Sag\"} 42\n"
    );
    assert_eq!(
        format_metric_line("Dokument", 0),
        "items_cached_total{resource_type=\"Dokument\"} 0\n"
    );
}

#[test]
fn backup_names_carry_the_instant() {
    let t = Timestamp { year: 2021, month: 11, day: 19, hour: 16, minute: 45, second: 35, milli: 537 };
    assert_eq!(backup_file_name(&t), "folketinget_2021-11-19T16-45-35.sqlite3");
}

#[test]
fn settings_default_to_five_requests_per_second() {
    let settings = Settings::new();
    assert_eq!(settings.scraper.requests_per_second, 5);
    assert_eq!(settings.sqlite.path, "data/folketinget.sqlite3");
}

#[test]
fn the_documents_query_is_bounded_and_ordered() {
    assert_eq!(
        documents_query_statement(),
        "SELECT id, opdateringsdato, titel FROM Dokument WHERE datetime(opdateringsdato) > datetime(:since) ORDER BY opdateringsdato ASC LIMIT 100"
    );
}

#[test]
fn document_rows_convert_store_time_to_utc() {
    let doc = document_from_row(24, "2021-11-19T16:45:35.537Z", "a title".to_string()).unwrap();
    assert_eq!(doc.id, 24);
    assert_eq!(doc.title, "a title");
    assert_eq!(
        doc.last_updated,
        Timestamp { year: 2021, month: 11, day: 19, hour: 15, minute: 45, second: 35, milli: 537 }
    );
    assert!(document_from_row(1, "garbage", "t".to_string()).is_none());
}

#[test]
fn since_params_move_utc_onto_the_store_clock() {
    let since = Timestamp { year: 2021, month: 11, day: 19, hour: 15, minute: 45, second: 35, milli: 537 };
    assert_eq!(
        documents_since_param(&since).unwrap(),
        "2021-11-19T16:45:35.537Z"
    );
}
