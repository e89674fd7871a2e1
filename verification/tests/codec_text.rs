use metaport::codec::{
    restore_parameters, restore_query, restore_settings, snapshot_parameters, snapshot_query,
    snapshot_settings,
};
use metaport::error::PortError;
use metaport::model::{Cache, Collection, Database, DbField, DbTable, Question};
use metaport::num::{int_text, parse_id};
use metaport::snapshot::SerializedSnapshot;
use metaport::text::{dedup_names, find_marked_runs, replace_all_chars, CharClass};

fn cs(s: &str) -> Vec<char> {
    s.chars().collect()
}

fn st(v: &Vec<char>) -> String {
    v.iter().collect()
}

fn question(id: i32, table_id: i32) -> Question {
    Question {
        id,
        name: cs("orders by day"),
        description: None,
        display: cs("table"),
        dataset_query: cs("{}"),
        visualization_settings: cs("{}"),
        database_id: None,
        table_id: Some(table_id),
        collection_id: None,
    }
}

fn source_cache() -> Cache {
    Cache {
        collections: vec![],
        databases: vec![Database { id: 1, name: cs("pg") }],
        tables: vec![DbTable {
            id: 2,
            name: cs("orders"),
            schema: None,
            db_id: 1,
            active: true,
            visibility_type: None,
        }],
        fields: vec![DbField { id: 3, name: cs("created_at"), table_id: 2 }],
    }
}

fn destination_cache() -> Cache {
    Cache {
        collections: vec![],
        databases: vec![Database { id: 10, name: cs("pg") }],
        tables: vec![DbTable {
            id: 20,
            name: cs("orders"),
            schema: None,
            db_id: 10,
            active: true,
            visibility_type: None,
        }],
        fields: vec![DbField { id: 30, name: cs("created_at"), table_id: 20 }],
    }
}

#[test]
fn snapshot_query_rewrites_all_markers() {
    let cache = source_cache();
    let raw = cs(r#"{"database":1,"query":{"source-table":2,"fields":[["field-id",3]]}}"#);
    let snap = snapshot_query(&cache, &raw).unwrap();
    assert_eq!(
        snap.to_string(),
        r#"{"database":"snapshot:database","query":{"source-table":"snapshot:table:public.orders","fields":["snapshot:field:created_at"]}}"#
    );
}

#[test]
fn round_trip_into_destination_ids_and_back() {
    let src = source_cache();
    let dst = destination_cache();
    let raw = cs(r#"{"database":1,"query":{"source-table":2,"fields":[["field-id",3]]}}"#);
    let marked = snapshot_query(&src, &raw).unwrap();

    // restore against the destination's table: destination identifiers
    let table = dst.table(20).unwrap().clone();
    let restored = restore_query(&dst, &table, &marked).unwrap();
    assert_eq!(
        restored,
        r#"{"database":10,"query":{"source-table":20,"fields":[["field-id",30]]}}"#
    );

    // snapshotting the restored payload reproduces the original markers
    let again = snapshot_query(&dst, &cs(&restored)).unwrap();
    assert_eq!(again.to_string(), marked.to_string());
}

#[test]
fn snapshot_pass_is_idempotent_on_snapshotted_payload() {
    let cache = source_cache();
    let raw = cs(r#"{"a":[["field-id",3],["field-id",3]],"b":1}"#);
    let once = snapshot_settings(&cache, &raw).unwrap();
    let twice = snapshot_settings(&cache, &cs(&once.to_string())).unwrap();
    assert_eq!(once.to_string(), twice.to_string());
}

#[test]
fn marker_coverage_three_occurrences_one_name() {
    // three identical identifier pairs are rewritten identically
    let cache = source_cache();
    let raw = cs(r#"[["field-id",3],["field-id",3],["field-id",3]]"#);
    let snap = snapshot_settings(&cache, &raw).unwrap();
    assert_eq!(
        snap.to_string(),
        r#"["snapshot:field:created_at","snapshot:field:created_at","snapshot:field:created_at"]"#
    );

    // the restore side resolves the distinct name once: the scanned list
    // holds three copies, the deduplicated list exactly one
    let restored_form = cs(
        r#"["snapshot:field:created_at","snapshot:field:created_at","snapshot:field:created_at"]"#,
    );
    let runs = find_marked_runs(
        &restored_form,
        &cs("\"snapshot:field:"),
        &cs("\""),
        CharClass::NameChars,
    );
    assert_eq!(runs.len(), 3);
    let names = dedup_names(&runs);
    assert_eq!(names.len(), 1);
    assert_eq!(st(&names[0]), "created_at");

    let dst = destination_cache();
    let table = dst.table(20).unwrap().clone();
    let snap = SerializedSnapshot::new(
        r#"["snapshot:field:created_at","snapshot:field:created_at","snapshot:field:created_at"]"#,
    )
    .unwrap();
    let restored = restore_settings(&dst, &table, &snap).unwrap();
    assert_eq!(restored, r#"[["field-id",30],["field-id",30],["field-id",30]]"#);
}

#[test]
fn restore_settings_handles_ref_wrapper() {
    let dst = destination_cache();
    let table = dst.table(20).unwrap().clone();
    let snap = SerializedSnapshot::new(r#"{"k":"snapshot:ref:field:created_at"}"#).unwrap();
    let restored = restore_settings(&dst, &table, &snap).unwrap();
    assert_eq!(restored, r#"{"k":"[\"ref\", [\"field-id\",30]]"}"#);
}

#[test]
fn snapshot_settings_scans_escaped_ref_wrapper() {
    let cache = source_cache();
    let raw = cs(r#"{"k":"[\"ref\",[\"field-id\",3]]"}"#);
    let snap = snapshot_settings(&cache, &raw).unwrap();
    assert_eq!(snap.to_string(), r#"{"k":"snapshot:ref:field:created_at"}"#);
}

#[test]
fn snapshot_parameters_rewrites_card_reference() {
    let cache = source_cache();
    let raw = cs(r#"[{"card_id":7,"target":["field-id",3]}]"#);
    let snap = snapshot_parameters(&cache, &raw).unwrap();
    assert_eq!(
        snap.to_string(),
        r#"[{"card_id":"snapshot:question","target":"snapshot:field:created_at"}]"#
    );
}

#[test]
fn restore_parameters_uses_owning_question_id() {
    let dst = destination_cache();
    let table = dst.table(20).unwrap().clone();
    let q = question(77, 20);
    let snap = SerializedSnapshot::new(
        r#"[{"card_id":"snapshot:question","target":"snapshot:field:created_at"}]"#,
    )
    .unwrap();
    let restored = restore_parameters(&dst, &q, &table, &snap).unwrap();
    assert_eq!(restored, r#"[{"card_id":77,"target":["field-id",30]}]"#);
}

#[test]
fn restore_unknown_field_name_fails_with_field_context() {
    let dst = destination_cache();
    let table = dst.table(20).unwrap().clone();
    let snap = SerializedSnapshot::new(r#"["snapshot:field:no_such_column"]"#).unwrap();
    let err = restore_settings(&dst, &table, &snap).unwrap_err();
    match err {
        PortError::NotFoundField(table_id, name) => {
            assert_eq!(table_id, 20);
            assert_eq!(st(&name), "no_such_column");
        }
        other => panic!("unexpected error: {:?}", other),
    }
}

#[test]
fn snapshot_unknown_field_id_fails() {
    let cache = source_cache();
    let raw = cs(r#"[["field-id",9999]]"#);
    let err = snapshot_settings(&cache, &raw).unwrap_err();
    assert!(matches!(err, PortError::NotFoundId(_, 9999)));
}

#[test]
fn snapshot_unknown_source_table_fails() {
    let cache = source_cache();
    let raw = cs(r#"{"database":1,"query":{"source-table":55}}"#);
    let err = snapshot_query(&cache, &raw).unwrap_err();
    assert!(matches!(err, PortError::NotFoundId(_, 55)));
}

#[test]
fn oversized_identifier_is_malformed() {
    let cache = source_cache();
    let raw = cs(r#"[["field-id",99999999999999999999]]"#);
    let err = snapshot_settings(&cache, &raw).unwrap_err();
    assert!(matches!(err, PortError::MalformedPayload));
}

#[test]
fn serialized_snapshot_accepts_only_well_formed_text() {
    assert!(SerializedSnapshot::new(r#"{"a":[1,2,3]}"#).is_ok());
    let err = SerializedSnapshot::new(r#"{"a":"#).unwrap_err();
    assert!(matches!(err, PortError::MalformedPayload));
}

#[test]
fn serialized_snapshot_keeps_its_text() {
    let snap = SerializedSnapshot::new(r#"{"a": [1, 2]}"#).unwrap();
    assert_eq!(snap.to_string(), r#"{"a": [1, 2]}"#);
}

#[test]
fn forward_pass_output_must_be_well_formed() {
    // a bare key-value fragment is rewritten, but the result is not a
    // well-formed payload on its own
    let cache = source_cache();
    let raw = cs(r#""database":1"#);
    let err = snapshot_query(&cache, &raw).unwrap_err();
    assert!(matches!(err, PortError::MalformedPayload));
}

#[test]
fn replace_all_replaces_every_occurrence_left_to_right() {
    let out = replace_all_chars(&cs("abcabcab"), &cs("ab"), &cs("X"));
    assert_eq!(st(&out), "XcXcX");
    let out = replace_all_chars(&cs("aaa"), &cs("aa"), &cs("b"));
    assert_eq!(st(&out), "ba");
}

#[test]
fn decimal_text_of_identifiers() {
    assert_eq!(st(&int_text(0)), "0");
    assert_eq!(st(&int_text(2147483647)), "2147483647");
    assert_eq!(st(&int_text(-5)), "-5");
}

#[test]
fn identifier_parsing_bounds() {
    assert_eq!(parse_id(&cs("0")), Some(0));
    assert_eq!(parse_id(&cs("2147483647")), Some(2147483647));
    assert_eq!(parse_id(&cs("2147483648")), None);
    assert_eq!(parse_id(&cs("042")), Some(42));
}
