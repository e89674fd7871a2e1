use metaport::assemble::{
    build_card_snapshot, build_dashboard_snapshot, build_question_snapshot, card_question_query,
    dashboard_import_scope, plan_card_import, plan_dashboard_row, plan_question_import,
    question_import_scope, CardPlan,
};
use metaport::error::{EntityKind, PortError};
use metaport::model::{Cache, Collection, Dashboard, DashboardCard, Database, DbField, DbTable, Question};
use metaport::resolve::{discover_table, resolve_collection};
use metaport::snapshot::{
    CollectionDependency, DashboardSnapshot, CardSnapshot, QuestionDependency, QuestionSnapshot,
    SerializedSnapshot, TableDependency, DatabaseDependency,
};

fn cs(s: &str) -> Vec<char> {
    s.chars().collect()
}

fn st(v: &Vec<char>) -> String {
    v.iter().collect()
}

fn table(id: i32, name: &str, db_id: i32, active: bool, visibility: Option<&str>) -> DbTable {
    DbTable {
        id,
        name: cs(name),
        schema: None,
        db_id,
        active,
        visibility_type: visibility.map(cs),
    }
}

fn cache_with_two_orders_tables() -> Cache {
    Cache {
        collections: vec![],
        databases: vec![
            Database { id: 1, name: cs("warehouse_a") },
            Database { id: 2, name: cs("warehouse_b") },
        ],
        tables: vec![table(10, "orders", 1, true, None), table(20, "orders", 2, true, None)],
        fields: vec![],
    }
}

fn import_cache() -> Cache {
    Cache {
        collections: vec![
            Collection { id: 5, name: cs("reports"), archived: false },
        ],
        databases: vec![Database { id: 1, name: cs("pg") }],
        tables: vec![table(10, "orders", 1, true, None)],
        fields: vec![DbField { id: 7, name: cs("created_at"), table_id: 10 }],
    }
}

fn question_snapshot(collection: Option<&str>, with_table: bool) -> QuestionSnapshot {
    QuestionSnapshot {
        name: cs("orders by day"),
        description: None,
        display: cs("table"),
        query: SerializedSnapshot::new(r#"{"database":"snapshot:database"}"#).unwrap(),
        settings: SerializedSnapshot::new("{}").unwrap(),
        collection: collection.map(|c| CollectionDependency { collection: cs(c) }),
        database: None,
        table: if with_table {
            Some(TableDependency { table: cs("orders"), schema: None })
        } else {
            None
        },
    }
}

#[test]
fn tie_break_prefers_hinted_data_source() {
    let cache = cache_with_two_orders_tables();
    let dep = TableDependency { table: cs("orders"), schema: None };
    let hint = Some(DatabaseDependency { database: cs("warehouse_b") });
    let found = discover_table(&cache, &dep, &hint).unwrap();
    assert_eq!(found.id, 20);
    assert_eq!(found.db_id, 2);
}

#[test]
fn tie_break_without_hint_takes_first_active_unrestricted() {
    let mut cache = cache_with_two_orders_tables();
    // make the first candidate restricted and the second plainly visible
    cache.tables = vec![
        table(10, "orders", 1, true, Some("hidden")),
        table(20, "orders", 2, true, None),
    ];
    let dep = TableDependency { table: cs("orders"), schema: None };
    let found = discover_table(&cache, &dep, &None).unwrap();
    assert_eq!(found.id, 20);

    // all restricted: the first active one wins
    cache.tables = vec![
        table(10, "orders", 1, false, Some("hidden")),
        table(20, "orders", 2, true, Some("hidden")),
    ];
    let found = discover_table(&cache, &dep, &None).unwrap();
    assert_eq!(found.id, 20);

    // none active: the first match of any kind
    cache.tables = vec![
        table(10, "orders", 1, false, Some("hidden")),
        table(20, "orders", 2, false, Some("hidden")),
    ];
    let found = discover_table(&cache, &dep, &None).unwrap();
    assert_eq!(found.id, 10);

    // nothing of that name at all
    let missing = TableDependency { table: cs("no_such"), schema: None };
    assert!(discover_table(&cache, &missing, &None).is_none());
}

#[test]
fn archived_collections_are_never_resolved() {
    let cache = Cache {
        collections: vec![
            Collection { id: 1, name: cs("reports"), archived: true },
            Collection { id: 2, name: cs("reports"), archived: false },
        ],
        databases: vec![],
        tables: vec![],
        fields: vec![],
    };
    let col = resolve_collection(&cache, &cs("reports")).unwrap();
    assert_eq!(col.id, 2);

    let only_archived = Cache {
        collections: vec![Collection { id: 1, name: cs("reports"), archived: true }],
        databases: vec![],
        tables: vec![],
        fields: vec![],
    };
    let err = resolve_collection(&only_archived, &cs("reports")).unwrap_err();
    assert!(matches!(err, PortError::NotFoundName(EntityKind::Collection, _)));
}

#[test]
fn missing_collection_dependency_aborts_question_import() {
    let cache = import_cache();
    let snap = question_snapshot(None, true);
    let err = question_import_scope(&cache, &snap).unwrap_err();
    assert!(matches!(err, PortError::MissingDependency(EntityKind::Collection)));
}

#[test]
fn missing_table_dependency_aborts_before_any_row() {
    let cache = import_cache();
    let snap = question_snapshot(Some("reports"), false);
    let collection = question_import_scope(&cache, &snap).unwrap();
    assert_eq!(collection.id, 5);

    // simulated store: rows only ever appear when a plan succeeds
    let mut rows: Vec<String> = Vec::new();
    match plan_question_import(&cache, &snap, collection.id, false) {
        Ok(row) => rows.push(st(&row.name)),
        Err(e) => assert!(matches!(e, PortError::MissingDependency(EntityKind::Table))),
    }
    assert_eq!(rows.len(), 0);
}

#[test]
fn duplicate_question_name_in_scope_conflicts() {
    let cache = import_cache();
    let snap = question_snapshot(Some("reports"), true);

    // simulated store of (name, collection) rows with a uniqueness check
    let mut rows: Vec<(String, i32)> = Vec::new();

    // first import
    let col = question_import_scope(&cache, &snap).unwrap();
    let exists = rows.iter().any(|r| r.0 == st(&snap.name) && r.1 == col.id);
    let row = plan_question_import(&cache, &snap, col.id, exists).unwrap();
    rows.push((st(&row.name), row.collection_id));

    // second import of an identical snapshot
    let snap2 = question_snapshot(Some("reports"), true);
    let col2 = question_import_scope(&cache, &snap2).unwrap();
    let exists2 = rows.iter().any(|r| r.0 == st(&snap2.name) && r.1 == col2.id);
    let err = plan_question_import(&cache, &snap2, col2.id, exists2).unwrap_err();
    match err {
        PortError::Conflict(EntityKind::Question, name) => {
            assert_eq!(st(&name), "orders by day");
        }
        other => panic!("unexpected error: {:?}", other),
    }
    assert_eq!(rows.len(), 1);
}

#[test]
fn question_import_restores_against_discovered_table() {
    let cache = import_cache();
    let snap = question_snapshot(Some("reports"), true);
    let col = question_import_scope(&cache, &snap).unwrap();
    let row = plan_question_import(&cache, &snap, col.id, false).unwrap();
    assert_eq!(st(&row.name), "orders by day");
    assert_eq!(row.database_id, 1);
    assert_eq!(row.table_id, 10);
    assert_eq!(row.collection_id, 5);
    assert_eq!(row.dataset_query, r#"{"database":1}"#);
    assert_eq!(row.visualization_settings, "{}");
}

fn card(question: Option<&str>) -> CardSnapshot {
    CardSnapshot {
        size_x: 4,
        size_y: 4,
        row: 0,
        col: 0,
        question: question.map(|q| QuestionDependency { question: cs(q), collection: None }),
        parameters: SerializedSnapshot::new("[]").unwrap(),
        settings: SerializedSnapshot::new("{}").unwrap(),
    }
}

fn stored_question(id: i32, name: &str, table_id: Option<i32>) -> Question {
    Question {
        id,
        name: cs(name),
        description: None,
        display: cs("table"),
        dataset_query: cs("{}"),
        visualization_settings: cs("{}"),
        database_id: Some(1),
        table_id,
        collection_id: None,
    }
}

#[test]
fn dashboard_import_is_all_or_nothing() {
    let cache = import_cache();
    let dashboard = DashboardSnapshot {
        name: cs("overview"),
        description: None,
        parameters: SerializedSnapshot::new("[]").unwrap(),
        collection: None,
        cards: vec![card(Some("first")), card(Some("missing")), card(Some("third"))],
    };

    // simulated store: saved queries and already-persisted rows
    let store_questions =
        vec![stored_question(100, "first", Some(10)), stored_question(102, "third", Some(10))];
    let mut persisted: Vec<String> = Vec::new();

    // the driver: resolve scope, check uniqueness, then stage all writes
    // inside one transaction and discard them on the first failure
    let scope = dashboard_import_scope(&cache, &dashboard).unwrap();
    assert!(scope.is_none());
    let row = plan_dashboard_row(&dashboard, None, false).unwrap();

    let mut staged: Vec<String> = Vec::new();
    staged.push(st(&row.name));
    let mut failed: Option<PortError> = None;
    for c in &dashboard.cards {
        let query = card_question_query(&cache, c).unwrap();
        let found = query.as_ref().and_then(|q| {
            store_questions.iter().find(|sq| st(&sq.name) == st(&q.question))
        });
        match plan_card_import(&cache, c, found) {
            Ok(CardPlan::Insert(card_row)) => staged.push(format!("card:{}", card_row.card_id)),
            Ok(CardPlan::Skip) => {}
            Err(e) => {
                failed = Some(e);
                break;
            }
        }
    }
    match failed {
        Some(e) => {
            // roll back: nothing persists, not even the dashboard row
            staged.clear();
            assert!(matches!(e, PortError::NotFoundName(EntityKind::Question, _)));
        }
        None => persisted.append(&mut staged),
    }
    assert_eq!(persisted.len(), 0);
}

#[test]
fn cards_without_question_dependency_are_skipped() {
    let cache = import_cache();
    let plan = plan_card_import(&cache, &card(None), None).unwrap();
    assert!(matches!(plan, CardPlan::Skip));
}

#[test]
fn card_with_unknown_question_table_fails() {
    let cache = import_cache();
    let q = stored_question(100, "first", None);
    let err = plan_card_import(&cache, &card(Some("first")), Some(&q)).unwrap_err();
    assert!(matches!(err, PortError::MissingDependency(EntityKind::Table)));
}

#[test]
fn dashboard_conflict_aborts_import() {
    let dashboard = DashboardSnapshot {
        name: cs("overview"),
        description: None,
        parameters: SerializedSnapshot::new("[]").unwrap(),
        collection: None,
        cards: vec![],
    };
    let err = plan_dashboard_row(&dashboard, None, true).unwrap_err();
    assert!(matches!(err, PortError::Conflict(EntityKind::Dashboard, _)));
}

#[test]
fn export_question_emits_name_based_dependencies() {
    let mut cache = import_cache();
    cache.collections = vec![Collection { id: 5, name: cs("reports"), archived: false }];
    let q = Question {
        id: 42,
        name: cs("orders by day"),
        description: Some(cs("daily orders")),
        display: cs("line"),
        dataset_query: cs(r#"{"database":1,"query":{"source-table":10,"fields":[["field-id",7]]}}"#),
        visualization_settings: cs("{}"),
        database_id: Some(1),
        table_id: Some(10),
        collection_id: Some(5),
    };
    let snap = build_question_snapshot(&cache, &q).unwrap();
    assert_eq!(st(&snap.name), "orders by day");
    assert_eq!(st(&snap.collection.as_ref().unwrap().collection), "reports");
    assert_eq!(st(&snap.database.as_ref().unwrap().database), "pg");
    assert_eq!(st(&snap.table.as_ref().unwrap().table), "orders");
    assert_eq!(
        snap.query.to_string(),
        r#"{"database":"snapshot:database","query":{"source-table":"snapshot:table:public.orders","fields":["snapshot:field:created_at"]}}"#
    );
}

#[test]
fn export_question_fails_on_unknown_collection() {
    let cache = import_cache();
    let mut q = stored_question(42, "orders by day", Some(10));
    q.collection_id = Some(99);
    let err = build_question_snapshot(&cache, &q).unwrap_err();
    assert!(matches!(err, PortError::NotFoundId(EntityKind::Collection, 99)));
}

#[test]
fn export_dashboard_with_cards() {
    let cache = import_cache();
    let dashboard = Dashboard {
        id: 9,
        name: cs("overview"),
        description: None,
        parameters: cs("[]"),
        collection_id: None,
    };
    let cards = vec![DashboardCard {
        size_x: 4,
        size_y: 3,
        row: 0,
        col: 0,
        card_id: Some(42),
        parameter_mappings: cs(r#"[{"card_id":42,"target":["field-id",7]}]"#),
        visualization_settings: cs("{}"),
    }];
    let questions = vec![Some(stored_question(42, "orders by day", Some(10)))];
    let snap = build_dashboard_snapshot(&cache, &dashboard, &cards, &questions).unwrap();
    assert_eq!(st(&snap.name), "overview");
    assert_eq!(snap.cards.len(), 1);
    let c = &snap.cards[0];
    assert_eq!(st(&c.question.as_ref().unwrap().question), "orders by day");
    assert_eq!(
        c.parameters.to_string(),
        r#"[{"card_id":"snapshot:question","target":"snapshot:field:created_at"}]"#
    );
}

#[test]
fn export_card_without_backing_question_keeps_payloads() {
    let cache = import_cache();
    let c = DashboardCard {
        size_x: 2,
        size_y: 2,
        row: 1,
        col: 1,
        card_id: None,
        parameter_mappings: cs("[]"),
        visualization_settings: cs("{}"),
    };
    let snap = build_card_snapshot(&cache, &c, None).unwrap();
    assert!(snap.question.is_none());
    assert_eq!(snap.parameters.to_string(), "[]");
}

#[test]
fn cache_lookup_errors_carry_kind_and_id() {
    let cache = import_cache();
    let err = cache.collection(99).unwrap_err();
    assert_eq!(err, PortError::NotFoundId(EntityKind::Collection, 99));
    assert_eq!(err.entity_kind(), Some(EntityKind::Collection));
    assert!(cache.database(1).is_ok());
    assert!(cache.table(10).is_ok());
    assert!(cache.field(7).is_ok());
    let err = cache.table_field(10, &cs("no_such")).unwrap_err();
    assert!(matches!(err, PortError::NotFoundField(10, _)));
}

#[test]
fn cache_searches_filter_by_exact_name_and_schema() {
    let cache = cache_with_two_orders_tables();
    assert_eq!(cache.search_databases(&cs("warehouse_a")).len(), 1);
    assert_eq!(cache.search_databases(&cs("warehouse")).len(), 0);
    assert_eq!(cache.search_tables(&cs("orders"), &cs("public")).len(), 2);
    assert_eq!(cache.search_tables(&cs("orders"), &cs("other")).len(), 0);
}

#[test]
fn table_dependency_schema_defaults() {
    let dep = TableDependency { table: cs("orders"), schema: None };
    let fallback = cs("public");
    assert_eq!(st(dep.schema_or(&fallback)), "public");
    let dep = TableDependency { table: cs("orders"), schema: Some(cs("sales")) };
    assert_eq!(st(dep.schema_or(&fallback)), "sales");
}
