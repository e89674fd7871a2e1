//! The record assembler.
//!
//! Orchestrates a full export or import of a composite record.  Everything
//! here is pure: the storage boundary around it reads rows, answers
//! existence checks and performs inserts, and the functions of this module
//! decide, from the cache and from the store's answers, what the snapshot
//! or the rows to insert are — or which error aborts the whole operation.
//! An import driver calls the scope function, asks the store its one
//! uniqueness question, and only then builds rows; no row is built once any
//! step has failed, so a failed import writes nothing.

use crate::codec::{
    restore_parameters, restore_query, restore_settings, snapshot_parameters, snapshot_query,
    snapshot_settings, spec_restore_parameters, spec_restore_query, spec_restore_settings,
    spec_snapshot_parameters, spec_snapshot_query, spec_snapshot_settings, CodecOutcome,
};
use crate::error::{outcome_matches, EntityKind, PortError, PortOutcome};
use crate::model::{
    clone_opt_chars, lookup_collection, lookup_database, lookup_table, Cache, CacheView,
    CollectionView, DashboardCard, DashboardCardView, DashboardView, DatabaseView, DbTableView,
    Question, QuestionView,
};
use crate::resolve::{
    collection_live, discover_table, resolve_collection, spec_database_hint, spec_discover,
    spec_table_candidates,
};
use crate::snapshot::{
    json_wf, CardSnapshot, CardSnapshotView, CollectionDependency, CollectionDependencyView,
    DashboardSnapshot, DashboardSnapshotView, DatabaseDependency, DatabaseDependencyView,
    QuestionDependency, QuestionDependencyView, QuestionSnapshot, QuestionSnapshotView,
    TableDependency, TableDependencyView,
};
use vstd::prelude::*;

verus! {

// ---------------------------------------------------------------------------
// Export of a saved query.
// ---------------------------------------------------------------------------

/// Exporting a saved query once its direct dependencies resolved: run the
/// codec forward over both payloads and emit the snapshot with name-based
/// dependency references.
pub open spec fn spec_export_question_payloads(
    c: CacheView,
    q: QuestionView,
    col: Option<CollectionView>,
    db: Option<DatabaseView>,
    tbl: Option<DbTableView>,
) -> PortOutcome<QuestionSnapshotView> {
    match spec_snapshot_query(c.fields, c.tables, q.dataset_query) {
        CodecOutcome::Done(qt) => if !json_wf(qt) {
            PortOutcome::Malformed
        } else {
            match spec_snapshot_settings(c.fields, q.visualization_settings) {
                CodecOutcome::Done(st) => if !json_wf(st) {
                    PortOutcome::Malformed
                } else {
                    PortOutcome::Done(
                        QuestionSnapshotView {
                            name: q.name,
                            description: q.description,
                            display: q.display,
                            query: qt,
                            settings: st,
                            collection: match col {
                                Some(cv) => Some(CollectionDependencyView { collection: cv.name }),
                                None => None,
                            },
                            database: match db {
                                Some(dv) => Some(DatabaseDependencyView { database: dv.name }),
                                None => None,
                            },
                            table: match tbl {
                                Some(tv) => Some(
                                    TableDependencyView { table: tv.name, schema: tv.schema },
                                ),
                                None => None,
                            },
                        },
                    )
                },
                CodecOutcome::MissingFieldId(id) => PortOutcome::NotFoundId(EntityKind::Field, id),
                _ => PortOutcome::Malformed,
            }
        },
        CodecOutcome::MissingFieldId(id) => PortOutcome::NotFoundId(EntityKind::Field, id),
        CodecOutcome::MissingTableId(id) => PortOutcome::NotFoundId(EntityKind::Table, id),
        _ => PortOutcome::Malformed,
    }
}

/// Exporting a saved query: resolve its collection, data source and table
/// references through the cache — each one that is declared must exist —
/// then snapshot both payloads.
pub open spec fn spec_export_question(c: CacheView, q: QuestionView) -> PortOutcome<
    QuestionSnapshotView,
> {
    match q.collection_id {
        Some(cid) => match lookup_collection(c.collections, cid) {
            None => PortOutcome::NotFoundId(EntityKind::Collection, cid),
            Some(col) => spec_export_question_db(c, q, Some(col)),
        },
        None => spec_export_question_db(c, q, None),
    }
}

pub open spec fn spec_export_question_db(
    c: CacheView,
    q: QuestionView,
    col: Option<CollectionView>,
) -> PortOutcome<QuestionSnapshotView> {
    match q.database_id {
        Some(did) => match lookup_database(c.databases, did) {
            None => PortOutcome::NotFoundId(EntityKind::Database, did),
            Some(db) => spec_export_question_tbl(c, q, col, Some(db)),
        },
        None => spec_export_question_tbl(c, q, col, None),
    }
}

pub open spec fn spec_export_question_tbl(
    c: CacheView,
    q: QuestionView,
    col: Option<CollectionView>,
    db: Option<DatabaseView>,
) -> PortOutcome<QuestionSnapshotView> {
    match q.table_id {
        Some(tid) => match lookup_table(c.tables, tid) {
            None => PortOutcome::NotFoundId(EntityKind::Table, tid),
            Some(tbl) => spec_export_question_payloads(c, q, col, db, Some(tbl)),
        },
        None => spec_export_question_payloads(c, q, col, db, None),
    }
}

/// Builds the portable snapshot of one saved query.
pub fn build_question_snapshot(cache: &Cache, question: &Question) -> (r: Result<
    QuestionSnapshot,
    PortError,
>)
    ensures
        outcome_matches(r, spec_export_question(cache@, question@)),
{
    let collection: Option<&crate::model::Collection> = match &question.collection_id {
        Some(cid) => match cache.collection(*cid) {
            Ok(c) => Some(c),
            Err(e) => {
                return Err(e);
            },
        },
        None => None,
    };
    let database: Option<&crate::model::Database> = match &question.database_id {
        Some(did) => match cache.database(*did) {
            Ok(d) => Some(d),
            Err(e) => {
                return Err(e);
            },
        },
        None => None,
    };
    let table: Option<&crate::model::DbTable> = match &question.table_id {
        Some(tid) => match cache.table(*tid) {
            Ok(t) => Some(t),
            Err(e) => {
                return Err(e);
            },
        },
        None => None,
    };
    let query = match snapshot_query(cache, &question.dataset_query) {
        Ok(q) => q,
        Err(e) => {
            return Err(e);
        },
    };
    let settings = match snapshot_settings(cache, &question.visualization_settings) {
        Ok(s) => s,
        Err(e) => {
            return Err(e);
        },
    };
    Ok(
        QuestionSnapshot {
            name: question.name.clone(),
            description: clone_opt_chars(&question.description),
            display: question.display.clone(),
            query,
            settings,
            collection: match collection {
                Some(c) => Some(CollectionDependency { collection: c.name.clone() }),
                None => None,
            },
            database: match database {
                Some(d) => Some(DatabaseDependency { database: d.name.clone() }),
                None => None,
            },
            table: match table {
                Some(t) => Some(
                    TableDependency { table: t.name.clone(), schema: clone_opt_chars(&t.schema) },
                ),
                None => None,
            },
        },
    )
}

// ---------------------------------------------------------------------------
// Export of a dashboard with its cards.
// ---------------------------------------------------------------------------

/// Re-tags a failed outcome for a caller producing a different value.
pub open spec fn carry_error<T, U>(o: PortOutcome<T>) -> PortOutcome<U>
    recommends
        !(o is Done),
{
    match o {
        PortOutcome::Done(_) => PortOutcome::Malformed,
        PortOutcome::NotFoundId(k, id) => PortOutcome::NotFoundId(k, id),
        PortOutcome::NotFoundName(k, n) => PortOutcome::NotFoundName(k, n),
        PortOutcome::NotFoundField(t, n) => PortOutcome::NotFoundField(t, n),
        PortOutcome::Conflict(k, n) => PortOutcome::Conflict(k, n),
        PortOutcome::MissingDependency(k) => PortOutcome::MissingDependency(k),
        PortOutcome::Malformed => PortOutcome::Malformed,
    }
}

/// Exporting one card once its question dependency is settled: run the
/// codec forward over both of the card's payloads.
pub open spec fn spec_export_card_payloads(
    c: CacheView,
    card: DashboardCardView,
    dep: Option<QuestionDependencyView>,
) -> PortOutcome<CardSnapshotView> {
    match spec_snapshot_parameters(c.fields, card.parameter_mappings) {
        CodecOutcome::Done(pt) => if !json_wf(pt) {
            PortOutcome::Malformed
        } else {
            match spec_snapshot_settings(c.fields, card.visualization_settings) {
                CodecOutcome::Done(st) => if !json_wf(st) {
                    PortOutcome::Malformed
                } else {
                    PortOutcome::Done(
                        CardSnapshotView {
                            size_x: card.size_x,
                            size_y: card.size_y,
                            row: card.row,
                            col: card.col,
                            question: dep,
                            parameters: pt,
                            settings: st,
                        },
                    )
                },
                CodecOutcome::MissingFieldId(id) => PortOutcome::NotFoundId(EntityKind::Field, id),
                _ => PortOutcome::Malformed,
            }
        },
        CodecOutcome::MissingFieldId(id) => PortOutcome::NotFoundId(EntityKind::Field, id),
        _ => PortOutcome::Malformed,
    }
}

/// Exporting one card: a card that points at a saved query carries that
/// query's name and its collection's name; a card without one carries no
/// dependency.  Either way both payloads are snapshotted.
pub open spec fn spec_export_card(
    c: CacheView,
    card: DashboardCardView,
    q: Option<QuestionView>,
) -> PortOutcome<CardSnapshotView> {
    match card.card_id {
        Some(qid) => match q {
            None => PortOutcome::NotFoundId(EntityKind::Question, qid),
            Some(qv) => match qv.collection_id {
                Some(cid) => match lookup_collection(c.collections, cid) {
                    None => PortOutcome::NotFoundId(EntityKind::Collection, cid),
                    Some(col) => spec_export_card_payloads(
                        c,
                        card,
                        Some(QuestionDependencyView { question: qv.name, collection: Some(col.name) }),
                    ),
                },
                None => spec_export_card_payloads(
                    c,
                    card,
                    Some(QuestionDependencyView { question: qv.name, collection: None }),
                ),
            },
        },
        None => spec_export_card_payloads(c, card, None),
    }
}

/// Folds the cards of a dashboard in order, stopping at the first card
/// that fails to export.
pub open spec fn spec_export_cards(
    c: CacheView,
    cards: Seq<DashboardCardView>,
    qs: Seq<Option<QuestionView>>,
) -> PortOutcome<Seq<CardSnapshotView>>
    decreases cards.len(),
{
    if cards.len() == 0 {
        PortOutcome::Done(Seq::empty())
    } else {
        match spec_export_card(c, cards[0], qs[0]) {
            PortOutcome::Done(cs) => match spec_export_cards(c, cards.skip(1), qs.skip(1)) {
                PortOutcome::Done(rest) => PortOutcome::Done(seq![cs] + rest),
                e => e,
            },
            e => carry_error(e),
        }
    }
}

/// Exporting a dashboard: resolve its collection reference, export every
/// card in order, and carry the dashboard's own parameter payload through
/// unchanged — it must still be well-formed.
pub open spec fn spec_export_dashboard(
    c: CacheView,
    d: DashboardView,
    cards: Seq<DashboardCardView>,
    qs: Seq<Option<QuestionView>>,
) -> PortOutcome<DashboardSnapshotView> {
    match d.collection_id {
        Some(cid) => match lookup_collection(c.collections, cid) {
            None => PortOutcome::NotFoundId(EntityKind::Collection, cid),
            Some(col) => spec_export_dashboard_cards(c, d, cards, qs, Some(col)),
        },
        None => spec_export_dashboard_cards(c, d, cards, qs, None),
    }
}

pub open spec fn spec_export_dashboard_cards(
    c: CacheView,
    d: DashboardView,
    cards: Seq<DashboardCardView>,
    qs: Seq<Option<QuestionView>>,
    col: Option<CollectionView>,
) -> PortOutcome<DashboardSnapshotView> {
    match spec_export_cards(c, cards, qs) {
        PortOutcome::Done(cs) => if !json_wf(d.parameters) {
            PortOutcome::Malformed
        } else {
            PortOutcome::Done(
                DashboardSnapshotView {
                    name: d.name,
                    description: d.description,
                    parameters: d.parameters,
                    collection: match col {
                        Some(cv) => Some(CollectionDependencyView { collection: cv.name }),
                        None => None,
                    },
                    cards: cs,
                },
            )
        },
        e => carry_error(e),
    }
}

/// Builds the portable snapshot of one card.  `question` is the saved
/// query the store found for the card's reference, where it has one.
pub fn build_card_snapshot(cache: &Cache, card: &DashboardCard, question: Option<&Question>) -> (r:
    Result<CardSnapshot, PortError>)
    ensures
        outcome_matches(r, spec_export_card(cache@, card@, question.deep_view())),
{
    let dep: Option<QuestionDependency> = match &card.card_id {
        Some(qid) => match question {
            None => {
                return Err(PortError::NotFoundId(EntityKind::Question, *qid));
            },
            Some(q) => match &q.collection_id {
                Some(cid) => match cache.collection(*cid) {
                    Ok(col) => Some(
                        QuestionDependency {
                            question: q.name.clone(),
                            collection: Some(col.name.clone()),
                        },
                    ),
                    Err(e) => {
                        return Err(e);
                    },
                },
                None => Some(QuestionDependency { question: q.name.clone(), collection: None }),
            },
        },
        None => None,
    };
    let parameters = match snapshot_parameters(cache, &card.parameter_mappings) {
        Ok(p) => p,
        Err(e) => {
            return Err(e);
        },
    };
    let settings = match snapshot_settings(cache, &card.visualization_settings) {
        Ok(s) => s,
        Err(e) => {
            return Err(e);
        },
    };
    Ok(
        CardSnapshot {
            size_x: card.size_x,
            size_y: card.size_y,
            row: card.row,
            col: card.col,
            question: dep,
            parameters,
            settings,
        },
    )
}

/// Prefixes already exported cards onto the outcome of the remaining ones.
pub open spec fn prepend_cards(
    prefix: Seq<CardSnapshotView>,
    o: PortOutcome<Seq<CardSnapshotView>>,
) -> PortOutcome<Seq<CardSnapshotView>> {
    match o {
        PortOutcome::Done(rest) => PortOutcome::Done(prefix + rest),
        e => e,
    }
}

/// Builds the portable snapshot of one dashboard.  `questions` holds, for
/// each card in order, the saved query the store found for it.
pub fn build_dashboard_snapshot(
    cache: &Cache,
    dashboard: &crate::model::Dashboard,
    cards: &Vec<crate::model::DashboardCard>,
    questions: &Vec<Option<Question>>,
) -> (r: Result<DashboardSnapshot, PortError>)
    requires
        cards@.len() == questions@.len(),
    ensures
        outcome_matches(
            r,
            spec_export_dashboard(cache@, dashboard@, cards.deep_view(), questions.deep_view()),
        ),
{
    let ghost c = cache@;
    let ghost cards_dv = cards.deep_view();
    let ghost qs_dv = questions.deep_view();
    let collection: Option<&crate::model::Collection> = match &dashboard.collection_id {
        Some(cid) => match cache.collection(*cid) {
            Ok(col) => Some(col),
            Err(e) => {
                return Err(e);
            },
        },
        None => None,
    };

    let mut out: Vec<CardSnapshot> = Vec::new();
    let mut i: usize = 0;
    proof {
        assert(cards_dv.skip(0) =~= cards_dv);
        assert(qs_dv.skip(0) =~= qs_dv);
        assert(out.deep_view() =~= Seq::<CardSnapshotView>::empty());
    }
    while i < cards.len()
        invariant
            i <= cards_dv.len(),
            c == cache@,
            cards_dv == cards.deep_view(),
            qs_dv == questions.deep_view(),
            cards_dv.len() == qs_dv.len(),
            match collection {
                Some(col) => dashboard@.collection_id matches Some(cid) && lookup_collection(
                    c.collections,
                    cid,
                ) == Some(col@),
                None => dashboard@.collection_id is None,
            },
            spec_export_cards(c, cards_dv, qs_dv) == prepend_cards(
                out.deep_view(),
                spec_export_cards(c, cards_dv.skip(i as int), qs_dv.skip(i as int)),
            ),
        decreases cards_dv.len() - i,
    {
        let ghost pre_out = out.deep_view();
        let ghost ctail = cards_dv.skip(i as int);
        let ghost qtail = qs_dv.skip(i as int);
        proof {
            assert(ctail[0] == cards_dv[i as int]);
            assert(qtail[0] == qs_dv[i as int]);
            assert(cards_dv[i as int] == cards@[i as int]@);
            assert(qs_dv[i as int] == questions@[i as int].deep_view());
        }
        let question: Option<&Question> = match &questions[i] {
            Some(q) => Some(q),
            None => None,
        };
        proof {
            assert(question.deep_view() == qs_dv[i as int]);
        }
        let card_snapshot = match build_card_snapshot(cache, &cards[i], question) {
            Ok(cs) => cs,
            Err(e) => {
                proof {
                    assert(spec_export_cards(c, ctail, qtail) == carry_error::<
                        CardSnapshotView,
                        Seq<CardSnapshotView>,
                    >(spec_export_card(c, cards_dv[i as int], qs_dv[i as int])));
                }
                return Err(e);
            },
        };
        out.push(card_snapshot);
        proof {
            assert(ctail.skip(1) =~= cards_dv.skip(i + 1));
            assert(qtail.skip(1) =~= qs_dv.skip(i + 1));
            assert(out.deep_view() =~= pre_out.push(card_snapshot@));
            assert forall|rest: Seq<CardSnapshotView>|
                true implies pre_out + (seq![card_snapshot@] + rest) =~= out.deep_view()
                + rest by {}
            assert(spec_export_cards(c, ctail, qtail) == match spec_export_cards(
                c,
                cards_dv.skip(i + 1),
                qs_dv.skip(i + 1),
            ) {
                PortOutcome::Done(rest) => PortOutcome::Done(seq![card_snapshot@] + rest),
                e => e,
            });
            assert(prepend_cards(pre_out, spec_export_cards(c, ctail, qtail)) == prepend_cards(
                out.deep_view(),
                spec_export_cards(c, cards_dv.skip(i + 1), qs_dv.skip(i + 1)),
            ));
        }
        i = i + 1;
    }
    proof {
        assert(cards_dv.skip(cards_dv.len() as int) =~= Seq::<DashboardCardView>::empty());
        assert(qs_dv.skip(qs_dv.len() as int) =~= Seq::<Option<QuestionView>>::empty());
        assert(out.deep_view() + Seq::<CardSnapshotView>::empty() =~= out.deep_view());
    }

    let parameters = match crate::snapshot::SerializedSnapshot::from_chars(
        dashboard.parameters.clone(),
    ) {
        Ok(p) => p,
        Err(e) => {
            return Err(e);
        },
    };
    Ok(
        DashboardSnapshot {
            name: dashboard.name.clone(),
            description: clone_opt_chars(&dashboard.description),
            parameters,
            collection: match collection {
                Some(col) => Some(CollectionDependency { collection: col.name.clone() }),
                None => None,
            },
            cards: out,
        },
    )
}

// ---------------------------------------------------------------------------
// Import of a saved query.
// ---------------------------------------------------------------------------

/// The row an imported saved query inserts.  The storage boundary adds the
/// destination-managed columns (timestamps, creator) and nothing else.
#[derive(Debug)]
pub struct QuestionRow {
    pub name: Vec<char>,
    pub description: Option<Vec<char>>,
    pub display: Vec<char>,
    pub dataset_query: String,
    pub visualization_settings: String,
    pub database_id: i32,
    pub table_id: i32,
    pub collection_id: i32,
}

/// Mathematical value of a `QuestionRow`.
pub struct QuestionRowView {
    pub name: Seq<char>,
    pub description: Option<Seq<char>>,
    pub display: Seq<char>,
    pub dataset_query: Seq<char>,
    pub visualization_settings: Seq<char>,
    pub database_id: i32,
    pub table_id: i32,
    pub collection_id: i32,
}

impl View for QuestionRow {
    type V = QuestionRowView;

    open spec fn view(&self) -> QuestionRowView {
        QuestionRowView {
            name: self.name@,
            description: crate::model::view_opt_chars(self.description),
            display: self.display@,
            dataset_query: self.dataset_query@,
            visualization_settings: self.visualization_settings@,
            database_id: self.database_id,
            table_id: self.table_id,
            collection_id: self.collection_id,
        }
    }
}

/// The scope a question snapshot must be imported into: its declared
/// collection, which is mandatory, resolved to the first live collection
/// with that name.
pub open spec fn spec_question_scope(c: CacheView, q: QuestionSnapshotView) -> PortOutcome<
    CollectionView,
> {
    match q.collection {
        None => PortOutcome::MissingDependency(EntityKind::Collection),
        Some(dep) => {
            let ms = c.collections.filter(crate::model::collection_named(dep.collection));
            let i = crate::model::first_where(ms, collection_live());
            if i >= 0 {
                PortOutcome::Done(ms[i])
            } else {
                PortOutcome::NotFoundName(EntityKind::Collection, dep.collection)
            }
        },
    }
}

/// Resolves the scope of a question import: the snapshot must declare a
/// collection, and a live collection of that name must exist.
pub fn question_import_scope(cache: &Cache, snap: &QuestionSnapshot) -> (r: Result<
    crate::model::Collection,
    PortError,
>)
    ensures
        outcome_matches(r, spec_question_scope(cache@, snap@)),
{
    match &snap.collection {
        None => Err(PortError::MissingDependency(EntityKind::Collection)),
        Some(dep) => resolve_collection(cache, &dep.collection),
    }
}

/// Planning a question import once its scope resolved and the store has
/// answered the uniqueness check: a duplicate name in the same scope is a
/// conflict; the snapshot must declare its table; the table is discovered
/// by name, schema and data source hint; both payloads are restored
/// against the discovered table.
pub open spec fn spec_plan_question(
    c: CacheView,
    q: QuestionSnapshotView,
    collection_id: i32,
    already_exists: bool,
) -> PortOutcome<QuestionRowView> {
    if already_exists {
        PortOutcome::Conflict(EntityKind::Question, q.name)
    } else {
        match q.table {
            None => PortOutcome::MissingDependency(EntityKind::Table),
            Some(dep) => {
                let candidates = spec_table_candidates(c.tables, dep);
                let hint = spec_database_hint(c.databases, q.database);
                match spec_discover(candidates, hint) {
                    None => PortOutcome::NotFoundName(
                        EntityKind::Table,
                        crate::model::spec_schema_or(dep.schema, "public"@) + "."@ + dep.table,
                    ),
                    Some(t) => match spec_restore_query(c.fields, t, q.query) {
                        CodecOutcome::Done(qt) => match spec_restore_settings(
                            c.fields,
                            t.id,
                            q.settings,
                        ) {
                            CodecOutcome::Done(st) => PortOutcome::Done(
                                QuestionRowView {
                                    name: q.name,
                                    description: q.description,
                                    display: q.display,
                                    dataset_query: qt,
                                    visualization_settings: st,
                                    database_id: t.db_id,
                                    table_id: t.id,
                                    collection_id: collection_id,
                                },
                            ),
                            CodecOutcome::MissingField(nm) => PortOutcome::NotFoundField(t.id, nm),
                            _ => PortOutcome::Malformed,
                        },
                        CodecOutcome::MissingField(nm) => PortOutcome::NotFoundField(t.id, nm),
                        _ => PortOutcome::Malformed,
                    },
                }
            },
        }
    }
}

/// Builds the row a question import inserts; nothing is written unless
/// every step of the plan succeeded.
pub fn plan_question_import(
    cache: &Cache,
    snap: &QuestionSnapshot,
    collection_id: i32,
    already_exists: bool,
) -> (r: Result<QuestionRow, PortError>)
    ensures
        outcome_matches(r, spec_plan_question(cache@, snap@, collection_id, already_exists)),
{
    if already_exists {
        return Err(PortError::Conflict(EntityKind::Question, snap.name.clone()));
    }
    let dep = match &snap.table {
        None => {
            return Err(PortError::MissingDependency(EntityKind::Table));
        },
        Some(dep) => dep,
    };
    let table = match discover_table(cache, dep, &snap.database) {
        Some(t) => t,
        None => {
            let default_schema = crate::text::str_to_chars("public");
            proof {
                reveal_strlit("public");
            }
            let mut qualified: Vec<char> = Vec::new();
            crate::text::extend_chars(&mut qualified, dep.schema_or(&default_schema));
            qualified.push('.');
            crate::text::extend_chars(&mut qualified, &dep.table);
            proof {
                reveal_strlit(".");
                assert(qualified@ =~= crate::model::spec_schema_or(dep@.schema, "public"@) + "."@
                    + dep.table@);
            }
            return Err(PortError::NotFoundName(EntityKind::Table, qualified));
        },
    };
    let query = match restore_query(cache, &table, &snap.query) {
        Ok(q) => q,
        Err(e) => {
            return Err(e);
        },
    };
    let settings = match restore_settings(cache, &table, &snap.settings) {
        Ok(s) => s,
        Err(e) => {
            return Err(e);
        },
    };
    Ok(
        QuestionRow {
            name: snap.name.clone(),
            description: clone_opt_chars(&snap.description),
            display: snap.display.clone(),
            dataset_query: query,
            visualization_settings: settings,
            database_id: table.db_id,
            table_id: table.id,
            collection_id,
        },
    )
}

// ---------------------------------------------------------------------------
// Import of a dashboard with its cards.
// ---------------------------------------------------------------------------

/// The dashboard row an import inserts before its cards.
#[derive(Debug)]
pub struct DashboardRow {
    pub name: Vec<char>,
    pub description: Option<Vec<char>>,
    pub parameters: String,
    pub collection_id: Option<i32>,
}

/// Mathematical value of a `DashboardRow`.
pub struct DashboardRowView {
    pub name: Seq<char>,
    pub description: Option<Seq<char>>,
    pub parameters: Seq<char>,
    pub collection_id: Option<i32>,
}

impl View for DashboardRow {
    type V = DashboardRowView;

    open spec fn view(&self) -> DashboardRowView {
        DashboardRowView {
            name: self.name@,
            description: crate::model::view_opt_chars(self.description),
            parameters: self.parameters@,
            collection_id: self.collection_id,
        }
    }
}

/// Resolves the scope of a dashboard import: the declared collection if
/// there is one — it must then resolve to a live collection — or the root
/// scope.
pub fn dashboard_import_scope(cache: &Cache, snap: &DashboardSnapshot) -> (r: Result<
    Option<crate::model::Collection>,
    PortError,
>)
    ensures
        match snap.collection {
            None => r matches Ok(c) && c is None,
            Some(dep) => ({
                let ms = cache@.collections.filter(crate::model::collection_named(dep.collection@));
                let i = crate::model::first_where(ms, collection_live());
                match r {
                    Ok(copt) => i >= 0 && (copt matches Some(col) && col@ == ms[i]),
                    Err(e) => i == -1 && (e matches PortError::NotFoundName(k, n) && k
                        == EntityKind::Collection && n@ == dep.collection@),
                }
            }),
        },
{
    match &snap.collection {
        None => Ok(None),
        Some(dep) => match resolve_collection(cache, &dep.collection) {
            Ok(col) => Ok(Some(col)),
            Err(e) => Err(e),
        },
    }
}

/// Planning the dashboard's own row once its scope resolved and the store
/// has answered the uniqueness check.  The dashboard's parameter payload
/// travels through unchanged.
pub open spec fn spec_plan_dashboard_row(
    d: DashboardSnapshotView,
    collection_id: Option<i32>,
    already_exists: bool,
) -> PortOutcome<DashboardRowView> {
    if already_exists {
        PortOutcome::Conflict(EntityKind::Dashboard, d.name)
    } else {
        PortOutcome::Done(
            DashboardRowView {
                name: d.name,
                description: d.description,
                parameters: d.parameters,
                collection_id: collection_id,
            },
        )
    }
}

/// Builds the dashboard row to insert; a duplicate name in the same scope
/// aborts the import before anything is written.
pub fn plan_dashboard_row(
    snap: &DashboardSnapshot,
    collection_id: Option<i32>,
    already_exists: bool,
) -> (r: Result<DashboardRow, PortError>)
    ensures
        outcome_matches(r, spec_plan_dashboard_row(snap@, collection_id, already_exists)),
{
    if already_exists {
        return Err(PortError::Conflict(EntityKind::Dashboard, snap.name.clone()));
    }
    Ok(
        DashboardRow {
            name: snap.name.clone(),
            description: clone_opt_chars(&snap.description),
            parameters: snap.parameters.to_string(),
            collection_id,
        },
    )
}

/// The store question a card's dependency asks for: the saved query with
/// this name, in this collection scope (or the root scope).
#[derive(Debug)]
pub struct QuestionQuery {
    pub question: Vec<char>,
    pub collection_id: Option<i32>,
}

/// Resolves the scope of one card's question dependency: the name to look
/// up, and the declared collection resolved to a live collection's
/// identifier.  A card without a question dependency asks nothing.
pub fn card_question_query(cache: &Cache, card: &CardSnapshot) -> (r: Result<
    Option<QuestionQuery>,
    PortError,
>)
    ensures
        match card.question {
            None => r matches Ok(q) && q is None,
            Some(dep) => match dep.collection {
                None => r matches Ok(q) && (q matches Some(qq) && qq.question@ == dep.question@
                    && qq.collection_id is None),
                Some(cname) => ({
                    let ms = cache@.collections.filter(crate::model::collection_named(cname@));
                    let i = crate::model::first_where(ms, collection_live());
                    match r {
                        Ok(q) => i >= 0 && (q matches Some(qq) && qq.question@ == dep.question@
                            && qq.collection_id == Some(ms[i].id)),
                        Err(e) => i == -1 && (e matches PortError::NotFoundName(k, n) && k
                            == EntityKind::Collection && n@ == cname@),
                    }
                }),
            },
        },
{
    match &card.question {
        None => Ok(None),
        Some(dep) => match &dep.collection {
            None => Ok(
                Some(QuestionQuery { question: dep.question.clone(), collection_id: None }),
            ),
            Some(cname) => match resolve_collection(cache, cname) {
                Ok(col) => Ok(
                    Some(
                        QuestionQuery {
                            question: dep.question.clone(),
                            collection_id: Some(col.id),
                        },
                    ),
                ),
                Err(e) => Err(e),
            },
        },
    }
}

/// The card row an import inserts, bound to the saved query that backs it.
#[derive(Debug)]
pub struct CardRow {
    pub size_x: i32,
    pub size_y: i32,
    pub row: i32,
    pub col: i32,
    pub card_id: i32,
    pub parameter_mappings: String,
    pub visualization_settings: String,
}

/// Mathematical value of a `CardRow`.
pub struct CardRowView {
    pub size_x: i32,
    pub size_y: i32,
    pub row: i32,
    pub col: i32,
    pub card_id: i32,
    pub parameter_mappings: Seq<char>,
    pub visualization_settings: Seq<char>,
}

impl View for CardRow {
    type V = CardRowView;

    open spec fn view(&self) -> CardRowView {
        CardRowView {
            size_x: self.size_x,
            size_y: self.size_y,
            row: self.row,
            col: self.col,
            card_id: self.card_id,
            parameter_mappings: self.parameter_mappings@,
            visualization_settings: self.visualization_settings@,
        }
    }
}

/// What an import does with one card: skips it, or inserts a row.
#[derive(Debug)]
pub enum CardPlan {
    /// The card declares no question dependency: an import cannot create a
    /// card with no backing query.
    Skip,
    /// The card resolved; insert this row.
    Insert(CardRow),
}

/// Mathematical value of a `CardPlan`.
pub enum CardPlanView {
    Skip,
    Insert(CardRowView),
}

impl View for CardPlan {
    type V = CardPlanView;

    open spec fn view(&self) -> CardPlanView {
        match self {
            CardPlan::Skip => CardPlanView::Skip,
            CardPlan::Insert(row) => CardPlanView::Insert(row@),
        }
    }
}

/// Planning one card of a dashboard import, given the saved query the
/// store found for its dependency: the query must exist and be bound to a
/// cached table, and both card payloads are restored against that table,
/// the parameter mappings also against the owning query.
pub open spec fn spec_plan_card(
    c: CacheView,
    card: CardSnapshotView,
    q: Option<QuestionView>,
) -> PortOutcome<CardPlanView> {
    match card.question {
        None => PortOutcome::Done(CardPlanView::Skip),
        Some(dep) => match q {
            None => PortOutcome::NotFoundName(EntityKind::Question, dep.question),
            Some(qv) => match qv.table_id {
                None => PortOutcome::MissingDependency(EntityKind::Table),
                Some(tid) => match lookup_table(c.tables, tid) {
                    None => PortOutcome::NotFoundId(EntityKind::Table, tid),
                    Some(t) => match spec_restore_parameters(c.fields, qv.id, t.id, card.parameters) {
                        CodecOutcome::Done(pm) => match spec_restore_settings(
                            c.fields,
                            t.id,
                            card.settings,
                        ) {
                            CodecOutcome::Done(vs) => PortOutcome::Done(
                                CardPlanView::Insert(
                                    CardRowView {
                                        size_x: card.size_x,
                                        size_y: card.size_y,
                                        row: card.row,
                                        col: card.col,
                                        card_id: qv.id,
                                        parameter_mappings: pm,
                                        visualization_settings: vs,
                                    },
                                ),
                            ),
                            CodecOutcome::MissingField(nm) => PortOutcome::NotFoundField(t.id, nm),
                            _ => PortOutcome::Malformed,
                        },
                        CodecOutcome::MissingField(nm) => PortOutcome::NotFoundField(t.id, nm),
                        _ => PortOutcome::Malformed,
                    },
                },
            },
        },
    }
}

/// Builds the plan for one card.  `question` is the saved query the store
/// found for the card's dependency, if any.  A failure here aborts the
/// whole dashboard import with nothing written.
pub fn plan_card_import(cache: &Cache, card: &CardSnapshot, question: Option<&Question>) -> (r:
    Result<CardPlan, PortError>)
    ensures
        outcome_matches(r, spec_plan_card(cache@, card@, question.deep_view())),
{
    let dep = match &card.question {
        None => {
            return Ok(CardPlan::Skip);
        },
        Some(dep) => dep,
    };
    let q = match question {
        None => {
            return Err(PortError::NotFoundName(EntityKind::Question, dep.question.clone()));
        },
        Some(q) => q,
    };
    let table_id = match &q.table_id {
        None => {
            return Err(PortError::MissingDependency(EntityKind::Table));
        },
        Some(tid) => *tid,
    };
    let table = match cache.table(table_id) {
        Ok(t) => t,
        Err(e) => {
            return Err(e);
        },
    };
    let parameter_mappings = match restore_parameters(cache, q, table, &card.parameters) {
        Ok(p) => p,
        Err(e) => {
            return Err(e);
        },
    };
    let visualization_settings = match restore_settings(cache, table, &card.settings) {
        Ok(s) => s,
        Err(e) => {
            return Err(e);
        },
    };
    Ok(
        CardPlan::Insert(
            CardRow {
                size_x: card.size_x,
                size_y: card.size_y,
                row: card.row,
                col: card.col,
                card_id: q.id,
                parameter_mappings,
                visualization_settings,
            },
        ),
    )
}

} // verus!
