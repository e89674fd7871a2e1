//! The portable, name-based form of a record.
//!
//! A snapshot replaces every database-assigned numeric identifier with a
//! name-based dependency reference.  Opaque payloads travel inside it as
//! text that was checked to be well-formed structured data; their contents
//! still hold the literal marker strings only the codec understands.

use crate::error::PortError;
use crate::text::str_to_chars;
use vstd::prelude::*;

verus! {

/// Whether this text parses as structured payload data.  The answer is a
/// function of the text alone.
pub uninterp spec fn json_wf(s: Seq<char>) -> bool;

/// Relies on serde_json::from_str::<serde_json::Value>: it accepts exactly
/// the well-formed JSON texts, a function of the text alone.
#[verifier::external_body]
fn json_text_well_formed(s: &str) -> (r: bool)
    ensures
        r == json_wf(s@),
{
    serde_json::from_str::<serde_json::Value>(s).is_ok()
}

/// Relies on String's FromIterator<char>: collecting characters yields the
/// string of exactly those characters.
#[verifier::external_body]
pub(crate) fn chars_to_string(v: &Vec<char>) -> (r: String)
    ensures
        r@ == v@,
{
    v.iter().collect()
}

/// An opaque payload carried through a snapshot: well-formed structured
/// text whose markers the codec rewrites without parsing it.
#[derive(Debug)]
pub struct SerializedSnapshot {
    payload: Vec<char>,
}

impl View for SerializedSnapshot {
    type V = Seq<char>;

    closed spec fn view(&self) -> Seq<char> {
        self.payload@
    }
}

impl SerializedSnapshot {
    /// Accepts exactly the well-formed payload texts.
    pub fn new(input: &str) -> (r: Result<SerializedSnapshot, PortError>)
        ensures
            match r {
                Ok(s) => json_wf(input@) && s@ == input@,
                Err(e) => !json_wf(input@) && e == PortError::MalformedPayload,
            },
    {
        if json_text_well_formed(input) {
            Ok(SerializedSnapshot { payload: str_to_chars(input) })
        } else {
            Err(PortError::MalformedPayload)
        }
    }

    /// Wraps text the codec already produced from a well-formed payload.
    pub fn from_chars(payload: Vec<char>) -> (r: Result<SerializedSnapshot, PortError>)
        ensures
            match r {
                Ok(s) => json_wf(payload@) && s@ == payload@,
                Err(e) => !json_wf(payload@) && e == PortError::MalformedPayload,
            },
    {
        let text = chars_to_string(&payload);
        if json_text_well_formed(text.as_str()) {
            Ok(SerializedSnapshot { payload })
        } else {
            Err(PortError::MalformedPayload)
        }
    }

    /// The payload text.
    pub fn to_string(&self) -> (r: String)
        ensures
            r@ == self@,
    {
        chars_to_string(&self.payload)
    }

    /// The payload text as the characters the codec scans.
    pub fn chars(&self) -> (r: &Vec<char>)
        ensures
            r@ == self@,
    {
        &self.payload
    }
}

/// A dependency on a collection, by name.
#[derive(Debug)]
pub struct CollectionDependency {
    pub collection: Vec<char>,
}

/// Mathematical value of a `CollectionDependency`.
pub struct CollectionDependencyView {
    pub collection: Seq<char>,
}

impl View for CollectionDependency {
    type V = CollectionDependencyView;

    open spec fn view(&self) -> CollectionDependencyView {
        CollectionDependencyView { collection: self.collection@ }
    }
}

impl DeepView for CollectionDependency {
    type V = CollectionDependencyView;

    open spec fn deep_view(&self) -> CollectionDependencyView {
        self@
    }
}

/// A dependency on a saved query, by name and optional collection scope.
#[derive(Debug)]
pub struct QuestionDependency {
    pub question: Vec<char>,
    pub collection: Option<Vec<char>>,
}

/// Mathematical value of a `QuestionDependency`.
pub struct QuestionDependencyView {
    pub question: Seq<char>,
    pub collection: Option<Seq<char>>,
}

impl View for QuestionDependency {
    type V = QuestionDependencyView;

    open spec fn view(&self) -> QuestionDependencyView {
        QuestionDependencyView {
            question: self.question@,
            collection: crate::model::view_opt_chars(self.collection),
        }
    }
}

impl DeepView for QuestionDependency {
    type V = QuestionDependencyView;

    open spec fn deep_view(&self) -> QuestionDependencyView {
        self@
    }
}

/// A dependency on a data source, by name.
#[derive(Debug)]
pub struct DatabaseDependency {
    pub database: Vec<char>,
}

/// Mathematical value of a `DatabaseDependency`.
pub struct DatabaseDependencyView {
    pub database: Seq<char>,
}

impl View for DatabaseDependency {
    type V = DatabaseDependencyView;

    open spec fn view(&self) -> DatabaseDependencyView {
        DatabaseDependencyView { database: self.database@ }
    }
}

impl DeepView for DatabaseDependency {
    type V = DatabaseDependencyView;

    open spec fn deep_view(&self) -> DatabaseDependencyView {
        self@
    }
}

/// A dependency on a table, by name and optional schema qualifier.
#[derive(Debug)]
pub struct TableDependency {
    pub table: Vec<char>,
    pub schema: Option<Vec<char>>,
}

/// Mathematical value of a `TableDependency`.
pub struct TableDependencyView {
    pub table: Seq<char>,
    pub schema: Option<Seq<char>>,
}

impl View for TableDependency {
    type V = TableDependencyView;

    open spec fn view(&self) -> TableDependencyView {
        TableDependencyView { table: self.table@, schema: crate::model::view_opt_chars(self.schema) }
    }
}

impl DeepView for TableDependency {
    type V = TableDependencyView;

    open spec fn deep_view(&self) -> TableDependencyView {
        self@
    }
}

impl TableDependency {
    /// The declared schema qualifier, or `default` when none was declared.
    pub fn schema_or<'a>(&'a self, default: &'a Vec<char>) -> (r: &'a Vec<char>)
        ensures
            r@ == crate::model::spec_schema_or(self@.schema, default@),
    {
        match &self.schema {
            Some(s) => s,
            None => default,
        }
    }
}

/// A dependency on a column, by name.
#[derive(Debug)]
pub struct FieldDependency {
    pub field: Vec<char>,
}

/// The portable form of one saved query.
#[derive(Debug)]
pub struct QuestionSnapshot {
    pub name: Vec<char>,
    pub description: Option<Vec<char>>,
    pub display: Vec<char>,
    pub query: SerializedSnapshot,
    pub settings: SerializedSnapshot,
    pub collection: Option<CollectionDependency>,
    pub database: Option<DatabaseDependency>,
    pub table: Option<TableDependency>,
}

/// Mathematical value of a `QuestionSnapshot`.
pub struct QuestionSnapshotView {
    pub name: Seq<char>,
    pub description: Option<Seq<char>>,
    pub display: Seq<char>,
    pub query: Seq<char>,
    pub settings: Seq<char>,
    pub collection: Option<CollectionDependencyView>,
    pub database: Option<DatabaseDependencyView>,
    pub table: Option<TableDependencyView>,
}

impl View for QuestionSnapshot {
    type V = QuestionSnapshotView;

    open spec fn view(&self) -> QuestionSnapshotView {
        QuestionSnapshotView {
            name: self.name@,
            description: crate::model::view_opt_chars(self.description),
            display: self.display@,
            query: self.query@,
            settings: self.settings@,
            collection: self.collection.deep_view(),
            database: self.database.deep_view(),
            table: self.table.deep_view(),
        }
    }
}

impl DeepView for QuestionSnapshot {
    type V = QuestionSnapshotView;

    open spec fn deep_view(&self) -> QuestionSnapshotView {
        self@
    }
}

/// The portable form of one card of a dashboard.
#[derive(Debug)]
pub struct CardSnapshot {
    pub size_x: i32,
    pub size_y: i32,
    pub row: i32,
    pub col: i32,
    pub question: Option<QuestionDependency>,
    pub parameters: SerializedSnapshot,
    pub settings: SerializedSnapshot,
}

/// Mathematical value of a `CardSnapshot`.
pub struct CardSnapshotView {
    pub size_x: i32,
    pub size_y: i32,
    pub row: i32,
    pub col: i32,
    pub question: Option<QuestionDependencyView>,
    pub parameters: Seq<char>,
    pub settings: Seq<char>,
}

impl View for CardSnapshot {
    type V = CardSnapshotView;

    open spec fn view(&self) -> CardSnapshotView {
        CardSnapshotView {
            size_x: self.size_x,
            size_y: self.size_y,
            row: self.row,
            col: self.col,
            question: self.question.deep_view(),
            parameters: self.parameters@,
            settings: self.settings@,
        }
    }
}

impl DeepView for CardSnapshot {
    type V = CardSnapshotView;

    open spec fn deep_view(&self) -> CardSnapshotView {
        self@
    }
}

/// The portable form of one dashboard with its cards.
#[derive(Debug)]
pub struct DashboardSnapshot {
    pub name: Vec<char>,
    pub description: Option<Vec<char>>,
    pub parameters: SerializedSnapshot,
    pub collection: Option<CollectionDependency>,
    pub cards: Vec<CardSnapshot>,
}

/// Mathematical value of a `DashboardSnapshot`.
pub struct DashboardSnapshotView {
    pub name: Seq<char>,
    pub description: Option<Seq<char>>,
    pub parameters: Seq<char>,
    pub collection: Option<CollectionDependencyView>,
    pub cards: Seq<CardSnapshotView>,
}

impl View for DashboardSnapshot {
    type V = DashboardSnapshotView;

    open spec fn view(&self) -> DashboardSnapshotView {
        DashboardSnapshotView {
            name: self.name@,
            description: crate::model::view_opt_chars(self.description),
            parameters: self.parameters@,
            collection: self.collection.deep_view(),
            cards: self.cards.deep_view(),
        }
    }
}

impl DeepView for DashboardSnapshot {
    type V = DashboardSnapshotView;

    open spec fn deep_view(&self) -> DashboardSnapshotView {
        self@
    }
}

/// The portable form of a record: a tagged union of the two record kinds.
#[derive(Debug)]
pub enum Snapshot {
    Dashboard(DashboardSnapshot),
    Question(QuestionSnapshot),
}

/// Mathematical value of a `Snapshot`.
pub enum SnapshotView {
    Dashboard(DashboardSnapshotView),
    Question(QuestionSnapshotView),
}

impl View for Snapshot {
    type V = SnapshotView;

    open spec fn view(&self) -> SnapshotView {
        match self {
            Snapshot::Dashboard(d) => SnapshotView::Dashboard(d@),
            Snapshot::Question(q) => SnapshotView::Question(q@),
        }
    }
}

impl DeepView for Snapshot {
    type V = SnapshotView;

    open spec fn deep_view(&self) -> SnapshotView {
        self@
    }
}

} // verus!
