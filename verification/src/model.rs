//! Reference entities and the read-once cache.
//!
//! The cache is an immutable, in-memory snapshot of the reference entities
//! (collections, data sources, tables, columns) loaded once at the start of
//! an operation.  All resolution during one export or import reads from it;
//! nothing in the core creates or mutates entities.  Entries keep their load
//! order, and every lookup that has to choose among several matches takes
//! the first one in that order.

use crate::error::{EntityKind, PortError};
use crate::text::chars_eq;
use vstd::prelude::*;

verus! {

/// Index of the first element of `s` satisfying `pred`, or `-1`.
pub open spec fn first_where<T>(s: Seq<T>, pred: spec_fn(T) -> bool) -> int
    decreases s.len(),
{
    if s.len() == 0 {
        -1
    } else if pred(s[0]) {
        0
    } else {
        let r = first_where(s.skip(1), pred);
        if r < 0 {
            -1
        } else {
            1 + r
        }
    }
}

/// `first_where` points at the first satisfying element: everything before
/// it fails the predicate, and `-1` means nothing satisfies it.
pub proof fn lemma_first_where<T>(s: Seq<T>, pred: spec_fn(T) -> bool)
    ensures
        -1 <= first_where(s, pred) < s.len(),
        first_where(s, pred) >= 0 ==> pred(s[first_where(s, pred)]),
        forall|k: int| 0 <= k < first_where(s, pred) ==> !pred(#[trigger] s[k]),
        first_where(s, pred) == -1 ==> forall|k: int| 0 <= k < s.len() ==> !pred(#[trigger] s[k]),
    decreases s.len(),
{
    if s.len() > 0 && !pred(s[0]) {
        lemma_first_where(s.skip(1), pred);
        assert forall|k: int| 0 <= k < first_where(s, pred) implies !pred(#[trigger] s[k]) by {
            if k > 0 {
                assert(s.skip(1)[k - 1] == s[k]);
            }
        }
        if first_where(s, pred) == -1 {
            assert forall|k: int| 0 <= k < s.len() implies !pred(#[trigger] s[k]) by {
                if k > 0 {
                    assert(s.skip(1)[k - 1] == s[k]);
                }
            }
        }
    }
}

/// The view of an optional text field.
pub open spec fn view_opt_chars(v: Option<Vec<char>>) -> Option<Seq<char>> {
    match v {
        Some(s) => Some(s@),
        None => None,
    }
}

/// A collection: a soft-deletable scope that records may belong to.
#[derive(Debug)]
pub struct Collection {
    pub id: i32,
    pub name: Vec<char>,
    pub archived: bool,
}

/// Mathematical value of a `Collection`.
pub struct CollectionView {
    pub id: i32,
    pub name: Seq<char>,
    pub archived: bool,
}

impl View for Collection {
    type V = CollectionView;

    open spec fn view(&self) -> CollectionView {
        CollectionView { id: self.id, name: self.name@, archived: self.archived }
    }
}

impl DeepView for Collection {
    type V = CollectionView;

    open spec fn deep_view(&self) -> CollectionView {
        self@
    }
}

impl Clone for Collection {
    fn clone(&self) -> (r: Self)
        ensures
            r@ == self@,
    {
        Collection { id: self.id, name: self.name.clone(), archived: self.archived }
    }
}

/// A data source.
#[derive(Debug)]
pub struct Database {
    pub id: i32,
    pub name: Vec<char>,
}

/// Mathematical value of a `Database`.
pub struct DatabaseView {
    pub id: i32,
    pub name: Seq<char>,
}

impl View for Database {
    type V = DatabaseView;

    open spec fn view(&self) -> DatabaseView {
        DatabaseView { id: self.id, name: self.name@ }
    }
}

impl DeepView for Database {
    type V = DatabaseView;

    open spec fn deep_view(&self) -> DatabaseView {
        self@
    }
}

impl Clone for Database {
    fn clone(&self) -> (r: Self)
        ensures
            r@ == self@,
    {
        Database { id: self.id, name: self.name.clone() }
    }
}

/// A table of a data source, with an optional schema qualifier.
#[derive(Debug)]
pub struct DbTable {
    pub id: i32,
    pub name: Vec<char>,
    pub schema: Option<Vec<char>>,
    pub db_id: i32,
    pub active: bool,
    pub visibility_type: Option<Vec<char>>,
}

/// Mathematical value of a `DbTable`.
pub struct DbTableView {
    pub id: i32,
    pub name: Seq<char>,
    pub schema: Option<Seq<char>>,
    pub db_id: i32,
    pub active: bool,
    pub visibility_type: Option<Seq<char>>,
}

impl View for DbTable {
    type V = DbTableView;

    open spec fn view(&self) -> DbTableView {
        DbTableView {
            id: self.id,
            name: self.name@,
            schema: view_opt_chars(self.schema),
            db_id: self.db_id,
            active: self.active,
            visibility_type: view_opt_chars(self.visibility_type),
        }
    }
}

impl DeepView for DbTable {
    type V = DbTableView;

    open spec fn deep_view(&self) -> DbTableView {
        self@
    }
}

/// Clones an optional name.
pub(crate) fn clone_opt_chars(v: &Option<Vec<char>>) -> (r: Option<Vec<char>>)
    ensures
        view_opt_chars(r) == view_opt_chars(*v),
{
    match v {
        Some(s) => Some(s.clone()),
        None => None,
    }
}

impl Clone for DbTable {
    fn clone(&self) -> (r: Self)
        ensures
            r@ == self@,
    {
        DbTable {
            id: self.id,
            name: self.name.clone(),
            schema: clone_opt_chars(&self.schema),
            db_id: self.db_id,
            active: self.active,
            visibility_type: clone_opt_chars(&self.visibility_type),
        }
    }
}

/// A column, owned by exactly one table.
#[derive(Debug)]
pub struct DbField {
    pub id: i32,
    pub name: Vec<char>,
    pub table_id: i32,
}

/// Mathematical value of a `DbField`.
pub struct DbFieldView {
    pub id: i32,
    pub name: Seq<char>,
    pub table_id: i32,
}

impl View for DbField {
    type V = DbFieldView;

    open spec fn view(&self) -> DbFieldView {
        DbFieldView { id: self.id, name: self.name@, table_id: self.table_id }
    }
}

impl DeepView for DbField {
    type V = DbFieldView;

    open spec fn deep_view(&self) -> DbFieldView {
        self@
    }
}

impl Clone for DbField {
    fn clone(&self) -> (r: Self)
        ensures
            r@ == self@,
    {
        DbField { id: self.id, name: self.name.clone(), table_id: self.table_id }
    }
}

/// A saved query.
#[derive(Debug)]
pub struct Question {
    pub id: i32,
    pub name: Vec<char>,
    pub description: Option<Vec<char>>,
    pub display: Vec<char>,
    pub dataset_query: Vec<char>,
    pub visualization_settings: Vec<char>,
    pub database_id: Option<i32>,
    pub table_id: Option<i32>,
    pub collection_id: Option<i32>,
}

/// Mathematical value of a `Question`.
pub struct QuestionView {
    pub id: i32,
    pub name: Seq<char>,
    pub description: Option<Seq<char>>,
    pub display: Seq<char>,
    pub dataset_query: Seq<char>,
    pub visualization_settings: Seq<char>,
    pub database_id: Option<i32>,
    pub table_id: Option<i32>,
    pub collection_id: Option<i32>,
}

impl View for Question {
    type V = QuestionView;

    open spec fn view(&self) -> QuestionView {
        QuestionView {
            id: self.id,
            name: self.name@,
            description: view_opt_chars(self.description),
            display: self.display@,
            dataset_query: self.dataset_query@,
            visualization_settings: self.visualization_settings@,
            database_id: self.database_id,
            table_id: self.table_id,
            collection_id: self.collection_id,
        }
    }
}

impl DeepView for Question {
    type V = QuestionView;

    open spec fn deep_view(&self) -> QuestionView {
        self@
    }
}

/// A dashboard record.
#[derive(Debug)]
pub struct Dashboard {
    pub id: i32,
    pub name: Vec<char>,
    pub description: Option<Vec<char>>,
    pub parameters: Vec<char>,
    pub collection_id: Option<i32>,
}

/// Mathematical value of a `Dashboard`.
pub struct DashboardView {
    pub id: i32,
    pub name: Seq<char>,
    pub description: Option<Seq<char>>,
    pub parameters: Seq<char>,
    pub collection_id: Option<i32>,
}

impl View for Dashboard {
    type V = DashboardView;

    open spec fn view(&self) -> DashboardView {
        DashboardView {
            id: self.id,
            name: self.name@,
            description: view_opt_chars(self.description),
            parameters: self.parameters@,
            collection_id: self.collection_id,
        }
    }
}

impl DeepView for Dashboard {
    type V = DashboardView;

    open spec fn deep_view(&self) -> DashboardView {
        self@
    }
}

/// A card placed on a dashboard, optionally backed by a saved query.
#[derive(Debug)]
pub struct DashboardCard {
    pub size_x: i32,
    pub size_y: i32,
    pub row: i32,
    pub col: i32,
    pub card_id: Option<i32>,
    pub parameter_mappings: Vec<char>,
    pub visualization_settings: Vec<char>,
}

/// Mathematical value of a `DashboardCard`.
pub struct DashboardCardView {
    pub size_x: i32,
    pub size_y: i32,
    pub row: i32,
    pub col: i32,
    pub card_id: Option<i32>,
    pub parameter_mappings: Seq<char>,
    pub visualization_settings: Seq<char>,
}

impl View for DashboardCard {
    type V = DashboardCardView;

    open spec fn view(&self) -> DashboardCardView {
        DashboardCardView {
            size_x: self.size_x,
            size_y: self.size_y,
            row: self.row,
            col: self.col,
            card_id: self.card_id,
            parameter_mappings: self.parameter_mappings@,
            visualization_settings: self.visualization_settings@,
        }
    }
}

impl DeepView for DashboardCard {
    type V = DashboardCardView;

    open spec fn deep_view(&self) -> DashboardCardView {
        self@
    }
}

/// The schema a table effectively lives in: its qualifier, or the default.
pub open spec fn spec_schema_or(schema: Option<Seq<char>>, default: Seq<char>) -> Seq<char> {
    match schema {
        Some(s) => s,
        None => default,
    }
}

impl DbTable {
    /// The table's schema qualifier, or `default` when it has none.
    pub fn schema_or<'a>(&'a self, default: &'a Vec<char>) -> (r: &'a Vec<char>)
        ensures
            r@ == spec_schema_or(self@.schema, default@),
    {
        match &self.schema {
            Some(s) => s,
            None => default,
        }
    }
}

/// The entity of this kind with this identifier.
pub open spec fn collection_with_id(id: i32) -> spec_fn(CollectionView) -> bool {
    |c: CollectionView| c.id == id
}

pub open spec fn database_with_id(id: i32) -> spec_fn(DatabaseView) -> bool {
    |d: DatabaseView| d.id == id
}

pub open spec fn table_with_id(id: i32) -> spec_fn(DbTableView) -> bool {
    |t: DbTableView| t.id == id
}

pub open spec fn field_with_id(id: i32) -> spec_fn(DbFieldView) -> bool {
    |f: DbFieldView| f.id == id
}

/// The column with this exact name on this table.
pub open spec fn field_on_table(table_id: i32, name: Seq<char>) -> spec_fn(DbFieldView) -> bool {
    |f: DbFieldView| f.table_id == table_id && f.name == name
}

/// The entity of this kind with this exact name.
pub open spec fn collection_named(name: Seq<char>) -> spec_fn(CollectionView) -> bool {
    |c: CollectionView| c.name == name
}

pub open spec fn database_named(name: Seq<char>) -> spec_fn(DatabaseView) -> bool {
    |d: DatabaseView| d.name == name
}

/// The table with this exact name whose effective schema is `schema`.
pub open spec fn table_named(name: Seq<char>, schema: Seq<char>) -> spec_fn(DbTableView) -> bool {
    |t: DbTableView| t.name == name && spec_schema_or(t.schema, "public"@) == schema
}

/// The read-once snapshot of reference entities.
pub struct Cache {
    pub collections: Vec<Collection>,
    pub databases: Vec<Database>,
    pub tables: Vec<DbTable>,
    pub fields: Vec<DbField>,
}

/// Mathematical value of the cache.
pub struct CacheView {
    pub collections: Seq<CollectionView>,
    pub databases: Seq<DatabaseView>,
    pub tables: Seq<DbTableView>,
    pub fields: Seq<DbFieldView>,
}

impl View for Cache {
    type V = CacheView;

    open spec fn view(&self) -> CacheView {
        CacheView {
            collections: self.collections.deep_view(),
            databases: self.databases.deep_view(),
            tables: self.tables.deep_view(),
            fields: self.fields.deep_view(),
        }
    }
}

/// The entity of this kind with this identifier, if the cache has one.
pub open spec fn lookup_collection(s: Seq<CollectionView>, id: i32) -> Option<CollectionView> {
    let i = first_where(s, collection_with_id(id));
    if i >= 0 {
        Some(s[i])
    } else {
        None
    }
}

pub open spec fn lookup_database(s: Seq<DatabaseView>, id: i32) -> Option<DatabaseView> {
    let i = first_where(s, database_with_id(id));
    if i >= 0 {
        Some(s[i])
    } else {
        None
    }
}

pub open spec fn lookup_table(s: Seq<DbTableView>, id: i32) -> Option<DbTableView> {
    let i = first_where(s, table_with_id(id));
    if i >= 0 {
        Some(s[i])
    } else {
        None
    }
}

impl Cache {
    /// Point lookup of a collection by identifier; the first entry with the
    /// identifier, or `NotFoundId` when there is none.
    pub fn collection(&self, id: i32) -> (r: Result<&Collection, PortError>)
        ensures
            ({
                let i = first_where(self.collections.deep_view(), collection_with_id(id));
                match r {
                    Ok(c) => i >= 0 && c@ == self.collections.deep_view()[i],
                    Err(e) => i == -1 && e == PortError::NotFoundId(EntityKind::Collection, id),
                }
            }),
    {
        let ghost cs = self.collections.deep_view();
        proof {
            lemma_first_where(cs, collection_with_id(id));
        }
        let mut i: usize = 0;
        while i < self.collections.len()
            invariant
                i <= cs.len(),
                cs == self.collections.deep_view(),
                forall|k: int| 0 <= k < i ==> !collection_with_id(id)(#[trigger] cs[k]),
            decreases cs.len() - i,
        {
            if self.collections[i].id == id {
                proof {
                    lemma_first_where(cs, collection_with_id(id));
                    assert(collection_with_id(id)(cs[i as int]));
                }
                return Ok(&self.collections[i]);
            }
            i = i + 1;
        }
        proof {
            lemma_first_where(cs, collection_with_id(id));
        }
        Err(PortError::NotFoundId(EntityKind::Collection, id))
    }

    /// Point lookup of a data source by identifier.
    pub fn database(&self, id: i32) -> (r: Result<&Database, PortError>)
        ensures
            ({
                let i = first_where(self.databases.deep_view(), database_with_id(id));
                match r {
                    Ok(d) => i >= 0 && d@ == self.databases.deep_view()[i],
                    Err(e) => i == -1 && e == PortError::NotFoundId(EntityKind::Database, id),
                }
            }),
    {
        let ghost ds = self.databases.deep_view();
        proof {
            lemma_first_where(ds, database_with_id(id));
        }
        let mut i: usize = 0;
        while i < self.databases.len()
            invariant
                i <= ds.len(),
                ds == self.databases.deep_view(),
                forall|k: int| 0 <= k < i ==> !database_with_id(id)(#[trigger] ds[k]),
            decreases ds.len() - i,
        {
            if self.databases[i].id == id {
                proof {
                    lemma_first_where(ds, database_with_id(id));
                    assert(database_with_id(id)(ds[i as int]));
                }
                return Ok(&self.databases[i]);
            }
            i = i + 1;
        }
        proof {
            lemma_first_where(ds, database_with_id(id));
        }
        Err(PortError::NotFoundId(EntityKind::Database, id))
    }

    /// Point lookup of a table by identifier.
    pub fn table(&self, id: i32) -> (r: Result<&DbTable, PortError>)
        ensures
            ({
                let i = first_where(self.tables.deep_view(), table_with_id(id));
                match r {
                    Ok(t) => i >= 0 && t@ == self.tables.deep_view()[i],
                    Err(e) => i == -1 && e == PortError::NotFoundId(EntityKind::Table, id),
                }
            }),
    {
        let ghost ts = self.tables.deep_view();
        proof {
            lemma_first_where(ts, table_with_id(id));
        }
        let mut i: usize = 0;
        while i < self.tables.len()
            invariant
                i <= ts.len(),
                ts == self.tables.deep_view(),
                forall|k: int| 0 <= k < i ==> !table_with_id(id)(#[trigger] ts[k]),
            decreases ts.len() - i,
        {
            if self.tables[i].id == id {
                proof {
                    lemma_first_where(ts, table_with_id(id));
                    assert(table_with_id(id)(ts[i as int]));
                }
                return Ok(&self.tables[i]);
            }
            i = i + 1;
        }
        proof {
            lemma_first_where(ts, table_with_id(id));
        }
        Err(PortError::NotFoundId(EntityKind::Table, id))
    }

    /// Point lookup of a column by identifier.
    pub fn field(&self, id: i32) -> (r: Result<&DbField, PortError>)
        ensures
            ({
                let i = first_where(self.fields.deep_view(), field_with_id(id));
                match r {
                    Ok(f) => i >= 0 && f@ == self.fields.deep_view()[i],
                    Err(e) => i == -1 && e == PortError::NotFoundId(EntityKind::Field, id),
                }
            }),
    {
        let ghost fs = self.fields.deep_view();
        proof {
            lemma_first_where(fs, field_with_id(id));
        }
        let mut i: usize = 0;
        while i < self.fields.len()
            invariant
                i <= fs.len(),
                fs == self.fields.deep_view(),
                forall|k: int| 0 <= k < i ==> !field_with_id(id)(#[trigger] fs[k]),
            decreases fs.len() - i,
        {
            if self.fields[i].id == id {
                proof {
                    lemma_first_where(fs, field_with_id(id));
                    assert(field_with_id(id)(fs[i as int]));
                }
                return Ok(&self.fields[i]);
            }
            i = i + 1;
        }
        proof {
            lemma_first_where(fs, field_with_id(id));
        }
        Err(PortError::NotFoundId(EntityKind::Field, id))
    }

    /// The first column with this exact name on this table, or a
    /// `NotFoundField` naming the table and the column.
    pub fn table_field(&self, table_id: i32, field: &Vec<char>) -> (r: Result<&DbField, PortError>)
        ensures
            ({
                let i = first_where(self.fields.deep_view(), field_on_table(table_id, field@));
                match r {
                    Ok(f) => i >= 0 && f@ == self.fields.deep_view()[i],
                    Err(e) => i == -1 && (e matches PortError::NotFoundField(t, n) && t == table_id
                        && n@ == field@),
                }
            }),
    {
        let ghost fs = self.fields.deep_view();
        proof {
            lemma_first_where(fs, field_on_table(table_id, field@));
        }
        let mut i: usize = 0;
        while i < self.fields.len()
            invariant
                i <= fs.len(),
                fs == self.fields.deep_view(),
                forall|k: int| 0 <= k < i ==> !field_on_table(table_id, field@)(#[trigger] fs[k]),
            decreases fs.len() - i,
        {
            if self.fields[i].table_id == table_id && chars_eq(&self.fields[i].name, field) {
                proof {
                    lemma_first_where(fs, field_on_table(table_id, field@));
                    assert(field_on_table(table_id, field@)(fs[i as int]));
                }
                return Ok(&self.fields[i]);
            }
            i = i + 1;
        }
        proof {
            lemma_first_where(fs, field_on_table(table_id, field@));
        }
        Err(PortError::NotFoundField(table_id, field.clone()))
    }

    /// Every collection with this exact name, in cache order.
    pub fn search_collections(&self, name: &Vec<char>) -> (out: Vec<Collection>)
        ensures
            out.deep_view() == self.collections.deep_view().filter(collection_named(name@)),
    {
        let ghost cs = self.collections.deep_view();
        let ghost pred = collection_named(name@);
        let mut out: Vec<Collection> = Vec::new();
        let mut i: usize = 0;
        proof {
            reveal(Seq::filter);
            assert(cs.take(0) =~= Seq::<CollectionView>::empty());
            assert(out.deep_view() =~= cs.take(0).filter(pred));
        }
        while i < self.collections.len()
            invariant
                i <= cs.len(),
                cs == self.collections.deep_view(),
                pred == collection_named(name@),
                out.deep_view() == cs.take(i as int).filter(pred),
            decreases cs.len() - i,
        {
            proof {
                reveal(Seq::filter);
                assert(cs.take(i + 1).drop_last() =~= cs.take(i as int));
                assert(cs.take(i + 1).last() == cs[i as int]);
            }
            if chars_eq(&self.collections[i].name, name) {
                let ghost pre = out.deep_view();
                out.push(self.collections[i].clone());
                proof {
                    assert(out.deep_view() =~= pre.push(cs[i as int]));
                }
            }
            i = i + 1;
        }
        proof {
            assert(cs.take(cs.len() as int) =~= cs);
        }
        out
    }

    /// Every data source with this exact name, in cache order.
    pub fn search_databases(&self, name: &Vec<char>) -> (out: Vec<Database>)
        ensures
            out.deep_view() == self.databases.deep_view().filter(database_named(name@)),
    {
        let ghost ds = self.databases.deep_view();
        let ghost pred = database_named(name@);
        let mut out: Vec<Database> = Vec::new();
        let mut i: usize = 0;
        proof {
            reveal(Seq::filter);
            assert(ds.take(0) =~= Seq::<DatabaseView>::empty());
            assert(out.deep_view() =~= ds.take(0).filter(pred));
        }
        while i < self.databases.len()
            invariant
                i <= ds.len(),
                ds == self.databases.deep_view(),
                pred == database_named(name@),
                out.deep_view() == ds.take(i as int).filter(pred),
            decreases ds.len() - i,
        {
            proof {
                reveal(Seq::filter);
                assert(ds.take(i + 1).drop_last() =~= ds.take(i as int));
                assert(ds.take(i + 1).last() == ds[i as int]);
            }
            if chars_eq(&self.databases[i].name, name) {
                let ghost pre = out.deep_view();
                out.push(self.databases[i].clone());
                proof {
                    assert(out.deep_view() =~= pre.push(ds[i as int]));
                }
            }
            i = i + 1;
        }
        proof {
            assert(ds.take(ds.len() as int) =~= ds);
        }
        out
    }

    /// Every table with this exact name whose effective schema is `schema`,
    /// in cache order.
    pub fn search_tables(&self, name: &Vec<char>, schema: &Vec<char>) -> (out: Vec<DbTable>)
        ensures
            out.deep_view() == self.tables.deep_view().filter(table_named(name@, schema@)),
    {
        let ghost ts = self.tables.deep_view();
        let ghost pred = table_named(name@, schema@);
        let mut out: Vec<DbTable> = Vec::new();
        let mut i: usize = 0;
        let mut default_schema: Vec<char> = Vec::new();
        default_schema.push('p');
        default_schema.push('u');
        default_schema.push('b');
        default_schema.push('l');
        default_schema.push('i');
        default_schema.push('c');
        proof {
            reveal_strlit("public");
            assert(default_schema@ =~= "public"@);
            reveal(Seq::filter);
            assert(ts.take(0) =~= Seq::<DbTableView>::empty());
            assert(out.deep_view() =~= ts.take(0).filter(pred));
        }
        while i < self.tables.len()
            invariant
                i <= ts.len(),
                ts == self.tables.deep_view(),
                pred == table_named(name@, schema@),
                default_schema@ == "public"@,
                out.deep_view() == ts.take(i as int).filter(pred),
            decreases ts.len() - i,
        {
            proof {
                reveal(Seq::filter);
                assert(ts.take(i + 1).drop_last() =~= ts.take(i as int));
                assert(ts.take(i + 1).last() == ts[i as int]);
            }
            let effective = self.tables[i].schema_or(&default_schema);
            if chars_eq(&self.tables[i].name, name) && chars_eq(effective, schema) {
                let ghost pre = out.deep_view();
                out.push(self.tables[i].clone());
                proof {
                    assert(out.deep_view() =~= pre.push(ts[i as int]));
                }
            }
            i = i + 1;
        }
        proof {
            assert(ts.take(ts.len() as int) =~= ts);
        }
        out
    }
}

} // verus!
