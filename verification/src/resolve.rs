//! Name-based dependency resolution.
//!
//! Turns a dependency's name (plus optional scope hints) into a concrete
//! cached entity, applying the disambiguation policy when several entities
//! share the name.

use crate::error::{EntityKind, PortError};
use crate::model::{
    first_where, lemma_first_where, Cache, Collection, CollectionView, Database, DatabaseView,
    DbTable, DbTableView, collection_named, database_named, table_named, spec_schema_or,
};
use crate::snapshot::{DatabaseDependency, DatabaseDependencyView, TableDependency, TableDependencyView};
use vstd::prelude::*;

verus! {

/// A collection that has not been soft-deleted.
pub open spec fn collection_live() -> spec_fn(CollectionView) -> bool {
    |c: CollectionView| !c.archived
}

/// A table belonging to the hinted data source.
pub open spec fn table_in_db(db_id: i32) -> spec_fn(DbTableView) -> bool {
    |t: DbTableView| t.db_id == db_id
}

/// An active table with no explicit visibility restriction.
pub open spec fn table_unrestricted() -> spec_fn(DbTableView) -> bool {
    |t: DbTableView| t.active && t.visibility_type is None
}

/// An active table.
pub open spec fn table_active() -> spec_fn(DbTableView) -> bool {
    |t: DbTableView| t.active
}

/// The data source hint: the first cached data source with the declared
/// name, if the snapshot declares one and the cache has a match.
pub open spec fn spec_database_hint(databases: Seq<DatabaseView>, dep: Option<
    DatabaseDependencyView,
>) -> Option<DatabaseView> {
    match dep {
        Some(d) => {
            let ms = databases.filter(database_named(d.database));
            if ms.len() > 0 {
                Some(ms[0])
            } else {
                None
            }
        },
        None => None,
    }
}

/// The tie-break policy over the tables sharing the requested name and
/// schema: a table of the hinted data source; else the first active table
/// without visibility restriction; else the first active table; else the
/// first match; `None` only when nothing matches at all.
pub open spec fn spec_discover(candidates: Seq<DbTableView>, hint: Option<DatabaseView>) -> Option<
    DbTableView,
> {
    let hinted = match hint {
        Some(db) => first_where(candidates, table_in_db(db.id)),
        None => -1,
    };
    if hinted >= 0 {
        Some(candidates[hinted])
    } else {
        let u = first_where(candidates, table_unrestricted());
        if u >= 0 {
            Some(candidates[u])
        } else {
            let a = first_where(candidates, table_active());
            if a >= 0 {
                Some(candidates[a])
            } else if candidates.len() > 0 {
                Some(candidates[0])
            } else {
                None
            }
        }
    }
}

/// The candidate tables of a table dependency: every cached table with the
/// declared name whose effective schema is the declared schema (default
/// `public`).
pub open spec fn spec_table_candidates(tables: Seq<DbTableView>, dep: TableDependencyView) -> Seq<
    DbTableView,
> {
    tables.filter(table_named(dep.table, spec_schema_or(dep.schema, "public"@)))
}

/// Resolves a collection dependency to the first live (non-archived)
/// collection with the declared name.
pub fn resolve_collection(cache: &Cache, name: &Vec<char>) -> (r: Result<Collection, PortError>)
    ensures
        ({
            let ms = cache.collections.deep_view().filter(collection_named(name@));
            let i = first_where(ms, collection_live());
            match r {
                Ok(c) => i >= 0 && c@ == ms[i],
                Err(e) => i == -1 && (e matches PortError::NotFoundName(k, n)
                    && k == EntityKind::Collection && n@ == name@),
            }
        }),
{
    let found = cache.search_collections(name);
    let ghost ms = cache.collections.deep_view().filter(collection_named(name@));
    proof {
        assert(found.deep_view() == ms);
    }
    let mut i: usize = 0;
    while i < found.len()
        invariant
            i <= ms.len(),
            ms == cache.collections.deep_view().filter(collection_named(name@)),
            found.deep_view() == ms,
            forall|k: int| 0 <= k < i ==> !collection_live()(#[trigger] ms[k]),
        decreases ms.len() - i,
    {
        if !found[i].archived {
            proof {
                lemma_first_where(ms, collection_live());
                assert(ms[i as int] == found@[i as int]@);
                assert(collection_live()(ms[i as int]));
            }
            return Ok(found[i].clone());
        }
        i = i + 1;
    }
    proof {
        lemma_first_where(ms, collection_live());
    }
    Err(PortError::NotFoundName(EntityKind::Collection, name.clone()))
}

/// Applies the table discovery tie-break to a table dependency, with an
/// optional data source hint.  Returns `None` only when no cached table
/// matches the declared name and schema.
pub fn discover_table(cache: &Cache, tbl: &TableDependency, db: &Option<DatabaseDependency>) -> (r:
    Option<DbTable>)
    ensures
        ({
            let candidates = spec_table_candidates(cache.tables.deep_view(), tbl@);
            let hint = spec_database_hint(cache.databases.deep_view(), db.deep_view());
            match r {
                Some(t) => spec_discover(candidates, hint) == Some(t@),
                None => spec_discover(candidates, hint) is None,
            }
        }),
{
    let mut default_schema: Vec<char> = Vec::new();
    default_schema.push('p');
    default_schema.push('u');
    default_schema.push('b');
    default_schema.push('l');
    default_schema.push('i');
    default_schema.push('c');
    proof {
        reveal_strlit("public");
        assert(default_schema@ =~= "public"@);
    }
    let ghost candidates = spec_table_candidates(cache.tables.deep_view(), tbl@);
    let ghost hint = spec_database_hint(cache.databases.deep_view(), db.deep_view());
    let schema = tbl.schema_or(&default_schema);
    let found = cache.search_tables(&tbl.table, schema);
    proof {
        assert(found.deep_view() == candidates);
    }

    // (a) a table of the hinted data source
    if let Some(dep) = db {
        let dbs = cache.search_databases(&dep.database);
        if dbs.len() > 0 {
            proof {
                assert(hint == Some(dbs.deep_view()[0]));
            }
            let hint_id: i32 = dbs[0].id;
            if let Some(ix) = first_table_in_db(&found, hint_id) {
                return Some(found[ix].clone());
            }
        }
    }

    // (b) the first active table with no explicit visibility restriction
    if let Some(ix) = first_table_unrestricted(&found) {
        return Some(found[ix].clone());
    }

    // (c) the first active table
    if let Some(ix) = first_table_active(&found) {
        return Some(found[ix].clone());
    }

    // (d) any match at all
    if found.len() > 0 {
        return Some(found[0].clone());
    }
    None
}

/// Index of the first candidate belonging to the hinted data source.
fn first_table_in_db(found: &Vec<DbTable>, db_id: i32) -> (r: Option<usize>)
    ensures
        ({
            let i = first_where(found.deep_view(), table_in_db(db_id));
            match r {
                Some(ix) => ix as int == i && ix < found@.len(),
                None => i == -1,
            }
        }),
{
    let ghost ts = found.deep_view();
    let mut i: usize = 0;
    while i < found.len()
        invariant
            i <= ts.len(),
            ts == found.deep_view(),
            forall|k: int| 0 <= k < i ==> !table_in_db(db_id)(#[trigger] ts[k]),
        decreases ts.len() - i,
    {
        if found[i].db_id == db_id {
            proof {
                lemma_first_where(ts, table_in_db(db_id));
                assert(table_in_db(db_id)(ts[i as int]));
            }
            return Some(i);
        }
        i = i + 1;
    }
    proof {
        lemma_first_where(ts, table_in_db(db_id));
    }
    None
}

/// Index of the first active candidate without visibility restriction.
fn first_table_unrestricted(found: &Vec<DbTable>) -> (r: Option<usize>)
    ensures
        ({
            let i = first_where(found.deep_view(), table_unrestricted());
            match r {
                Some(ix) => ix as int == i && ix < found@.len(),
                None => i == -1,
            }
        }),
{
    let ghost ts = found.deep_view();
    let mut i: usize = 0;
    while i < found.len()
        invariant
            i <= ts.len(),
            ts == found.deep_view(),
            forall|k: int| 0 <= k < i ==> !table_unrestricted()(#[trigger] ts[k]),
        decreases ts.len() - i,
    {
        if found[i].active && found[i].visibility_type.is_none() {
            proof {
                lemma_first_where(ts, table_unrestricted());
                assert(table_unrestricted()(ts[i as int]));
            }
            return Some(i);
        }
        i = i + 1;
    }
    proof {
        lemma_first_where(ts, table_unrestricted());
    }
    None
}

/// Index of the first active candidate.
fn first_table_active(found: &Vec<DbTable>) -> (r: Option<usize>)
    ensures
        ({
            let i = first_where(found.deep_view(), table_active());
            match r {
                Some(ix) => ix as int == i && ix < found@.len(),
                None => i == -1,
            }
        }),
{
    let ghost ts = found.deep_view();
    let mut i: usize = 0;
    while i < found.len()
        invariant
            i <= ts.len(),
            ts == found.deep_view(),
            forall|k: int| 0 <= k < i ==> !table_active()(#[trigger] ts[k]),
        decreases ts.len() - i,
    {
        if found[i].active {
            proof {
                lemma_first_where(ts, table_active());
                assert(table_active()(ts[i as int]));
            }
            return Some(i);
        }
        i = i + 1;
    }
    proof {
        lemma_first_where(ts, table_active());
    }
    None
}

} // verus!
