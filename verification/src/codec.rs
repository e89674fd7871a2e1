//! The marker-substitution codec.
//!
//! Two symmetric directions over opaque payload text: *snapshotting*
//! rewrites database-assigned numeric identifiers into portable marker
//! strings, *restoring* resolves marker strings back into identifiers valid
//! in the destination database.  All substitution is textual: the codec
//! scans for the literal marker shapes and never interprets the payload
//! around them.  Each distinct identifier or name is resolved once per
//! payload and replaced everywhere it occurs.

use crate::error::{EntityKind, PortError};
use crate::model::{
    first_where, Cache, DbFieldView, DbTable, DbTableView, Question, field_on_table,
    field_with_id, table_with_id, spec_schema_or,
};
use crate::num::{dec_int, dec_val, int_text};
use crate::snapshot::SerializedSnapshot;
use crate::text::{
    dedup, dedup_ids, dedup_names, extend_chars, find_marked, find_marked_runs,
    lemma_find_marked_class, replace_all, replace_all_chars, replace_marked,
    replace_marked_chars, str_to_chars, CharClass,
};
use vstd::prelude::*;

verus! {

// ---------------------------------------------------------------------------
// The marker alphabet, as character sequences.
// ---------------------------------------------------------------------------

/// `"snapshot:database"`, with its quotes: stands for the query's data
/// source.
pub open spec fn marker_database() -> Seq<char> {
    "\"snapshot:database\""@
}

/// `"snapshot:question"`, with its quotes: stands for the owning saved
/// query in dashboard parameter mappings.
pub open spec fn marker_question() -> Seq<char> {
    "\"snapshot:question\""@
}

/// Opening of a field marker: a quote and `snapshot:field:`.
pub open spec fn field_marker_pre() -> Seq<char> {
    "\"snapshot:field:"@
}

/// Opening of a nested-ref field marker: a quote and `snapshot:ref:field:`.
pub open spec fn ref_marker_pre() -> Seq<char> {
    "\"snapshot:ref:field:"@
}

/// The closing quote of a name-based marker.
pub open spec fn quote() -> Seq<char> {
    "\""@
}

/// Opening of a plain field identifier pair: `["field-id",`.
pub open spec fn field_id_pre() -> Seq<char> {
    "[\"field-id\","@
}

/// Closing bracket of a plain field identifier pair.
pub open spec fn field_id_post() -> Seq<char> {
    "]"@
}

/// Opening of the escaped nested-ref wrapper the forward pass scans for:
/// `"[\"ref\",[\"field-id\",`.
pub open spec fn ref_scan_pre() -> Seq<char> {
    "\"[\\\"ref\\\",[\\\"field-id\\\","@
}

/// Closing of the escaped nested-ref wrapper: `]]"`.
pub open spec fn ref_scan_post() -> Seq<char> {
    "]]\""@
}

/// Opening of the re-escaped nested-ref wrapper the restore pass emits:
/// `"[\"ref\", [\"field-id\",`.
pub open spec fn ref_emit_pre() -> Seq<char> {
    "\"[\\\"ref\\\", [\\\"field-id\\\","@
}

/// Closing of the re-escaped nested-ref wrapper.
pub open spec fn ref_emit_post() -> Seq<char> {
    "]]\""@
}

/// The literal `"database":` key, opening a numeric data source reference.
pub open spec fn database_key_pre() -> Seq<char> {
    "\"database\":"@
}

/// The rewritten data source reference.
pub open spec fn database_key_marked() -> Seq<char> {
    "\"database\":\"snapshot:database\""@
}

/// The literal `"source-table":` key, opening a numeric table reference.
pub open spec fn source_table_pre() -> Seq<char> {
    "\"source-table\":"@
}

/// The literal `"card_id":` key, opening a numeric saved query reference.
pub open spec fn card_id_pre() -> Seq<char> {
    "\"card_id\":"@
}

/// The rewritten saved query reference.
pub open spec fn card_id_marked() -> Seq<char> {
    "\"card_id\":\"snapshot:question\""@
}

/// Opening of a table marker: a quote and `snapshot:table:`.
pub open spec fn table_marker_pre() -> Seq<char> {
    "\"snapshot:table:"@
}

/// The table marker of a table: a quote, `snapshot:table:`, the effective
/// schema, a dot, the table name, and a closing quote.
pub open spec fn table_marker(t: DbTableView) -> Seq<char> {
    table_marker_pre() + spec_schema_or(t.schema, "public"@) + "."@ + t.name + quote()
}

// ---------------------------------------------------------------------------
// Spec-level outcome of one codec pass.
// ---------------------------------------------------------------------------

/// What one codec pass does with a payload: the rewritten text, or the
/// first unresolvable reference it stopped at.
pub enum CodecOutcome {
    /// The pass rewrote the whole payload to this text.
    Done(Seq<char>),
    /// Restore found no field with this name on the context table.
    MissingField(Seq<char>),
    /// Snapshotting found no cached field with this identifier.
    MissingFieldId(i32),
    /// Snapshotting found no cached table with this identifier.
    MissingTableId(i32),
    /// A scanned digit run does not fit an identifier.
    IdOverflow,
}

// ---------------------------------------------------------------------------
// Restore direction: name markers back to identifiers.
// ---------------------------------------------------------------------------

/// The marker pattern of one field name, in either style.
pub open spec fn restore_pattern(name: Seq<char>, ref_style: bool) -> Seq<char> {
    if ref_style {
        ref_marker_pre() + name + quote()
    } else {
        field_marker_pre() + name + quote()
    }
}

/// What one resolved field marker is replaced with, in either style.
pub open spec fn restore_replacement(id: i32, ref_style: bool) -> Seq<char> {
    if ref_style {
        ref_emit_pre() + dec_int(id as int) + ref_emit_post()
    } else {
        field_id_pre() + dec_int(id as int) + field_id_post()
    }
}

/// Folds the distinct field names of a payload, resolving each against the
/// context table and replacing every occurrence of its marker; stops at the
/// first name the table does not have.
pub open spec fn spec_restore_fields(
    fields: Seq<DbFieldView>,
    table_id: i32,
    s: Seq<char>,
    names: Seq<Seq<char>>,
    ref_style: bool,
) -> CodecOutcome
    decreases names.len(),
{
    if names.len() == 0 {
        CodecOutcome::Done(s)
    } else {
        let name = names[0];
        let i = first_where(fields, field_on_table(table_id, name));
        if i < 0 {
            CodecOutcome::MissingField(name)
        } else {
            spec_restore_fields(
                fields,
                table_id,
                replace_all(
                    s,
                    restore_pattern(name, ref_style),
                    restore_replacement(fields[i].id, ref_style),
                ),
                names.skip(1),
                ref_style,
            )
        }
    }
}

/// One whole field-marker restore pass over a payload: scan, deduplicate,
/// resolve and replace.
pub open spec fn spec_restore_field_pass(
    fields: Seq<DbFieldView>,
    table_id: i32,
    s: Seq<char>,
    ref_style: bool,
) -> CodecOutcome {
    let pre = if ref_style {
        ref_marker_pre()
    } else {
        field_marker_pre()
    };
    let names = dedup(find_marked(s, pre, quote(), CharClass::NameChars));
    spec_restore_fields(fields, table_id, s, names, ref_style)
}

/// Scans `s` for field markers of one style, resolves each distinct name
/// against the context table, and replaces all its occurrences.
fn restore_field_markers(cache: &Cache, table_id: i32, s: &Vec<char>, ref_style: bool) -> (r:
    Result<Vec<char>, PortError>)
    ensures
        match spec_restore_field_pass(cache.fields.deep_view(), table_id, s@, ref_style) {
            CodecOutcome::Done(t) => r matches Ok(out) && out@ == t,
            CodecOutcome::MissingField(nm) => r matches Err(e) && (e matches
                PortError::NotFoundField(t, n) && t == table_id && n@ == nm),
            _ => false,
        },
{
    let ghost fields = cache.fields.deep_view();
    let pre: Vec<char> = if ref_style {
        str_to_chars("\"snapshot:ref:field:")
    } else {
        str_to_chars("\"snapshot:field:")
    };
    let ghost pre_spec = if ref_style {
        ref_marker_pre()
    } else {
        field_marker_pre()
    };
    proof {
        reveal_strlit("\"snapshot:ref:field:");
        reveal_strlit("\"snapshot:field:");
        assert(pre@ == pre_spec);
        assert(pre_spec.len() > 0);
    }
    let post: Vec<char> = str_to_chars("\"");
    let runs = find_marked_runs(s, &pre, &post, CharClass::NameChars);
    let names = dedup_names(&runs);
    let ghost names_spec = dedup(find_marked(s@, pre_spec, quote(), CharClass::NameChars));
    proof {
        assert(post@ == quote());
        assert(names@.map_values(|u: Vec<char>| u@) == names_spec);
    }
    let mut cur: Vec<char> = Vec::new();
    extend_chars(&mut cur, s);
    let mut j: usize = 0;
    proof {
        assert(cur@ =~= s@);
        assert(names_spec.skip(0) =~= names_spec);
    }
    while j < names.len()
        invariant
            j <= names_spec.len(),
            fields == cache.fields.deep_view(),
            pre@ == pre_spec,
            pre_spec == if ref_style {
                ref_marker_pre()
            } else {
                field_marker_pre()
            },
            names@.map_values(|u: Vec<char>| u@) == names_spec,
            spec_restore_fields(fields, table_id, cur@, names_spec.skip(j as int), ref_style)
                == spec_restore_field_pass(fields, table_id, s@, ref_style),
        decreases names_spec.len() - j,
    {
        let ghost tail = names_spec.skip(j as int);
        proof {
            assert(tail[0] == names_spec[j as int]);
            assert(names_spec[j as int] == names@.map_values(|u: Vec<char>| u@)[j as int]);
        }
        let name = &names[j];
        let f = match cache.table_field(table_id, name) {
            Ok(f) => f,
            Err(e) => {
                proof {
                    assert(spec_restore_fields(fields, table_id, cur@, tail, ref_style)
                        == CodecOutcome::MissingField(name@));
                }
                return Err(e);
            },
        };
        let mut pat: Vec<char> = Vec::new();
        extend_chars(&mut pat, &pre);
        extend_chars(&mut pat, name);
        pat.push('"');
        proof {
            reveal_strlit("\"");
            assert(quote().len() == 1);
            assert(pat@ =~= pre_spec + name@ + quote());
            assert(pat@ == restore_pattern(name@, ref_style));
        }
        let mut rep: Vec<char> = Vec::new();
        if ref_style {
            let emit_pre = str_to_chars("\"[\\\"ref\\\", [\\\"field-id\\\",");
            extend_chars(&mut rep, &emit_pre);
            let digits = int_text(f.id);
            extend_chars(&mut rep, &digits);
            let emit_post = str_to_chars("]]\"");
            extend_chars(&mut rep, &emit_post);
            proof {
                assert(rep@ =~= ref_emit_pre() + dec_int(f.id as int) + ref_emit_post());
            }
        } else {
            let id_pre = str_to_chars("[\"field-id\",");
            extend_chars(&mut rep, &id_pre);
            let digits = int_text(f.id);
            extend_chars(&mut rep, &digits);
            rep.push(']');
            proof {
                reveal_strlit("]");
                assert(field_id_post().len() == 1);
                assert(rep@ =~= field_id_pre() + dec_int(f.id as int) + field_id_post());
            }
        }
        proof {
            assert(pat@.len() > 0);
        }
        let next = replace_all_chars(&cur, &pat, &rep);
        proof {
            let i = first_where(fields, field_on_table(table_id, name@));
            assert(f@ == fields[i]);
            assert(spec_restore_fields(fields, table_id, cur@, tail, ref_style)
                == spec_restore_fields(fields, table_id, next@, tail.skip(1), ref_style));
            assert(tail.skip(1) =~= names_spec.skip(j + 1));
        }
        cur = next;
        j = j + 1;
    }
    proof {
        assert(names_spec.skip(names_spec.len() as int) =~= Seq::<Seq<char>>::empty());
    }
    Ok(cur)
}

/// Restoring a query payload: the data source marker becomes the context
/// table's data source identifier, the context table's marker becomes its
/// identifier, and every field marker is resolved through the context
/// table.
pub open spec fn spec_restore_query(fields: Seq<DbFieldView>, table: DbTableView, s: Seq<char>) ->
    CodecOutcome {
    let s1 = replace_all(s, marker_database(), dec_int(table.db_id as int));
    let s2 = replace_all(s1, table_marker(table), dec_int(table.id as int));
    spec_restore_field_pass(fields, table.id, s2, false)
}

/// Restoring a parameter-mappings payload: the saved query marker becomes
/// the owning saved query's identifier, and every field marker is resolved
/// through the context table.
pub open spec fn spec_restore_parameters(
    fields: Seq<DbFieldView>,
    question_id: i32,
    table_id: i32,
    s: Seq<char>,
) -> CodecOutcome {
    let s1 = replace_all(s, marker_question(), dec_int(question_id as int));
    spec_restore_field_pass(fields, table_id, s1, false)
}

/// Restoring a visualization-settings payload: every plain field marker,
/// then every nested-ref field marker, is resolved through the context
/// table.
pub open spec fn spec_restore_settings(fields: Seq<DbFieldView>, table_id: i32, s: Seq<char>) ->
    CodecOutcome {
    match spec_restore_field_pass(fields, table_id, s, false) {
        CodecOutcome::Done(s1) => spec_restore_field_pass(fields, table_id, s1, true),
        o => o,
    }
}

/// Restores a query payload against its context table.
pub fn restore_query(cache: &Cache, table: &DbTable, snapshot: &SerializedSnapshot) -> (r: Result<
    String,
    PortError,
>)
    ensures
        match spec_restore_query(cache.fields.deep_view(), table@, snapshot@) {
            CodecOutcome::Done(t) => r matches Ok(out) && out@ == t,
            CodecOutcome::MissingField(nm) => r matches Err(e) && (e matches
                PortError::NotFoundField(t, n) && t == table.id && n@ == nm),
            _ => false,
        },
{
    let s = snapshot.chars();
    let mdb = str_to_chars("\"snapshot:database\"");
    proof {
        reveal_strlit("\"snapshot:database\"");
        assert(mdb@ == marker_database());
        assert(mdb@.len() > 0);
    }
    let rep_db = int_text(table.db_id);
    let s1 = replace_all_chars(s, &mdb, &rep_db);

    let mut tm = str_to_chars("\"snapshot:table:");
    let default_schema = str_to_chars("public");
    let schema = table.schema_or(&default_schema);
    extend_chars(&mut tm, schema);
    tm.push('.');
    extend_chars(&mut tm, &table.name);
    tm.push('"');
    proof {
        reveal_strlit("\"snapshot:table:");
        reveal_strlit(".");
        reveal_strlit("\"");
        assert(tm@ =~= table_marker(table@));
        assert(tm@.len() > 0);
    }
    let rep_tid = int_text(table.id);
    let s2 = replace_all_chars(&s1, &tm, &rep_tid);

    match restore_field_markers(cache, table.id, &s2, false) {
        Ok(out) => Ok(crate::snapshot::chars_to_string(&out)),
        Err(e) => Err(e),
    }
}

/// Restores a parameter-mappings payload against the owning saved query
/// and its context table.
pub fn restore_parameters(
    cache: &Cache,
    question: &Question,
    table: &DbTable,
    snapshot: &SerializedSnapshot,
) -> (r: Result<String, PortError>)
    ensures
        match spec_restore_parameters(cache.fields.deep_view(), question.id, table.id, snapshot@) {
            CodecOutcome::Done(t) => r matches Ok(out) && out@ == t,
            CodecOutcome::MissingField(nm) => r matches Err(e) && (e matches
                PortError::NotFoundField(t, n) && t == table.id && n@ == nm),
            _ => false,
        },
{
    let s = snapshot.chars();
    let mq = str_to_chars("\"snapshot:question\"");
    proof {
        reveal_strlit("\"snapshot:question\"");
        assert(mq@ == marker_question());
        assert(mq@.len() > 0);
    }
    let rep_q = int_text(question.id);
    let s1 = replace_all_chars(s, &mq, &rep_q);

    match restore_field_markers(cache, table.id, &s1, false) {
        Ok(out) => Ok(crate::snapshot::chars_to_string(&out)),
        Err(e) => Err(e),
    }
}

/// Restores a visualization-settings payload against its context table.
pub fn restore_settings(cache: &Cache, table: &DbTable, snapshot: &SerializedSnapshot) -> (r:
    Result<String, PortError>)
    ensures
        match spec_restore_settings(cache.fields.deep_view(), table.id, snapshot@) {
            CodecOutcome::Done(t) => r matches Ok(out) && out@ == t,
            CodecOutcome::MissingField(nm) => r matches Err(e) && (e matches
                PortError::NotFoundField(t, n) && t == table.id && n@ == nm),
            _ => false,
        },
{
    let s = snapshot.chars();
    let s1 = match restore_field_markers(cache, table.id, s, false) {
        Ok(out) => out,
        Err(e) => {
            return Err(e);
        },
    };
    match restore_field_markers(cache, table.id, &s1, true) {
        Ok(out) => Ok(crate::snapshot::chars_to_string(&out)),
        Err(e) => Err(e),
    }
}

// ---------------------------------------------------------------------------
// Forward direction: identifiers to name markers.
// ---------------------------------------------------------------------------

/// The identifier pattern one scanned field reference produces, in either
/// style.
pub open spec fn snap_pattern(id: i32, ref_style: bool) -> Seq<char> {
    if ref_style {
        ref_scan_pre() + crate::num::dec_digits(id as int) + ref_scan_post()
    } else {
        field_id_pre() + crate::num::dec_digits(id as int) + field_id_post()
    }
}

/// What one snapshotted field reference is replaced with, in either style.
pub open spec fn snap_replacement(name: Seq<char>, ref_style: bool) -> Seq<char> {
    if ref_style {
        ref_marker_pre() + name + quote()
    } else {
        field_marker_pre() + name + quote()
    }
}

/// Folds the distinct field identifiers of a payload, resolving each
/// through the cache's global field lookup and replacing every occurrence
/// of its pattern; stops at the first identifier the cache does not have.
pub open spec fn spec_snapshot_fields(
    fields: Seq<DbFieldView>,
    s: Seq<char>,
    ids: Seq<i32>,
    ref_style: bool,
) -> CodecOutcome
    decreases ids.len(),
{
    if ids.len() == 0 {
        CodecOutcome::Done(s)
    } else {
        let id = ids[0];
        let i = first_where(fields, field_with_id(id));
        if i < 0 {
            CodecOutcome::MissingFieldId(id)
        } else {
            spec_snapshot_fields(
                fields,
                replace_all(s, snap_pattern(id, ref_style), snap_replacement(fields[i].name, ref_style)),
                ids.skip(1),
                ref_style,
            )
        }
    }
}

/// The digit runs of the field references of one style in a payload.
pub open spec fn scanned_runs(s: Seq<char>, ref_style: bool) -> Seq<Seq<char>> {
    if ref_style {
        find_marked(s, ref_scan_pre(), ref_scan_post(), CharClass::Digits)
    } else {
        find_marked(s, field_id_pre(), field_id_post(), CharClass::Digits)
    }
}

/// Every scanned digit run fits an identifier.
pub open spec fn runs_fit(runs: Seq<Seq<char>>) -> bool {
    forall|k: int| 0 <= k < runs.len() ==> dec_val(#[trigger] runs[k]) <= i32::MAX
}

/// The scanned digit runs as identifiers.
pub open spec fn runs_ids(runs: Seq<Seq<char>>) -> Seq<i32> {
    runs.map_values(|r: Seq<char>| dec_val(r) as i32)
}

/// One whole field-reference snapshot pass: scan `scan` for references of
/// one style, deduplicate the identifiers, resolve each, and replace all
/// its occurrences in `subject`.
pub open spec fn spec_snapshot_field_pass(
    fields: Seq<DbFieldView>,
    scan: Seq<char>,
    subject: Seq<char>,
    ref_style: bool,
) -> CodecOutcome {
    let runs = scanned_runs(scan, ref_style);
    if !runs_fit(runs) {
        CodecOutcome::IdOverflow
    } else {
        spec_snapshot_fields(fields, subject, dedup(runs_ids(runs)), ref_style)
    }
}

/// Scans `scan` for field references of one style, resolves each distinct
/// identifier through the cache, and replaces all its occurrences in
/// `subject`.
fn snapshot_field_markers(cache: &Cache, scan: &Vec<char>, subject: &Vec<char>, ref_style: bool)
    -> (r: Result<Vec<char>, PortError>)
    ensures
        match spec_snapshot_field_pass(cache.fields.deep_view(), scan@, subject@, ref_style) {
            CodecOutcome::Done(t) => r matches Ok(out) && out@ == t,
            CodecOutcome::MissingFieldId(id) => r matches Err(e) && e == PortError::NotFoundId(
                EntityKind::Field,
                id,
            ),
            CodecOutcome::IdOverflow => r matches Err(e) && e == PortError::MalformedPayload,
            _ => false,
        },
{
    let ghost fields = cache.fields.deep_view();
    let pre: Vec<char> = if ref_style {
        str_to_chars("\"[\\\"ref\\\",[\\\"field-id\\\",")
    } else {
        str_to_chars("[\"field-id\",")
    };
    let post: Vec<char> = if ref_style {
        str_to_chars("]]\"")
    } else {
        str_to_chars("]")
    };
    let ghost pre_spec = if ref_style {
        ref_scan_pre()
    } else {
        field_id_pre()
    };
    let ghost post_spec = if ref_style {
        ref_scan_post()
    } else {
        field_id_post()
    };
    proof {
        reveal_strlit("\"[\\\"ref\\\",[\\\"field-id\\\",");
        reveal_strlit("[\"field-id\",");
        assert(pre@ == pre_spec);
        assert(pre_spec.len() > 0);
        assert(post@ == post_spec);
    }
    let runs = find_marked_runs(scan, &pre, &post, CharClass::Digits);
    let ghost runs_spec = scanned_runs(scan@, ref_style);
    proof {
        assert(runs@.map_values(|u: Vec<char>| u@) == runs_spec);
    }

    // Read every digit run as an identifier; a run too large to be one
    // makes the payload malformed.
    let mut vals: Vec<i32> = Vec::new();
    let mut k: usize = 0;
    proof {
        assert(vals@ =~= runs_spec.take(0).map_values(|r: Seq<char>| dec_val(r) as i32));
    }
    while k < runs.len()
        invariant
            k <= runs_spec.len(),
            runs@.map_values(|u: Vec<char>| u@) == runs_spec,
            runs_spec == scanned_runs(scan@, ref_style),
            vals@ == runs_spec.take(k as int).map_values(|r: Seq<char>| dec_val(r) as i32),
            forall|t: int| 0 <= t < k ==> dec_val(#[trigger] runs_spec[t]) <= i32::MAX,
            forall|t: int| 0 <= t < vals@.len() ==> #[trigger] vals@[t] >= 0,
        decreases runs_spec.len() - k,
    {
        proof {
            lemma_find_marked_class(
                scan@,
                if ref_style {
                    ref_scan_pre()
                } else {
                    field_id_pre()
                },
                if ref_style {
                    ref_scan_post()
                } else {
                    field_id_post()
                },
                CharClass::Digits,
            );
            assert(runs@.map_values(|u: Vec<char>| u@)[k as int] == runs_spec[k as int]);
        }
        let v = match crate::num::parse_id(&runs[k]) {
            Some(v) => v,
            None => {
                proof {
                    assert(dec_val(runs_spec[k as int]) > i32::MAX);
                    assert(!runs_fit(runs_spec));
                }
                return Err(PortError::MalformedPayload);
            },
        };
        vals.push(v);
        proof {
            assert(runs_spec.take(k + 1).drop_last() =~= runs_spec.take(k as int));
            assert(runs_spec.take(k + 1).map_values(|r: Seq<char>| dec_val(r) as i32)
                =~= runs_spec.take(k as int).map_values(|r: Seq<char>| dec_val(r) as i32).push(
                dec_val(runs_spec[k as int]) as i32,
            ));
        }
        k = k + 1;
    }
    proof {
        assert(runs_spec.take(runs_spec.len() as int) =~= runs_spec);
        assert(runs_fit(runs_spec));
    }

    let ids = dedup_ids(&vals);
    let ghost ids_spec = dedup(runs_ids(runs_spec));
    proof {
        assert(vals@ == runs_ids(runs_spec));
        assert(ids@ == ids_spec);
        crate::text::lemma_dedup(runs_ids(runs_spec));
    }
    let ghost all_nonneg = forall|t: int| 0 <= t < ids_spec.len() ==> #[trigger] ids_spec[t] >= 0;
    proof {
        assert forall|t: int| 0 <= t < ids_spec.len() implies #[trigger] ids_spec[t] >= 0 by {
            assert(ids_spec.contains(ids_spec[t]));
            assert(runs_ids(runs_spec).contains(ids_spec[t]));
            let w = choose|w: int|
                0 <= w < runs_ids(runs_spec).len() && runs_ids(runs_spec)[w] == ids_spec[t];
            assert(vals@[w] >= 0);
        }
    }

    let mut cur: Vec<char> = Vec::new();
    extend_chars(&mut cur, subject);
    let mut j: usize = 0;
    proof {
        assert(cur@ =~= subject@);
        assert(ids_spec.skip(0) =~= ids_spec);
    }
    while j < ids.len()
        invariant
            j <= ids_spec.len(),
            fields == cache.fields.deep_view(),
            ids@ == ids_spec,
            runs_fit(scanned_runs(scan@, ref_style)),
            ids_spec == dedup(runs_ids(scanned_runs(scan@, ref_style))),
            forall|t: int| 0 <= t < ids_spec.len() ==> #[trigger] ids_spec[t] >= 0,
            pre@ == if ref_style {
                ref_scan_pre()
            } else {
                field_id_pre()
            },
            post@ == if ref_style {
                ref_scan_post()
            } else {
                field_id_post()
            },
            spec_snapshot_fields(fields, cur@, ids_spec.skip(j as int), ref_style)
                == spec_snapshot_fields(fields, subject@, ids_spec, ref_style),
        decreases ids_spec.len() - j,
    {
        let ghost tail = ids_spec.skip(j as int);
        proof {
            assert(tail[0] == ids_spec[j as int]);
        }
        let id = ids[j];
        let f = match cache.field(id) {
            Ok(f) => f,
            Err(e) => {
                proof {
                    assert(spec_snapshot_fields(fields, cur@, tail, ref_style)
                        == CodecOutcome::MissingFieldId(id));
                }
                return Err(e);
            },
        };
        let mut pat: Vec<char> = Vec::new();
        extend_chars(&mut pat, &pre);
        let digits = int_text(id);
        proof {
            assert(id >= 0);
            assert(dec_int(id as int) == crate::num::dec_digits(id as int));
        }
        extend_chars(&mut pat, &digits);
        extend_chars(&mut pat, &post);
        proof {
            assert(pat@ =~= snap_pattern(id, ref_style));
            assert(pat@.len() > 0);
        }
        let mut rep: Vec<char> = Vec::new();
        let marker_pre: Vec<char> = if ref_style {
            str_to_chars("\"snapshot:ref:field:")
        } else {
            str_to_chars("\"snapshot:field:")
        };
        proof {
            reveal_strlit("\"snapshot:ref:field:");
            reveal_strlit("\"snapshot:field:");
        }
        extend_chars(&mut rep, &marker_pre);
        extend_chars(&mut rep, &f.name);
        rep.push('"');
        proof {
            reveal_strlit("\"");
            assert(quote().len() == 1);
            assert(rep@ =~= snap_replacement(f.name@, ref_style));
        }
        let next = replace_all_chars(&cur, &pat, &rep);
        proof {
            let i = first_where(fields, field_with_id(id));
            assert(f@ == fields[i]);
            assert(spec_snapshot_fields(fields, cur@, tail, ref_style) == spec_snapshot_fields(
                fields,
                next@,
                tail.skip(1),
                ref_style,
            ));
            assert(tail.skip(1) =~= ids_spec.skip(j + 1));
        }
        cur = next;
        j = j + 1;
    }
    proof {
        assert(ids_spec.skip(ids_spec.len() as int) =~= Seq::<i32>::empty());
    }
    Ok(cur)
}

/// Snapshotting a query payload: every numeric data source reference is
/// rewritten to the data source marker; the first numeric table reference
/// is resolved and every occurrence of that one reference is rewritten to
/// the table's marker; every field identifier pair is resolved through the
/// cache's global field lookup and rewritten to its field marker.
pub open spec fn spec_snapshot_query(
    fields: Seq<DbFieldView>,
    tables: Seq<DbTableView>,
    s: Seq<char>,
) -> CodecOutcome {
    let s1 = replace_marked(
        s,
        database_key_pre(),
        Seq::<char>::empty(),
        CharClass::Digits,
        database_key_marked(),
    );
    let st = find_marked(s, source_table_pre(), Seq::<char>::empty(), CharClass::Digits);
    if st.len() == 0 {
        spec_snapshot_field_pass(fields, s, s1, false)
    } else if dec_val(st[0]) > i32::MAX {
        CodecOutcome::IdOverflow
    } else {
        let id = dec_val(st[0]) as i32;
        let i = first_where(tables, table_with_id(id));
        if i < 0 {
            CodecOutcome::MissingTableId(id)
        } else {
            let s2 = replace_all(
                s1,
                source_table_pre() + crate::num::dec_digits(id as int),
                source_table_pre() + table_marker(tables[i]),
            );
            spec_snapshot_field_pass(fields, s, s2, false)
        }
    }
}

/// Snapshotting a parameter-mappings payload: every numeric saved query
/// reference is rewritten to the saved query marker, and every field
/// identifier pair to its field marker.
pub open spec fn spec_snapshot_parameters(fields: Seq<DbFieldView>, s: Seq<char>) -> CodecOutcome {
    let s1 = replace_marked(
        s,
        card_id_pre(),
        Seq::<char>::empty(),
        CharClass::Digits,
        card_id_marked(),
    );
    spec_snapshot_field_pass(fields, s, s1, false)
}

/// Snapshotting a visualization-settings payload: every plain field
/// identifier pair, then every escaped nested-ref field reference, is
/// rewritten to its marker.  Both scans read the original payload.
pub open spec fn spec_snapshot_settings(fields: Seq<DbFieldView>, s: Seq<char>) -> CodecOutcome {
    match spec_snapshot_field_pass(fields, s, s, false) {
        CodecOutcome::Done(s1) => spec_snapshot_field_pass(fields, s, s1, true),
        o => o,
    }
}

/// Snapshots a query payload.
pub fn snapshot_query(cache: &Cache, raw: &Vec<char>) -> (r: Result<SerializedSnapshot, PortError>)
    ensures
        match spec_snapshot_query(cache.fields.deep_view(), cache.tables.deep_view(), raw@) {
            CodecOutcome::Done(t) => (crate::snapshot::json_wf(t) ==> (r matches Ok(out) && out@
                == t)) && (!crate::snapshot::json_wf(t) ==> (r matches Err(e) && e
                == PortError::MalformedPayload)),
            CodecOutcome::MissingFieldId(id) => r matches Err(e) && e == PortError::NotFoundId(
                EntityKind::Field,
                id,
            ),
            CodecOutcome::MissingTableId(id) => r matches Err(e) && e == PortError::NotFoundId(
                EntityKind::Table,
                id,
            ),
            CodecOutcome::IdOverflow => r matches Err(e) && e == PortError::MalformedPayload,
            CodecOutcome::MissingField(_) => false,
        },
{
    let dbk = str_to_chars("\"database\":");
    let dbrep = str_to_chars("\"database\":\"snapshot:database\"");
    let empty_post: Vec<char> = Vec::new();
    proof {
        reveal_strlit("\"database\":");
        assert(dbk@ == database_key_pre());
        assert(dbk@.len() > 0);
        assert(dbrep@ == database_key_marked());
        assert(empty_post@ =~= Seq::<char>::empty());
    }
    let s1 = replace_marked_chars(raw, &dbk, &empty_post, CharClass::Digits, &dbrep);

    let stk = str_to_chars("\"source-table\":");
    proof {
        reveal_strlit("\"source-table\":");
        assert(stk@ == source_table_pre());
        assert(stk@.len() > 0);
    }
    let st_runs = find_marked_runs(raw, &stk, &empty_post, CharClass::Digits);
    let ghost st_spec = find_marked(raw@, source_table_pre(), Seq::<char>::empty(), CharClass::Digits);
    proof {
        assert(st_runs@.map_values(|u: Vec<char>| u@) == st_spec);
    }
    let s2: Vec<char> = if st_runs.len() > 0 {
        proof {
            lemma_find_marked_class(
                raw@,
                source_table_pre(),
                Seq::<char>::empty(),
                CharClass::Digits,
            );
            assert(st_runs@.map_values(|u: Vec<char>| u@)[0] == st_spec[0]);
        }
        let id = match crate::num::parse_id(&st_runs[0]) {
            Some(v) => v,
            None => {
                return Err(PortError::MalformedPayload);
            },
        };
        let table = match cache.table(id) {
            Ok(t) => t,
            Err(e) => {
                return Err(e);
            },
        };
        let mut pat: Vec<char> = Vec::new();
        extend_chars(&mut pat, &stk);
        let digits = int_text(id);
        proof {
            assert(id >= 0);
            assert(dec_int(id as int) == crate::num::dec_digits(id as int));
        }
        extend_chars(&mut pat, &digits);
        proof {
            assert(pat@ =~= source_table_pre() + crate::num::dec_digits(id as int));
            assert(pat@.len() > 0);
        }
        let mut rep: Vec<char> = Vec::new();
        extend_chars(&mut rep, &stk);
        let mut tm = str_to_chars("\"snapshot:table:");
        let default_schema = str_to_chars("public");
        let schema = table.schema_or(&default_schema);
        extend_chars(&mut tm, schema);
        tm.push('.');
        extend_chars(&mut tm, &table.name);
        tm.push('"');
        proof {
            reveal_strlit("\"snapshot:table:");
            reveal_strlit(".");
            reveal_strlit("\"");
            assert(tm@ =~= table_marker(table@));
        }
        extend_chars(&mut rep, &tm);
        proof {
            assert(rep@ =~= source_table_pre() + table_marker(table@));
        }
        replace_all_chars(&s1, &pat, &rep)
    } else {
        s1
    };
    let out = match snapshot_field_markers(cache, raw, &s2, false) {
        Ok(v) => v,
        Err(e) => {
            return Err(e);
        },
    };
    SerializedSnapshot::from_chars(out)
}

/// Snapshots a parameter-mappings payload.
pub fn snapshot_parameters(cache: &Cache, raw: &Vec<char>) -> (r: Result<
    SerializedSnapshot,
    PortError,
>)
    ensures
        match spec_snapshot_parameters(cache.fields.deep_view(), raw@) {
            CodecOutcome::Done(t) => (crate::snapshot::json_wf(t) ==> (r matches Ok(out) && out@
                == t)) && (!crate::snapshot::json_wf(t) ==> (r matches Err(e) && e
                == PortError::MalformedPayload)),
            CodecOutcome::MissingFieldId(id) => r matches Err(e) && e == PortError::NotFoundId(
                EntityKind::Field,
                id,
            ),
            CodecOutcome::IdOverflow => r matches Err(e) && e == PortError::MalformedPayload,
            _ => false,
        },
{
    let ck = str_to_chars("\"card_id\":");
    let crep = str_to_chars("\"card_id\":\"snapshot:question\"");
    let empty_post: Vec<char> = Vec::new();
    proof {
        reveal_strlit("\"card_id\":");
        assert(ck@ == card_id_pre());
        assert(ck@.len() > 0);
        assert(crep@ == card_id_marked());
        assert(empty_post@ =~= Seq::<char>::empty());
    }
    let s1 = replace_marked_chars(raw, &ck, &empty_post, CharClass::Digits, &crep);
    let out = match snapshot_field_markers(cache, raw, &s1, false) {
        Ok(v) => v,
        Err(e) => {
            return Err(e);
        },
    };
    SerializedSnapshot::from_chars(out)
}

/// Snapshots a visualization-settings payload.
pub fn snapshot_settings(cache: &Cache, raw: &Vec<char>) -> (r: Result<
    SerializedSnapshot,
    PortError,
>)
    ensures
        match spec_snapshot_settings(cache.fields.deep_view(), raw@) {
            CodecOutcome::Done(t) => (crate::snapshot::json_wf(t) ==> (r matches Ok(out) && out@
                == t)) && (!crate::snapshot::json_wf(t) ==> (r matches Err(e) && e
                == PortError::MalformedPayload)),
            CodecOutcome::MissingFieldId(id) => r matches Err(e) && e == PortError::NotFoundId(
                EntityKind::Field,
                id,
            ),
            CodecOutcome::IdOverflow => r matches Err(e) && e == PortError::MalformedPayload,
            _ => false,
        },
{
    let s1 = match snapshot_field_markers(cache, raw, raw, false) {
        Ok(v) => v,
        Err(e) => {
            return Err(e);
        },
    };
    let s2 = match snapshot_field_markers(cache, raw, &s1, true) {
        Ok(v) => v,
        Err(e) => {
            return Err(e);
        },
    };
    SerializedSnapshot::from_chars(s2)
}

} // verus!
