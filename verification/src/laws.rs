//! Laws of the codec.
//!
//! The substitution engine's properties that hold across whole passes: a
//! successful forward pass leaves no occurrence of any identifier pattern
//! it rewrote, so running its substitutions again changes nothing; and
//! restoring a field marker and snapshotting the resulting identifier
//! reference reproduces the original payload.

use crate::codec::{
    field_id_pre, field_id_post, field_marker_pre, restore_pattern, restore_replacement,
    snap_pattern, snap_replacement, spec_restore_fields, spec_snapshot_fields, CodecOutcome,
};
use crate::model::{first_where, lemma_first_where, DbFieldView, field_on_table, field_with_id};
use crate::num::{dec_digits, dec_int, lemma_dec_digits};
use crate::num::dec_val;
use crate::text::{
    is_digit, is_name_char, lemma_match_at_skip, match_at, occurs, replace_all, CharClass,
};
use vstd::prelude::*;

verus! {

/// `a` is an initial segment of `s`.
pub open spec fn is_prefix(a: Seq<char>, s: Seq<char>) -> bool {
    a.len() <= s.len() && s.subrange(0, a.len() as int) == a
}

/// Neither sequence is an initial segment of the other.
pub open spec fn no_overlap(a: Seq<char>, b: Seq<char>) -> bool {
    !is_prefix(a, b) && !is_prefix(b, a)
}

/// Sequences that differ in their first character cannot begin one
/// another.
pub proof fn lemma_no_overlap_first_char(a: Seq<char>, b: Seq<char>)
    requires
        a.len() > 0,
        b.len() > 0,
        a[0] != b[0],
    ensures
        no_overlap(a, b),
{
    if is_prefix(a, b) {
        assert(b.subrange(0, a.len() as int)[0] == a[0]);
    }
    if is_prefix(b, a) {
        assert(a.subrange(0, b.len() as int)[0] == b[0]);
    }
}

/// Text consisting of field-name characters only.
pub open spec fn identifier_text(s: Seq<char>) -> bool {
    forall|k: int| 0 <= k < s.len() ==> is_name_char(#[trigger] s[k])
}

/// Replacing a pattern that does not occur changes nothing.
pub proof fn lemma_replace_all_absent(s: Seq<char>, pat: Seq<char>, rep: Seq<char>)
    requires
        !occurs(s, pat),
    ensures
        replace_all(s, pat, rep) == s,
    decreases s.len(),
{
    if pat.len() == 0 || s.len() < pat.len() {
    } else {
        assert(!match_at(s, pat, 0));
        assert(s.subrange(0, pat.len() as int) != pat);
        assert forall|i: int| !match_at(s.skip(1), pat, i) by {
            if 0 <= i {
                lemma_match_at_skip(s, pat, 1, i);
            }
        }
        lemma_replace_all_absent(s.skip(1), pat, rep);
        assert(seq![s[0]] + s.skip(1) =~= s);
    }
}

/// A prefix of a substituted text that can never begin like the
/// replacement comes from the text itself.
pub proof fn lemma_prefix_transport(u: Seq<char>, pat: Seq<char>, rep: Seq<char>, a: Seq<char>)
    requires
        pat.len() > 0,
        forall|m: int| 0 <= m < a.len() ==> no_overlap(#[trigger] a.skip(m), rep),
    ensures
        is_prefix(a, replace_all(u, pat, rep)) ==> is_prefix(a, u),
    decreases u.len(),
{
    let w = replace_all(u, pat, rep);
    if a.len() == 0 {
        assert(a =~= u.subrange(0, 0));
    } else if u.len() < pat.len() {
    } else if u.subrange(0, pat.len() as int) == pat {
        if is_prefix(a, w) {
            assert(a.skip(0) == a);
            if a.len() <= rep.len() {
                assert(w.subrange(0, a.len() as int) =~= rep.subrange(0, a.len() as int));
                assert(is_prefix(a, rep));
            } else {
                assert(a.subrange(0, rep.len() as int) =~= w.subrange(0, rep.len() as int));
                assert(w.subrange(0, rep.len() as int) =~= rep);
                assert(is_prefix(rep, a));
            }
        }
    } else {
        assert forall|m: int| 0 <= m < a.skip(1).len() implies no_overlap(
            #[trigger] a.skip(1).skip(m),
            rep,
        ) by {
            assert(a.skip(1).skip(m) =~= a.skip(1 + m));
            assert(no_overlap(a.skip(1 + m), rep));
        }
        lemma_prefix_transport(u.skip(1), pat, rep, a.skip(1));
        if is_prefix(a, w) {
            let w1 = replace_all(u.skip(1), pat, rep);
            assert(w == seq![u[0]] + w1);
            assert(a[0] == w[0]);
            assert(a.skip(1).len() <= w1.len());
            assert(w1.subrange(0, a.skip(1).len() as int) =~= a.skip(1));
            assert(is_prefix(a.skip(1), w1));
            assert(is_prefix(a.skip(1), u.skip(1)));
            assert(a.len() <= u.len());
            assert forall|k: int| 0 <= k < a.len() implies u.subrange(0, a.len() as int)[k]
                == a[k] by {
                if k >= 1 {
                    assert(u.skip(1).subrange(0, a.skip(1).len() as int)[k - 1] == a.skip(1)[k
                        - 1]);
                }
            }
            assert(u.subrange(0, a.len() as int) =~= a);
        }
    }
}

/// After substitution, a pattern whose first character the replacement
/// never contains, and whose suffixes can never begin like the
/// replacement, is gone: every occurrence it had was consumed (when it is
/// the substituted pattern) or it never occurred at all.
pub proof fn lemma_replace_all_frees(u: Seq<char>, pat: Seq<char>, rep: Seq<char>, bad: Seq<char>)
    requires
        pat.len() > 0,
        bad.len() > 0,
        no_overlap(bad, rep),
        forall|k: int| 1 <= k < rep.len() ==> #[trigger] rep[k] != bad[0],
        forall|m: int| 1 <= m < bad.len() ==> no_overlap(#[trigger] bad.skip(m), rep),
        !occurs(u, bad) || bad == pat,
    ensures
        !occurs(replace_all(u, pat, rep), bad),
    decreases u.len(),
{
    let w = replace_all(u, pat, rep);
    if u.len() < pat.len() {
        assert forall|j: int| !match_at(w, bad, j) by {
            if match_at(w, bad, j) {
                if bad == pat {
                    assert(bad.len() > u.len());
                }
            }
        }
    } else if u.subrange(0, pat.len() as int) == pat {
        let u1 = u.skip(pat.len() as int);
        assert forall|i: int| !match_at(u1, bad, i) || bad == pat by {
            if 0 <= i && match_at(u1, bad, i) && bad != pat {
                lemma_match_at_skip(u, bad, pat.len() as int, i);
                assert(match_at(u, bad, pat.len() + i));
            }
        }
        lemma_replace_all_frees(u1, pat, rep, bad);
        let w1 = replace_all(u1, pat, rep);
        assert(w == rep + w1);
        assert forall|j: int| !match_at(w, bad, j) by {
            if match_at(w, bad, j) {
                if j == 0 {
                    // bad would have to begin like the replacement block
                    if bad.len() <= rep.len() {
                        assert(w.subrange(0, bad.len() as int) =~= rep.subrange(
                            0,
                            bad.len() as int,
                        ));
                        assert(is_prefix(bad, rep));
                    } else {
                        assert(bad.subrange(0, rep.len() as int) =~= w.subrange(
                            0,
                            rep.len() as int,
                        ));
                        assert(w.subrange(0, rep.len() as int) =~= rep);
                        assert(is_prefix(rep, bad));
                    }
                } else if j < rep.len() {
                    assert(w[j] == bad[0]);
                    assert(w[j] == rep[j]);
                } else {
                    assert(w.skip(rep.len() as int) =~= w1);
                    lemma_match_at_skip(w, bad, rep.len() as int, j - rep.len());
                    assert(match_at(w1, bad, j - rep.len()));
                }
            }
        }
    } else {
        let u1 = u.skip(1);
        assert forall|i: int| !match_at(u1, bad, i) || bad == pat by {
            if 0 <= i && match_at(u1, bad, i) && bad != pat {
                lemma_match_at_skip(u, bad, 1, i);
            }
        }
        lemma_replace_all_frees(u1, pat, rep, bad);
        let w1 = replace_all(u1, pat, rep);
        assert(w == seq![u[0]] + w1);
        assert forall|j: int| !match_at(w, bad, j) by {
            if match_at(w, bad, j) {
                if j >= 1 {
                    assert(w.skip(1) =~= w1);
                    lemma_match_at_skip(w, bad, 1, j - 1);
                } else {
                    // j == 0: the occurrence would have to start with u's
                    // first character and continue as a prefix of the
                    // substituted tail, so it already occurred in u.
                    assert(bad[0] == w[0]);
                    assert(w[0] == u[0]);
                    assert(w.subrange(0, bad.len() as int) == bad);
                    assert forall|m: int| 0 <= m < bad.skip(1).len() implies no_overlap(
                        #[trigger] bad.skip(1).skip(m),
                        rep,
                    ) by {
                        assert(bad.skip(1).skip(m) =~= bad.skip(1 + m));
                        assert(no_overlap(bad.skip(1 + m), rep));
                    }
                    assert(bad.skip(1).len() <= w1.len());
                    assert(w1.subrange(0, bad.skip(1).len() as int) =~= bad.skip(1));
                    assert(is_prefix(bad.skip(1), w1));
                    lemma_prefix_transport(u1, pat, rep, bad.skip(1));
                    assert(is_prefix(bad.skip(1), u1));
                    assert(bad.len() <= u.len());
                    assert forall|k: int| 0 <= k < bad.len() implies u.subrange(
                        0,
                        bad.len() as int,
                    )[k] == bad[k] by {
                        if k >= 1 {
                            assert(u1.subrange(0, bad.skip(1).len() as int)[k - 1] == bad.skip(
                                1,
                            )[k - 1]);
                        }
                    }
                    assert(u.subrange(0, bad.len() as int) =~= bad);
                    assert(match_at(u, bad, 0));
                    if bad == pat {
                        assert(u.subrange(0, pat.len() as int) == pat);
                    }
                }
            }
        }
    }
}

/// Substituting a pattern for a fresh one and substituting back restores
/// the text, provided the intermediate pattern was fresh (it did not occur
/// before) and cannot begin anywhere inside itself.
pub proof fn lemma_replace_all_round_trip(u: Seq<char>, a: Seq<char>, b: Seq<char>)
    requires
        a.len() > 0,
        b.len() > 0,
        !occurs(u, b),
        forall|m: int| 1 <= m < b.len() ==> no_overlap(#[trigger] b.skip(m), b),
    ensures
        replace_all(replace_all(u, a, b), b, a) == u,
    decreases u.len(),
{
    let w = replace_all(u, a, b);
    if u.len() < a.len() {
        assert(w == u);
        lemma_replace_all_absent(u, b, a);
    } else if u.subrange(0, a.len() as int) == a {
        let u1 = u.skip(a.len() as int);
        assert forall|i: int| !match_at(u1, b, i) by {
            if 0 <= i && match_at(u1, b, i) {
                lemma_match_at_skip(u, b, a.len() as int, i);
            }
        }
        lemma_replace_all_round_trip(u1, a, b);
        let w1 = replace_all(u1, a, b);
        assert(w == b + w1);
        assert(w.subrange(0, b.len() as int) =~= b);
        assert(w.skip(b.len() as int) =~= w1);
        assert(replace_all(w, b, a) == a + replace_all(w1, b, a));
        assert(a + u1 =~= u);
    } else {
        let u1 = u.skip(1);
        assert forall|i: int| !match_at(u1, b, i) by {
            if 0 <= i && match_at(u1, b, i) {
                lemma_match_at_skip(u, b, 1, i);
            }
        }
        lemma_replace_all_round_trip(u1, a, b);
        let w1 = replace_all(u1, a, b);
        assert(w == seq![u[0]] + w1);
        if w.len() >= b.len() && w.subrange(0, b.len() as int) == b {
            // then b would already have occurred at the head of u
            assert(b[0] == w[0]);
            assert forall|m: int| 0 <= m < b.skip(1).len() implies no_overlap(
                #[trigger] b.skip(1).skip(m),
                b,
            ) by {
                assert(b.skip(1).skip(m) =~= b.skip(1 + m));
                assert(no_overlap(b.skip(1 + m), b));
            }
            assert(b.skip(1).len() <= w1.len());
            assert(w1.subrange(0, b.skip(1).len() as int) =~= b.skip(1));
            assert(is_prefix(b.skip(1), w1));
            lemma_prefix_transport(u1, a, b, b.skip(1));
            assert(is_prefix(b.skip(1), u1));
            assert(b.len() <= u.len());
            assert forall|k: int| 0 <= k < b.len() implies u.subrange(0, b.len() as int)[k]
                == b[k] by {
                if k >= 1 {
                    assert(u1.subrange(0, b.skip(1).len() as int)[k - 1] == b.skip(1)[k - 1]);
                }
            }
            assert(u.subrange(0, b.len() as int) =~= b);
            assert(match_at(u, b, 0));
        }
        if w.len() < b.len() {
            assert forall|i: int| !match_at(w1, b, i) by {
                if 0 <= i && match_at(w1, b, i) {
                }
            }
            lemma_replace_all_absent(w1, b, a);
            assert(replace_all(w, b, a) == w);
            assert(w1 == replace_all(w1, b, a));
            assert(seq![u[0]] + u1 =~= u);
        } else {
            assert(w.subrange(0, b.len() as int) != b);
            assert(replace_all(w, b, a) == seq![w[0]] + replace_all(w.skip(1), b, a));
            assert(w.skip(1) =~= w1);
            assert(seq![u[0]] + u1 =~= u);
        }
    }
}

/// Character facts about a field identifier pattern and a field marker:
/// the pattern opens with a bracket that appears nowhere else in it and
/// nowhere in the marker, and no suffix of the pattern can begin like the
/// marker.
pub proof fn lemma_field_codec_chars(id: i32, nm: Seq<char>)
    requires
        id >= 0,
        identifier_text(nm),
    ensures
        snap_pattern(id, false).len() > 0,
        snap_pattern(id, false)[0] == '[',
        forall|m: int|
            1 <= m < snap_pattern(id, false).len() ==> #[trigger] snap_pattern(id, false)[m]
                != '[',
        snap_replacement(nm, false).len() > 0,
        forall|k: int|
            0 <= k < snap_replacement(nm, false).len() ==> #[trigger] snap_replacement(
                nm,
                false,
            )[k] != '[',
        forall|m: int|
            1 <= m < snap_pattern(id, false).len() ==> no_overlap(
                #[trigger] snap_pattern(id, false).skip(m),
                snap_replacement(nm, false),
            ),
{
    reveal_strlit("[\"field-id\",");
    reveal_strlit("]");
    reveal_strlit("\"snapshot:field:");
    reveal_strlit("\"");
    lemma_dec_digits(id as int);
    let pre = field_id_pre();
    let ds = dec_digits(id as int);
    let post = field_id_post();
    let bad = snap_pattern(id, false);
    let mpre = field_marker_pre();
    let rep = snap_replacement(nm, false);
    assert(pre.len() == 12);
    assert(post.len() == 1);
    assert(mpre.len() == 16);
    assert(bad.len() == 13 + ds.len());
    assert(rep.len() == 17 + nm.len());

    assert forall|m: int| 0 <= m < bad.len() implies #[trigger] bad[m] == if m < 12 {
        pre[m]
    } else if m < 12 + ds.len() {
        ds[m - 12]
    } else {
        ']'
    } by {}

    assert(bad[0] == '[');
    assert forall|m: int| 1 <= m < bad.len() implies #[trigger] bad[m] != '[' by {
        if m < 12 {
        } else if m < 12 + ds.len() {
            assert(is_digit(ds[m - 12]));
        }
    }

    assert forall|k: int| 0 <= k < rep.len() implies #[trigger] rep[k] != '[' by {
        if k < 16 {
            assert(rep[k] == mpre[k]);
        } else if k < 16 + nm.len() {
            assert(rep[k] == nm[k - 16]);
            assert(is_name_char(nm[k - 16]));
        } else {
            assert(rep[k] == '"');
        }
    }

    assert(rep[0] == '"');
    assert(rep[1] == 's');
    assert forall|m: int| 1 <= m < bad.len() implies no_overlap(
        #[trigger] bad.skip(m),
        rep,
    ) by {
        let x = bad.skip(m);
        assert(x.len() == bad.len() - m);
        assert(x[0] == bad[m]);
        if m == 1 || m == 10 {
            assert(x[1] == bad[m + 1]);
            assert(x[1] != 's');
            assert(x.len() >= 2);
            if is_prefix(x, rep) {
                assert(rep.subrange(0, x.len() as int)[1] == x[1]);
                assert(rep[1] == x[1]);
            }
            if is_prefix(rep, x) {
                assert(x.subrange(0, rep.len() as int)[1] == rep[1]);
                assert(x[1] == rep[1]);
            }
        } else {
            assert(x[0] != '"') by {
                if m < 12 {
                } else if m < 12 + ds.len() {
                    assert(is_digit(ds[m - 12]));
                }
            }
            if is_prefix(x, rep) {
                assert(rep.subrange(0, x.len() as int)[0] == x[0]);
            }
            if is_prefix(rep, x) {
                assert(x.subrange(0, rep.len() as int)[0] == rep[0]);
            }
        }
    }
}

/// Every field name a successful forward fold resolved is an identifier.
pub open spec fn field_names_wf(fields: Seq<DbFieldView>) -> bool {
    forall|k: int| 0 <= k < fields.len() ==> identifier_text(#[trigger] fields[k].name)
}

/// A pattern still absent after a whole forward fold.
proof fn lemma_snapshot_fold_preserves(
    fields: Seq<DbFieldView>,
    u: Seq<char>,
    ids: Seq<i32>,
    bad_id: i32,
    t: Seq<char>,
)
    requires
        spec_snapshot_fields(fields, u, ids, false) == CodecOutcome::Done(t),
        !occurs(u, snap_pattern(bad_id, false)),
        bad_id >= 0,
        field_names_wf(fields),
        forall|k: int| 0 <= k < ids.len() ==> #[trigger] ids[k] >= 0,
    ensures
        !occurs(t, snap_pattern(bad_id, false)),
    decreases ids.len(),
{
    if ids.len() == 0 {
    } else {
        let id = ids[0];
        let i = first_where(fields, field_with_id(id));
        lemma_first_where(fields, field_with_id(id));
        let nm = fields[i].name;
        lemma_field_codec_chars(bad_id, nm);
        lemma_field_codec_chars(id, nm);
        lemma_no_overlap_first_char(snap_pattern(bad_id, false), snap_replacement(nm, false));
        let u1 = replace_all(u, snap_pattern(id, false), snap_replacement(nm, false));
        lemma_replace_all_frees(
            u,
            snap_pattern(id, false),
            snap_replacement(nm, false),
            snap_pattern(bad_id, false),
        );
        lemma_snapshot_fold_preserves(fields, u1, ids.skip(1), bad_id, t);
    }
}

/// Idempotence of the forward rewriting: a successful forward fold leaves
/// no occurrence of any identifier pattern it rewrote, so folding the same
/// identifiers over its output changes nothing.
pub proof fn law_snapshot_fields_idempotent(
    fields: Seq<DbFieldView>,
    s: Seq<char>,
    ids: Seq<i32>,
    t: Seq<char>,
)
    requires
        spec_snapshot_fields(fields, s, ids, false) == CodecOutcome::Done(t),
        field_names_wf(fields),
        forall|k: int| 0 <= k < ids.len() ==> #[trigger] ids[k] >= 0,
    ensures
        forall|k: int|
            0 <= k < ids.len() ==> !occurs(t, snap_pattern(#[trigger] ids[k], false)),
        spec_snapshot_fields(fields, t, ids, false) == CodecOutcome::Done(t),
    decreases ids.len(),
{
    if ids.len() == 0 {
    } else {
        let id = ids[0];
        let i = first_where(fields, field_with_id(id));
        lemma_first_where(fields, field_with_id(id));
        let nm = fields[i].name;
        lemma_field_codec_chars(id, nm);
        lemma_no_overlap_first_char(snap_pattern(id, false), snap_replacement(nm, false));
        let u1 = replace_all(s, snap_pattern(id, false), snap_replacement(nm, false));
        // the rewritten pattern is gone, and stays gone through the rest
        lemma_replace_all_frees(
            s,
            snap_pattern(id, false),
            snap_replacement(nm, false),
            snap_pattern(id, false),
        );
        assert forall|k: int| 0 <= k < ids.skip(1).len() implies #[trigger] ids.skip(1)[k]
            >= 0 by {
            assert(ids.skip(1)[k] == ids[k + 1]);
        }
        lemma_snapshot_fold_preserves(fields, u1, ids.skip(1), id, t);
        law_snapshot_fields_idempotent(fields, u1, ids.skip(1), t);
        assert forall|k: int| 0 <= k < ids.len() implies !occurs(
            t,
            snap_pattern(#[trigger] ids[k], false),
        ) by {
            if k >= 1 {
                assert(ids.skip(1)[k - 1] == ids[k]);
            }
        }
        // folding again: each replacement now falls on an absent pattern
        lemma_replace_all_absent(t, snap_pattern(id, false), snap_replacement(nm, false));
        assert(spec_snapshot_fields(fields, t, ids, false) == spec_snapshot_fields(
            fields,
            t,
            ids.skip(1),
            false,
        ));
    }
}

/// Idempotence of a whole forward field pass: once a pass over a payload
/// succeeded, every identifier reference it scanned has been rewritten
/// away, and running the same pass — the same scan — over the rewritten
/// payload changes nothing.
pub proof fn law_snapshot_pass_idempotent(
    fields: Seq<DbFieldView>,
    scan: Seq<char>,
    subject: Seq<char>,
    t: Seq<char>,
)
    requires
        crate::codec::spec_snapshot_field_pass(fields, scan, subject, false)
            == CodecOutcome::Done(t),
        field_names_wf(fields),
    ensures
        crate::codec::spec_snapshot_field_pass(fields, scan, t, false) == CodecOutcome::Done(t),
{
    let runs = crate::codec::scanned_runs(scan, false);
    let vals = crate::codec::runs_ids(runs);
    let ids = crate::text::dedup(vals);
    assert(crate::codec::runs_fit(runs));
    crate::text::lemma_find_marked_class(scan, field_id_pre(), field_id_post(), CharClass::Digits);
    crate::text::lemma_dedup(vals);
    assert forall|k: int| 0 <= k < ids.len() implies #[trigger] ids[k] >= 0 by {
        assert(ids.contains(ids[k]));
        assert(vals.contains(ids[k]));
        let w = choose|w: int| 0 <= w < vals.len() && vals[w] == ids[k];
        assert(vals[w] == dec_val(runs[w]) as i32);
        crate::num::lemma_dec_val_nonneg(runs[w]);
        assert(dec_val(runs[w]) <= i32::MAX);
    }
    law_snapshot_fields_idempotent(fields, subject, ids, t);
}

/// A field identifier pattern is never an initial segment of the pattern
/// of a different identifier: the closing bracket meets a digit, or the
/// digit strings read back to different values.
proof fn lemma_field_pattern_not_prefix(ida: i32, idb: i32)
    requires
        0 <= ida,
        0 <= idb,
        ida != idb,
    ensures
        !is_prefix(snap_pattern(ida, false), snap_pattern(idb, false)),
{
    reveal_strlit("[\"field-id\",");
    reveal_strlit("]");
    lemma_dec_digits(ida as int);
    lemma_dec_digits(idb as int);
    let pre = field_id_pre();
    let da = dec_digits(ida as int);
    let db = dec_digits(idb as int);
    let ba = snap_pattern(ida, false);
    let bb = snap_pattern(idb, false);
    assert(pre.len() == 12);
    assert(ba.len() == 13 + da.len());
    assert(bb.len() == 13 + db.len());
    assert forall|m: int| 0 <= m < ba.len() implies #[trigger] ba[m] == if m < 12 {
        pre[m]
    } else if m < 12 + da.len() {
        da[m - 12]
    } else {
        ']'
    } by {}
    assert forall|m: int| 0 <= m < bb.len() implies #[trigger] bb[m] == if m < 12 {
        pre[m]
    } else if m < 12 + db.len() {
        db[m - 12]
    } else {
        ']'
    } by {}
    if is_prefix(ba, bb) {
        assert(da.len() <= db.len());
        if da.len() == db.len() {
            assert forall|k: int| 0 <= k < da.len() implies #[trigger] da[k] == db[k] by {
                assert(bb.subrange(0, ba.len() as int)[12 + k] == ba[12 + k]);
            }
            assert(da =~= db);
            assert(dec_val(da) == dec_val(db));
        } else {
            let p: int = 12 + da.len() as int;
            assert(bb.subrange(0, ba.len() as int)[p] == ba[p]);
            assert(ba[p] == ']');
            assert(bb[p] == db[p - 12]);
            assert(is_digit(db[p - 12]));
        }
    }
}

/// Patterns of two different identifiers can never begin one another.
pub proof fn lemma_field_patterns_distinct(id1: i32, id2: i32)
    requires
        0 <= id1,
        0 <= id2,
        id1 != id2,
    ensures
        no_overlap(snap_pattern(id1, false), snap_pattern(id2, false)),
{
    lemma_field_pattern_not_prefix(id1, id2);
    lemma_field_pattern_not_prefix(id2, id1);
}

/// A forward fold over a concatenated identifier list is the fold over
/// the first part, then the fold over the second.
proof fn lemma_snapshot_fold_concat(
    fields: Seq<DbFieldView>,
    u: Seq<char>,
    l1: Seq<i32>,
    l2: Seq<i32>,
)
    ensures
        spec_snapshot_fields(fields, u, l1 + l2, false) == match spec_snapshot_fields(
            fields,
            u,
            l1,
            false,
        ) {
            CodecOutcome::Done(v) => spec_snapshot_fields(fields, v, l2, false),
            o => o,
        },
    decreases l1.len(),
{
    if l1.len() == 0 {
        assert(l1 + l2 =~= l2);
    } else {
        assert((l1 + l2)[0] == l1[0]);
        assert((l1 + l2).len() > 0);
        let id = l1[0];
        let i = first_where(fields, field_with_id(id));
        if i >= 0 {
            let v = replace_all(
                u,
                snap_pattern(id, false),
                snap_replacement(fields[i].name, false),
            );
            lemma_snapshot_fold_concat(fields, v, l1.skip(1), l2);
            assert((l1 + l2).skip(1) =~= l1.skip(1) + l2);
        }
    }
}

/// The identifier the context table resolves a field name to.
pub open spec fn resolved_id(fields: Seq<DbFieldView>, table_id: i32, nm: Seq<char>) -> i32 {
    fields[first_where(fields, field_on_table(table_id, nm))].id
}

/// The identifiers a restore pass resolved, in reverse order.
pub open spec fn reversed_resolved_ids(
    fields: Seq<DbFieldView>,
    table_id: i32,
    names: Seq<Seq<char>>,
) -> Seq<i32>
    decreases names.len(),
{
    if names.len() == 0 {
        Seq::empty()
    } else {
        reversed_resolved_ids(fields, table_id, names.skip(1)) + seq![
            resolved_id(fields, table_id, names[0]),
        ]
    }
}

/// Round trip of a whole restore pass: restoring a list of distinct field
/// markers writes their fields' identifier patterns, and snapshotting
/// those identifiers in reverse order writes the markers back, exactly
/// reproducing the original payload.  The payload must not already hold
/// any of the identifier patterns, and each identifier must resolve back
/// to the field its name resolved to.
pub proof fn law_restore_fields_round_trip(
    fields: Seq<DbFieldView>,
    table_id: i32,
    s: Seq<char>,
    names: Seq<Seq<char>>,
    t: Seq<char>,
)
    requires
        spec_restore_fields(fields, table_id, s, names, false) == CodecOutcome::Done(t),
        forall|i: int| 0 <= i < names.len() ==> identifier_text(#[trigger] names[i]),
        forall|i: int, j: int| 0 <= i < j < names.len() ==> names[i] != names[j],
        forall|i: int|
            0 <= i < names.len() ==> ({
                let f = first_where(fields, field_on_table(table_id, #[trigger] names[i]));
                &&& f >= 0
                &&& fields[f].id >= 0
                &&& first_where(fields, field_with_id(fields[f].id)) == f
            }),
        forall|i: int|
            0 <= i < names.len() ==> !occurs(
                s,
                snap_pattern(resolved_id(fields, table_id, #[trigger] names[i]), false),
            ),
    ensures
        spec_snapshot_fields(fields, t, reversed_resolved_ids(fields, table_id, names), false)
            == CodecOutcome::Done(s),
    decreases names.len(),
{
    if names.len() == 0 {
    } else {
        let n0 = names[0];
        let f0 = first_where(fields, field_on_table(table_id, n0));
        lemma_first_where(fields, field_on_table(table_id, n0));
        assert(field_on_table(table_id, n0)(fields[f0]));
        assert(fields[f0].name == n0);
        let id0 = fields[f0].id;
        lemma_field_codec_chars(id0, n0);
        reveal_strlit("\"snapshot:field:");
        reveal_strlit("\"");
        let a0 = restore_pattern(n0, false);
        let b0 = restore_replacement(id0, false);
        assert(dec_int(id0 as int) == dec_digits(id0 as int));
        assert(b0 == snap_pattern(id0, false));
        assert(snap_replacement(n0, false) == a0);
        assert(a0.len() > 0);
        assert(b0.len() > 0);
        let u1 = replace_all(s, a0, b0);
        assert(spec_restore_fields(fields, table_id, u1, names.skip(1), false)
            == CodecOutcome::Done(t));

        // premises carry to the rest of the names over the rewritten text
        assert forall|i: int| 0 <= i < names.skip(1).len() implies identifier_text(
            #[trigger] names.skip(1)[i],
        ) by {
            assert(names.skip(1)[i] == names[i + 1]);
        }
        assert forall|i: int, j: int| 0 <= i < j < names.skip(1).len() implies names.skip(1)[i]
            != names.skip(1)[j] by {
            assert(names.skip(1)[i] == names[i + 1]);
            assert(names.skip(1)[j] == names[j + 1]);
        }
        assert forall|i: int| 0 <= i < names.skip(1).len() implies ({
            let f = first_where(fields, field_on_table(table_id, #[trigger] names.skip(1)[i]));
            &&& f >= 0
            &&& fields[f].id >= 0
            &&& first_where(fields, field_with_id(fields[f].id)) == f
        }) by {
            assert(names.skip(1)[i] == names[i + 1]);
        }
        assert forall|i: int| 0 <= i < names.skip(1).len() implies !occurs(
            u1,
            snap_pattern(resolved_id(fields, table_id, #[trigger] names.skip(1)[i]), false),
        ) by {
            assert(names.skip(1)[i] == names[i + 1]);
            let ni = names[i + 1];
            let fi = first_where(fields, field_on_table(table_id, ni));
            lemma_first_where(fields, field_on_table(table_id, ni));
            assert(field_on_table(table_id, ni)(fields[fi]));
            let idi = fields[fi].id;
            // a different name resolves to a different identifier
            assert(idi != id0) by {
                if idi == id0 {
                    assert(first_where(fields, field_with_id(idi)) == fi);
                    assert(first_where(fields, field_with_id(id0)) == f0);
                    assert(fields[fi].name == ni);
                }
            }
            lemma_field_codec_chars(idi, n0);
            lemma_field_patterns_distinct(idi, id0);
            assert forall|m: int| 1 <= m < snap_pattern(idi, false).len() implies no_overlap(
                #[trigger] snap_pattern(idi, false).skip(m),
                b0,
            ) by {
                assert(snap_pattern(idi, false).skip(m)[0] == snap_pattern(idi, false)[m]);
                assert(snap_pattern(idi, false)[m] != '[');
                assert(b0[0] == '[') by {
                    assert(snap_pattern(id0, false)[0] == '[');
                }
                lemma_no_overlap_first_char(snap_pattern(idi, false).skip(m), b0);
            }
            assert forall|k: int| 1 <= k < b0.len() implies #[trigger] b0[k] != snap_pattern(
                idi,
                false,
            )[0] by {
                assert(snap_pattern(id0, false)[k] != '[');
                assert(snap_pattern(idi, false)[0] == '[');
            }
            lemma_replace_all_frees(s, a0, b0, snap_pattern(idi, false));
        }

        law_restore_fields_round_trip(fields, table_id, u1, names.skip(1), t);

        // fold the reversed identifiers: first undo the rest, then undo
        // this name's replacement
        let back_rest = reversed_resolved_ids(fields, table_id, names.skip(1));
        lemma_snapshot_fold_concat(fields, t, back_rest, seq![id0]);
        assert(reversed_resolved_ids(fields, table_id, names) == back_rest + seq![id0]);
        assert(spec_snapshot_fields(fields, t, back_rest, false) == CodecOutcome::Done(u1));

        // the singleton step is the pair round trip
        assert forall|m: int| 1 <= m < b0.len() implies no_overlap(#[trigger] b0.skip(m), b0) by {
            assert(b0.skip(m)[0] == b0[m]);
            assert(snap_pattern(id0, false)[m] != '[');
            assert(b0[0] == '[') by {
                assert(snap_pattern(id0, false)[0] == '[');
            }
            lemma_no_overlap_first_char(b0.skip(m), b0);
        }
        assert(!occurs(s, b0));
        lemma_replace_all_round_trip(s, a0, b0);
        assert(seq![id0][0] == id0);
        assert(seq![id0].skip(1) =~= Seq::<i32>::empty());
        assert(first_where(fields, field_with_id(id0)) == f0);
        let back = replace_all(u1, snap_pattern(id0, false), snap_replacement(n0, false));
        assert(back == s);
        assert(spec_snapshot_fields(fields, s, Seq::<i32>::empty(), false) == CodecOutcome::Done(
            s,
        ));
        assert(spec_snapshot_fields(fields, u1, seq![id0], false) == CodecOutcome::Done(s));
    }
}

/// Round trip of a whole restore pass as the codec runs it: the scanned,
/// deduplicated field markers of the payload are restored, and
/// snapshotting the resolved identifiers in reverse order reproduces the
/// payload.  Distinctness and the identifier shape of the names come from
/// the scan itself; the payload must not already hold any resolved
/// identifier pattern, and each identifier must resolve back to the field
/// its name resolved to.
pub proof fn law_restore_pass_round_trip(
    fields: Seq<DbFieldView>,
    table_id: i32,
    s: Seq<char>,
    t: Seq<char>,
)
    requires
        crate::codec::spec_restore_field_pass(fields, table_id, s, false) == CodecOutcome::Done(
            t,
        ),
        ({
            let names = crate::text::dedup(
                crate::text::find_marked(s, field_marker_pre(), crate::codec::quote(), CharClass::NameChars),
            );
            &&& forall|i: int|
                0 <= i < names.len() ==> ({
                    let f = first_where(fields, field_on_table(table_id, #[trigger] names[i]));
                    &&& f >= 0
                    &&& fields[f].id >= 0
                    &&& first_where(fields, field_with_id(fields[f].id)) == f
                })
            &&& forall|i: int|
                0 <= i < names.len() ==> !occurs(
                    s,
                    snap_pattern(resolved_id(fields, table_id, #[trigger] names[i]), false),
                )
        }),
    ensures
        ({
            let names = crate::text::dedup(
                crate::text::find_marked(s, field_marker_pre(), crate::codec::quote(), CharClass::NameChars),
            );
            spec_snapshot_fields(fields, t, reversed_resolved_ids(fields, table_id, names), false)
                == CodecOutcome::Done(s)
        }),
{
    let scanned = crate::text::find_marked(
        s,
        field_marker_pre(),
        crate::codec::quote(),
        CharClass::NameChars,
    );
    let names = crate::text::dedup(scanned);
    crate::text::lemma_find_marked_class(
        s,
        field_marker_pre(),
        crate::codec::quote(),
        CharClass::NameChars,
    );
    crate::text::lemma_dedup(scanned);
    assert forall|i: int| 0 <= i < names.len() implies identifier_text(#[trigger] names[i]) by {
        assert(names.contains(names[i]));
        assert(scanned.contains(names[i]));
        let w = choose|w: int| 0 <= w < scanned.len() && scanned[w] == names[i];
        assert forall|k: int| 0 <= k < names[i].len() implies is_name_char(
            #[trigger] names[i][k],
        ) by {
            assert(crate::text::in_class(CharClass::NameChars, scanned[w][k]));
        }
    }
    law_restore_fields_round_trip(fields, table_id, s, names, t);
}

/// Round trip of one field reference: restoring a field marker writes the
/// field's identifier pattern, and snapshotting that identifier writes the
/// marker back, reproducing the original payload.  The payload must not
/// already hold the identifier pattern, and the identifier must resolve
/// back to the field the name resolved to.
pub proof fn law_field_marker_round_trip(
    fields: Seq<DbFieldView>,
    table_id: i32,
    s: Seq<char>,
    nm: Seq<char>,
)
    requires
        identifier_text(nm),
        first_where(fields, field_on_table(table_id, nm)) >= 0,
        ({
            let i = first_where(fields, field_on_table(table_id, nm));
            &&& fields[i].id >= 0
            &&& first_where(fields, field_with_id(fields[i].id)) == i
            &&& !occurs(s, snap_pattern(fields[i].id, false))
        }),
    ensures
        ({
            let i = first_where(fields, field_on_table(table_id, nm));
            let restored = replace_all(
                s,
                restore_pattern(nm, false),
                restore_replacement(fields[i].id, false),
            );
            &&& spec_restore_fields(fields, table_id, s, seq![nm], false) == CodecOutcome::Done(
                restored,
            )
            &&& spec_snapshot_fields(fields, restored, seq![fields[i].id], false)
                == CodecOutcome::Done(s)
        }),
{
    let i = first_where(fields, field_on_table(table_id, nm));
    lemma_first_where(fields, field_on_table(table_id, nm));
    assert(field_on_table(table_id, nm)(fields[i]));
    let id = fields[i].id;
    assert(fields[i].name == nm);
    lemma_field_codec_chars(id, nm);
    reveal_strlit("\"snapshot:field:");
    reveal_strlit("\"");

    let a = restore_pattern(nm, false);
    let b = restore_replacement(id, false);
    assert(dec_int(id as int) == dec_digits(id as int));
    assert(b == snap_pattern(id, false));
    assert(snap_replacement(nm, false) == a);
    assert(a.len() > 0);
    assert(b.len() > 0);

    // the restore fold over the one name
    assert(seq![nm].skip(1) =~= Seq::<Seq<char>>::empty());
    let restored = replace_all(s, a, b);
    assert(spec_restore_fields(
        fields,
        table_id,
        restored,
        Seq::<Seq<char>>::empty(),
        false,
    ) == CodecOutcome::Done(restored));
    assert(seq![nm][0] == nm);
    assert(restore_replacement(fields[i].id, false) == b);
    assert(spec_restore_fields(fields, table_id, s, seq![nm], false) == spec_restore_fields(
        fields,
        table_id,
        restored,
        seq![nm].skip(1),
        false,
    ));

    // the identifier pattern cannot begin inside itself
    assert forall|m: int| 1 <= m < b.len() implies no_overlap(#[trigger] b.skip(m), b) by {
        let x = b.skip(m);
        assert(x[0] == b[m]);
        assert(b[m] != '[') by {
            assert(snap_pattern(id, false)[m] != '[');
        }
        if is_prefix(x, b) {
            assert(b.subrange(0, x.len() as int)[0] == x[0]);
        }
        if is_prefix(b, x) {
            assert(x.subrange(0, b.len() as int)[0] == b[0]);
        }
    }

    lemma_replace_all_round_trip(s, a, b);

    // the snapshot fold over the one identifier
    assert(seq![id].skip(1) =~= Seq::<i32>::empty());
    assert(first_where(fields, field_with_id(id)) == i);
    assert(seq![id][0] == id);
    let back = replace_all(restored, snap_pattern(id, false), snap_replacement(nm, false));
    assert(spec_snapshot_fields(fields, back, Seq::<i32>::empty(), false) == CodecOutcome::Done(
        back,
    ));
    assert(spec_snapshot_fields(fields, restored, seq![id], false) == spec_snapshot_fields(
        fields,
        back,
        seq![id].skip(1),
        false,
    ));
    assert(replace_all(restored, b, a) == s);
    assert(back == s);
}

} // verus!
