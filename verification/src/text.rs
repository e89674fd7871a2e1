//! Character-level scanning and substitution.
//!
//! Payloads are opaque JSON text carried as character vectors.  The codec
//! rewrites them purely textually: it looks for literal marker patterns and
//! for patterns built from a literal prefix, a run of characters of a fixed
//! class, and a literal suffix, and replaces each match.  Everything here is
//! defined against recursive specification functions over `Seq<char>`.

use vstd::prelude::*;

verus! {

/// An ASCII decimal digit.
pub open spec fn is_digit(c: char) -> bool {
    '0' <= c <= '9'
}

/// A character allowed in a field name marker: ASCII letters and underscore.
pub open spec fn is_name_char(c: char) -> bool {
    ('A' <= c <= 'Z') || ('a' <= c <= 'z') || c == '_'
}

/// The two character classes that can fill the variable part of a marker.
#[derive(Clone, Copy)]
pub enum CharClass {
    Digits,
    NameChars,
}

/// Membership in a character class.
pub open spec fn in_class(cls: CharClass, c: char) -> bool {
    match cls {
        CharClass::Digits => is_digit(c),
        CharClass::NameChars => is_name_char(c),
    }
}

/// Membership test, executable.
pub fn class_matches(cls: CharClass, c: char) -> (r: bool)
    ensures
        r == in_class(cls, c),
{
    match cls {
        CharClass::Digits => '0' <= c && c <= '9',
        CharClass::NameChars => ('A' <= c && c <= 'Z') || ('a' <= c && c <= 'z') || c == '_',
    }
}

/// `pat` occurs in `s` starting at position `i`.
pub open spec fn match_at(s: Seq<char>, pat: Seq<char>, i: int) -> bool {
    0 <= i && i + pat.len() <= s.len() && s.subrange(i, i + pat.len() as int) == pat
}

/// `pat` occurs somewhere in `s`.
pub open spec fn occurs(s: Seq<char>, pat: Seq<char>) -> bool {
    exists|i: int| match_at(s, pat, i)
}

/// The text with every non-overlapping occurrence of `pat`, scanning from the
/// left, replaced by `rep`.  An empty pattern matches nothing.
pub open spec fn replace_all(s: Seq<char>, pat: Seq<char>, rep: Seq<char>) -> Seq<char>
    decreases s.len(),
{
    if pat.len() == 0 || s.len() < pat.len() {
        s
    } else if s.subrange(0, pat.len() as int) == pat {
        rep + replace_all(s.skip(pat.len() as int), pat, rep)
    } else {
        seq![s[0]] + replace_all(s.skip(1), pat, rep)
    }
}

/// Turns a string slice into the character vector the scanners work on.
pub fn str_to_chars(s: &str) -> (v: Vec<char>)
    ensures
        v@ == s@,
{
    let n: usize = s.unicode_len();
    let mut v: Vec<char> = Vec::new();
    let mut i: usize = 0;
    while i < n
        invariant
            i <= n,
            n == s@.len(),
            v@ == s@.take(i as int),
        decreases n - i,
    {
        v.push(s.get_char(i));
        proof {
            assert(v@ =~= s@.take(i + 1));
        }
        i = i + 1;
    }
    proof {
        assert(s@.take(n as int) =~= s@);
    }
    v
}

/// Appends all characters of `src` to `out`.
pub fn extend_chars(out: &mut Vec<char>, src: &Vec<char>)
    ensures
        final(out)@ == old(out)@ + src@,
{
    let mut i: usize = 0;
    while i < src.len()
        invariant
            i <= src@.len(),
            out@ == old(out)@ + src@.take(i as int),
        decreases src@.len() - i,
    {
        out.push(src[i]);
        proof {
            assert(old(out)@ + src@.take(i + 1) =~= (old(out)@ + src@.take(i as int)).push(
                src@[i as int],
            ));
        }
        i = i + 1;
    }
    proof {
        assert(src@.take(src@.len() as int) =~= src@);
    }
}

/// Whether `pat` occurs in `s` at position `i`, executable.
pub fn matches_at(s: &Vec<char>, pat: &Vec<char>, i: usize) -> (r: bool)
    requires
        i <= s@.len(),
    ensures
        r == match_at(s@, pat@, i as int),
{
    if pat.len() > s.len() - i {
        proof {
            assert(!match_at(s@, pat@, i as int));
        }
        return false;
    }
    let mut j: usize = 0;
    while j < pat.len()
        invariant
            j <= pat@.len(),
            i + pat@.len() <= s@.len(),
            forall|k: int| 0 <= k < j ==> s@[i + k] == pat@[k],
        decreases pat@.len() - j,
    {
        let slen: usize = s.len();
        proof {
            assert(i + j < slen);
        }
        if s[i + j] != pat[j] {
            proof {
                assert(s@.subrange(i as int, i + pat@.len() as int)[j as int] != pat@[j as int]);
            }
            return false;
        }
        j = j + 1;
    }
    proof {
        assert(s@.subrange(i as int, i + pat@.len() as int) =~= pat@);
    }
    true
}

/// Replaces every non-overlapping occurrence of `pat` in `s` by `rep`,
/// scanning from the left.
pub fn replace_all_chars(s: &Vec<char>, pat: &Vec<char>, rep: &Vec<char>) -> (out: Vec<char>)
    requires
        pat@.len() > 0,
    ensures
        out@ == replace_all(s@, pat@, rep@),
{
    let mut out: Vec<char> = Vec::new();
    let mut i: usize = 0;
    proof {
        assert(s@.skip(0) =~= s@);
        assert(out@ + replace_all(s@, pat@, rep@) =~= replace_all(s@, pat@, rep@));
    }
    while i < s.len()
        invariant
            i <= s@.len(),
            pat@.len() > 0,
            out@ + replace_all(s@.skip(i as int), pat@, rep@) == replace_all(s@, pat@, rep@),
        decreases s@.len() - i,
    {
        let ghost pre_out = out@;
        let ghost tail = s@.skip(i as int);
        if matches_at(s, pat, i) {
            extend_chars(&mut out, rep);
            proof {
                assert(tail.subrange(0, pat@.len() as int) =~= s@.subrange(
                    i as int,
                    i + pat@.len() as int,
                ));
                assert(tail.skip(pat@.len() as int) =~= s@.skip(i + pat@.len()));
                assert(replace_all(tail, pat@, rep@) == rep@ + replace_all(
                    s@.skip(i + pat@.len()),
                    pat@,
                    rep@,
                ));
                assert(out@ + replace_all(s@.skip(i + pat@.len()), pat@, rep@) =~= pre_out + (rep@
                    + replace_all(s@.skip(i + pat@.len()), pat@, rep@)));
            }
            i = i + pat.len();
        } else {
            out.push(s[i]);
            proof {
                if tail.len() >= pat@.len() {
                    assert(tail.subrange(0, pat@.len() as int) =~= s@.subrange(
                        i as int,
                        i + pat@.len() as int,
                    ));
                    assert(tail.subrange(0, pat@.len() as int) != pat@);
                    assert(replace_all(tail, pat@, rep@) == seq![tail[0]] + replace_all(
                        tail.skip(1),
                        pat@,
                        rep@,
                    ));
                } else {
                    assert(replace_all(tail, pat@, rep@) == tail);
                    assert(tail.skip(1) =~= s@.skip(i + 1));
                    assert(replace_all(tail.skip(1), pat@, rep@) == tail.skip(1));
                    assert(replace_all(tail, pat@, rep@) =~= seq![tail[0]] + replace_all(
                        tail.skip(1),
                        pat@,
                        rep@,
                    ));
                }
                assert(tail.skip(1) =~= s@.skip(i + 1));
                assert(out@ + replace_all(s@.skip(i + 1), pat@, rep@) =~= pre_out + (seq![tail[0]]
                    + replace_all(tail.skip(1), pat@, rep@)));
            }
            i = i + 1;
        }
    }
    proof {
        assert(s@.skip(s@.len() as int) =~= Seq::<char>::empty());
        assert(replace_all(s@.skip(s@.len() as int), pat@, rep@) =~= Seq::<char>::empty());
        assert(out@ =~= out@ + Seq::<char>::empty());
    }
    out
}

/// Length of the maximal run of characters of class `cls` in `s` starting at
/// position `i`.
pub open spec fn run_len(s: Seq<char>, i: int, cls: CharClass) -> int
    decreases s.len() - i,
{
    if 0 <= i < s.len() && in_class(cls, s[i]) {
        1 + run_len(s, i + 1, cls)
    } else {
        0
    }
}

pub proof fn lemma_run_len_bounds(s: Seq<char>, i: int, cls: CharClass)
    requires
        0 <= i <= s.len(),
    ensures
        0 <= run_len(s, i, cls),
        i + run_len(s, i, cls) <= s.len(),
        forall|k: int| i <= k < i + run_len(s, i, cls) ==> in_class(cls, s[k]),
        i + run_len(s, i, cls) < s.len() ==> !in_class(cls, s[i + run_len(s, i, cls)]),
    decreases s.len() - i,
{
    if i < s.len() && in_class(cls, s[i]) {
        lemma_run_len_bounds(s, i + 1, cls);
    }
}

/// A run is determined by the characters it covers: computing it on a suffix
/// of the text gives the same length.
pub proof fn lemma_run_len_skip(s: Seq<char>, i: int, j: int, cls: CharClass)
    requires
        0 <= i,
        0 <= j,
        i + j <= s.len(),
    ensures
        run_len(s.skip(i), j, cls) == run_len(s, i + j, cls),
    decreases s.len() - i - j,
{
    if i + j < s.len() && in_class(cls, s[i + j]) {
        assert(s.skip(i)[j] == s[i + j]);
        lemma_run_len_skip(s, i, j + 1, cls);
    }
}

/// A match is determined by the characters it covers: testing it on a suffix
/// of the text is testing it on the text.
pub proof fn lemma_match_at_skip(s: Seq<char>, pat: Seq<char>, i: int, j: int)
    requires
        0 <= i <= s.len(),
        0 <= j,
    ensures
        match_at(s.skip(i), pat, j) == match_at(s, pat, i + j),
{
    if j + pat.len() <= s.len() - i {
        assert(s.skip(i).subrange(j, j + pat.len() as int) =~= s.subrange(
            i + j,
            i + j + pat.len() as int,
        ));
    }
}

/// The values captured by scanning `s` from the left for the pattern
/// `pre`, then a non-empty maximal run of class `cls`, then `post`:
/// the captured runs, in match order, non-overlapping.
pub open spec fn find_marked(s: Seq<char>, pre: Seq<char>, post: Seq<char>, cls: CharClass) -> Seq<
    Seq<char>,
>
    decreases s.len(),
{
    if pre.len() == 0 || s.len() < pre.len() {
        Seq::empty()
    } else if s.subrange(0, pre.len() as int) == pre {
        let n = run_len(s, pre.len() as int, cls);
        if n > 0 && match_at(s, post, pre.len() + n) {
            seq![s.subrange(pre.len() as int, pre.len() + n)] + find_marked(
                s.skip(pre.len() + n + post.len()),
                pre,
                post,
                cls,
            )
        } else {
            find_marked(s.skip(1), pre, post, cls)
        }
    } else {
        find_marked(s.skip(1), pre, post, cls)
    }
}

/// The text with every match of `pre`, then a non-empty maximal run of class
/// `cls`, then `post`, replaced by `rep`, scanning from the left.
pub open spec fn replace_marked(
    s: Seq<char>,
    pre: Seq<char>,
    post: Seq<char>,
    cls: CharClass,
    rep: Seq<char>,
) -> Seq<char>
    decreases s.len(),
{
    if pre.len() == 0 || s.len() < pre.len() {
        s
    } else if s.subrange(0, pre.len() as int) == pre {
        let n = run_len(s, pre.len() as int, cls);
        if n > 0 && match_at(s, post, pre.len() + n) {
            rep + replace_marked(s.skip(pre.len() + n + post.len()), pre, post, cls, rep)
        } else {
            seq![s[0]] + replace_marked(s.skip(1), pre, post, cls, rep)
        }
    } else {
        seq![s[0]] + replace_marked(s.skip(1), pre, post, cls, rep)
    }
}

/// Length of the maximal class run starting at `i`, executable.
pub fn run_length_from(s: &Vec<char>, i: usize, cls: CharClass) -> (n: usize)
    requires
        i <= s@.len(),
    ensures
        n == run_len(s@, i as int, cls),
        i + n <= s@.len(),
{
    let slen: usize = s.len();
    let mut j: usize = i;
    while j < slen && class_matches(cls, s[j])
        invariant
            i <= j <= slen,
            slen == s@.len(),
            run_len(s@, i as int, cls) == (j - i) + run_len(s@, j as int, cls),
            forall|k: int| i <= k < j ==> in_class(cls, s@[k]),
        decreases slen - j,
    {
        proof {
            assert(run_len(s@, j as int, cls) == 1 + run_len(s@, j + 1, cls));
        }
        j = j + 1;
    }
    proof {
        assert(run_len(s@, j as int, cls) == 0);
    }
    j - i
}

/// Scans `s` for `pre`, a non-empty maximal run of `cls`, then `post`, and
/// returns the captured runs in match order.
pub fn find_marked_runs(s: &Vec<char>, pre: &Vec<char>, post: &Vec<char>, cls: CharClass) -> (out:
    Vec<Vec<char>>)
    requires
        pre@.len() > 0,
    ensures
        out@.map_values(|v: Vec<char>| v@) == find_marked(s@, pre@, post@, cls),
{
    let slen: usize = s.len();
    let mut out: Vec<Vec<char>> = Vec::new();
    let mut i: usize = 0;
    proof {
        assert(s@.skip(0) =~= s@);
        assert(out@.map_values(|v: Vec<char>| v@) + find_marked(s@, pre@, post@, cls)
            =~= find_marked(s@, pre@, post@, cls));
    }
    while i < slen
        invariant
            i <= slen,
            slen == s@.len(),
            pre@.len() > 0,
            out@.map_values(|v: Vec<char>| v@) + find_marked(s@.skip(i as int), pre@, post@, cls)
                == find_marked(s@, pre@, post@, cls),
        decreases slen - i,
    {
        let ghost pre_out = out@.map_values(|v: Vec<char>| v@);
        let ghost tail = s@.skip(i as int);
        let is_pre = matches_at(s, pre, i);
        if is_pre {
            proof {
                assert(tail.subrange(0, pre@.len() as int) =~= s@.subrange(
                    i as int,
                    i + pre@.len() as int,
                ));
            }
            let n: usize = run_length_from(s, i + pre.len(), cls);
            proof {
                lemma_run_len_skip(s@, i as int, pre@.len() as int, cls);
            }
            let is_post = n > 0 && matches_at(s, post, i + pre.len() + n);
            if is_post {
                proof {
                    assert(tail.subrange(pre@.len() as int, pre@.len() + n) =~= s@.subrange(
                        i + pre@.len(),
                        i + pre@.len() + n,
                    ));
                    assert(tail.subrange(pre@.len() + n, pre@.len() + n + post@.len())
                        =~= s@.subrange(i + pre@.len() + n, i + pre@.len() + n + post@.len()));
                    assert(match_at(tail, post@, pre@.len() + n));
                    assert(tail.skip(pre@.len() + n + post@.len()) =~= s@.skip(
                        i + pre@.len() + n + post@.len(),
                    ));
                }
                let mut run: Vec<char> = Vec::new();
                let mut k: usize = 0;
                while k < n
                    invariant
                        k <= n,
                        slen == s@.len(),
                        i + pre@.len() + n <= slen,
                        run@ == s@.subrange(i + pre@.len(), i + pre@.len() + k),
                    decreases n - k,
                {
                    proof {
                        assert(i + pre@.len() + k < s@.len());
                    }
                    run.push(s[i + pre.len() + k]);
                    proof {
                        assert(s@.subrange(i + pre@.len(), i + pre@.len() + (k + 1))
                            =~= s@.subrange(i + pre@.len(), i + pre@.len() + k).push(
                            s@[i + pre@.len() + k],
                        ));
                    }
                    k = k + 1;
                }
                out.push(run);
                proof {
                    assert(find_marked(tail, pre@, post@, cls) == seq![
                        tail.subrange(pre@.len() as int, pre@.len() + n),
                    ] + find_marked(tail.skip(pre@.len() + n + post@.len()), pre@, post@, cls));
                    assert(tail.subrange(pre@.len() as int, pre@.len() + n) =~= s@.subrange(
                        i + pre@.len(),
                        i + pre@.len() + n,
                    ));
                    assert(out@.map_values(|v: Vec<char>| v@) =~= pre_out.push(s@.subrange(
                        i + pre@.len(),
                        i + pre@.len() + n,
                    )));
                    assert(out@.map_values(|v: Vec<char>| v@) + find_marked(
                        s@.skip(i + pre@.len() + n + post@.len()),
                        pre@,
                        post@,
                        cls,
                    ) =~= pre_out + find_marked(tail, pre@, post@, cls));
                }
                i = i + pre.len() + n + post.len();
            } else {
                proof {
                    lemma_match_at_skip(s@, post@, i as int, pre@.len() + n);
                    assert(!(n > 0 && match_at(tail, post@, pre@.len() + n)));
                    assert(find_marked(tail, pre@, post@, cls) == find_marked(
                        tail.skip(1),
                        pre@,
                        post@,
                        cls,
                    ));
                    assert(tail.skip(1) =~= s@.skip(i + 1));
                }
                i = i + 1;
            }
        } else {
            proof {
                if tail.len() >= pre@.len() {
                    assert(tail.subrange(0, pre@.len() as int) =~= s@.subrange(
                        i as int,
                        i + pre@.len() as int,
                    ));
                    assert(tail.subrange(0, pre@.len() as int) != pre@);
                    assert(find_marked(tail, pre@, post@, cls) == find_marked(
                        tail.skip(1),
                        pre@,
                        post@,
                        cls,
                    ));
                } else {
                    assert(find_marked(tail, pre@, post@, cls) =~= Seq::<Seq<char>>::empty());
                    assert(tail.skip(1) =~= s@.skip(i + 1));
                    assert(find_marked(tail.skip(1), pre@, post@, cls)
                        =~= Seq::<Seq<char>>::empty());
                }
                assert(tail.skip(1) =~= s@.skip(i + 1));
            }
            i = i + 1;
        }
    }
    proof {
        assert(s@.skip(slen as int) =~= Seq::<char>::empty());
        assert(find_marked(s@.skip(slen as int), pre@, post@, cls) =~= Seq::<Seq<char>>::empty());
        assert(out@.map_values(|v: Vec<char>| v@) =~= out@.map_values(|v: Vec<char>| v@) + Seq::<
            Seq<char>,
        >::empty());
    }
    out
}

/// Replaces every match of `pre`, then a non-empty maximal run of `cls`, then
/// `post`, by `rep`, scanning from the left.
pub fn replace_marked_chars(
    s: &Vec<char>,
    pre: &Vec<char>,
    post: &Vec<char>,
    cls: CharClass,
    rep: &Vec<char>,
) -> (out: Vec<char>)
    requires
        pre@.len() > 0,
    ensures
        out@ == replace_marked(s@, pre@, post@, cls, rep@),
{
    let slen: usize = s.len();
    let mut out: Vec<char> = Vec::new();
    let mut i: usize = 0;
    proof {
        assert(s@.skip(0) =~= s@);
        assert(out@ + replace_marked(s@, pre@, post@, cls, rep@) =~= replace_marked(
            s@,
            pre@,
            post@,
            cls,
            rep@,
        ));
    }
    while i < slen
        invariant
            i <= slen,
            slen == s@.len(),
            pre@.len() > 0,
            out@ + replace_marked(s@.skip(i as int), pre@, post@, cls, rep@) == replace_marked(
                s@,
                pre@,
                post@,
                cls,
                rep@,
            ),
        decreases slen - i,
    {
        let ghost pre_out = out@;
        let ghost tail = s@.skip(i as int);
        let is_pre = matches_at(s, pre, i);
        if is_pre {
            proof {
                assert(tail.subrange(0, pre@.len() as int) =~= s@.subrange(
                    i as int,
                    i + pre@.len() as int,
                ));
            }
            let n: usize = run_length_from(s, i + pre.len(), cls);
            proof {
                lemma_run_len_skip(s@, i as int, pre@.len() as int, cls);
            }
            let is_post = n > 0 && matches_at(s, post, i + pre.len() + n);
            proof {
                lemma_match_at_skip(s@, post@, i as int, pre@.len() + n);
            }
            if is_post {
                extend_chars(&mut out, rep);
                proof {
                    assert(replace_marked(tail, pre@, post@, cls, rep@) == rep@ + replace_marked(
                        tail.skip(pre@.len() + n + post@.len()),
                        pre@,
                        post@,
                        cls,
                        rep@,
                    ));
                    assert(tail.skip(pre@.len() + n + post@.len()) =~= s@.skip(
                        i + pre@.len() + n + post@.len(),
                    ));
                    assert(out@ + replace_marked(
                        s@.skip(i + pre@.len() + n + post@.len()),
                        pre@,
                        post@,
                        cls,
                        rep@,
                    ) =~= pre_out + replace_marked(tail, pre@, post@, cls, rep@));
                }
                i = i + pre.len() + n + post.len();
            } else {
                out.push(s[i]);
                proof {
                    assert(replace_marked(tail, pre@, post@, cls, rep@) == seq![tail[0]]
                        + replace_marked(tail.skip(1), pre@, post@, cls, rep@));
                    assert(tail.skip(1) =~= s@.skip(i + 1));
                    assert(out@ + replace_marked(s@.skip(i + 1), pre@, post@, cls, rep@)
                        =~= pre_out + (seq![tail[0]] + replace_marked(
                        tail.skip(1),
                        pre@,
                        post@,
                        cls,
                        rep@,
                    )));
                }
                i = i + 1;
            }
        } else {
            out.push(s[i]);
            proof {
                if tail.len() >= pre@.len() {
                    assert(tail.subrange(0, pre@.len() as int) =~= s@.subrange(
                        i as int,
                        i + pre@.len() as int,
                    ));
                    assert(tail.subrange(0, pre@.len() as int) != pre@);
                    assert(replace_marked(tail, pre@, post@, cls, rep@) == seq![tail[0]]
                        + replace_marked(tail.skip(1), pre@, post@, cls, rep@));
                } else {
                    assert(replace_marked(tail, pre@, post@, cls, rep@) == tail);
                    assert(tail.skip(1) =~= s@.skip(i + 1));
                    assert(replace_marked(tail.skip(1), pre@, post@, cls, rep@) == tail.skip(1));
                    assert(replace_marked(tail, pre@, post@, cls, rep@) =~= seq![tail[0]]
                        + replace_marked(tail.skip(1), pre@, post@, cls, rep@));
                }
                assert(tail.skip(1) =~= s@.skip(i + 1));
                assert(out@ + replace_marked(s@.skip(i + 1), pre@, post@, cls, rep@) =~= pre_out + (
                seq![tail[0]] + replace_marked(tail.skip(1), pre@, post@, cls, rep@)));
            }
            i = i + 1;
        }
    }
    proof {
        assert(s@.skip(slen as int) =~= Seq::<char>::empty());
        assert(replace_marked(s@.skip(slen as int), pre@, post@, cls, rep@) =~= Seq::<
            char,
        >::empty());
        assert(out@ =~= out@ + Seq::<char>::empty());
    }
    out
}

/// Every run captured by `find_marked` is non-empty and consists of
/// characters of the scanned class.
pub proof fn lemma_find_marked_class(s: Seq<char>, pre: Seq<char>, post: Seq<char>, cls: CharClass)
    ensures
        forall|t: int|
            0 <= t < find_marked(s, pre, post, cls).len() ==> (#[trigger] find_marked(
                s,
                pre,
                post,
                cls,
            )[t]).len() > 0,
        forall|t: int, k: int|
            0 <= t < find_marked(s, pre, post, cls).len() && 0 <= k < find_marked(
                s,
                pre,
                post,
                cls,
            )[t].len() ==> in_class(cls, #[trigger] find_marked(s, pre, post, cls)[t][k]),
    decreases s.len(),
{
    let fm = find_marked(s, pre, post, cls);
    if pre.len() == 0 || s.len() < pre.len() {
    } else if s.subrange(0, pre.len() as int) == pre {
        let n = run_len(s, pre.len() as int, cls);
        lemma_run_len_bounds(s, pre.len() as int, cls);
        if n > 0 && match_at(s, post, pre.len() + n) {
            lemma_find_marked_class(s.skip(pre.len() + n + post.len()), pre, post, cls);
            let cap = s.subrange(pre.len() as int, pre.len() + n);
            let rec = find_marked(s.skip(pre.len() + n + post.len()), pre, post, cls);
            assert(fm == seq![cap] + rec);
            assert forall|t: int| 0 <= t < fm.len() implies (#[trigger] fm[t]).len() > 0 by {
                if t == 0 {
                    assert(fm[t] == cap);
                } else {
                    assert(fm[t] == rec[t - 1]);
                }
            }
            assert forall|t: int, k: int|
                0 <= t < fm.len() && 0 <= k < fm[t].len() implies in_class(
                cls,
                #[trigger] fm[t][k],
            ) by {
                if t == 0 {
                    assert(fm[t] == cap);
                    assert(cap[k] == s[pre.len() + k]);
                } else {
                    assert(fm[t] == rec[t - 1]);
                }
            }
        } else {
            lemma_find_marked_class(s.skip(1), pre, post, cls);
            assert(fm == find_marked(s.skip(1), pre, post, cls));
        }
    } else {
        lemma_find_marked_class(s.skip(1), pre, post, cls);
        assert(fm == find_marked(s.skip(1), pre, post, cls));
    }
}

/// The subsequence of `s` that keeps the first occurrence of each value and
/// drops the rest.
pub open spec fn dedup<T>(s: Seq<T>) -> Seq<T>
    decreases s.len(),
{
    if s.len() == 0 {
        Seq::empty()
    } else {
        let rest = dedup(s.drop_last());
        if rest.contains(s.last()) {
            rest
        } else {
            rest.push(s.last())
        }
    }
}

/// Deduplication keeps exactly the values of the original sequence, and
/// keeps each of them once.
pub proof fn lemma_dedup<T>(s: Seq<T>)
    ensures
        forall|x: T| dedup(s).contains(x) <==> s.contains(x),
        forall|t1: int, t2: int|
            0 <= t1 < t2 < dedup(s).len() ==> #[trigger] dedup(s)[t1] != #[trigger] dedup(s)[t2],
    decreases s.len(),
{
    if s.len() > 0 {
        lemma_dedup(s.drop_last());
        let rest = dedup(s.drop_last());
        assert forall|x: T| dedup(s).contains(x) implies s.contains(x) by {
            if rest.contains(x) {
                assert(s.drop_last().contains(x));
                let w = choose|w: int| 0 <= w < s.drop_last().len() && s.drop_last()[w] == x;
                assert(s[w] == x);
            } else {
                assert(x == s.last());
                assert(s[s.len() - 1] == x);
            }
        }
        assert forall|x: T| s.contains(x) implies dedup(s).contains(x) by {
            let w = choose|w: int| 0 <= w < s.len() && s[w] == x;
            if w < s.len() - 1 {
                assert(s.drop_last()[w] == x);
                assert(s.drop_last().contains(x));
                if !rest.contains(s.last()) {
                    assert(dedup(s)[choose|u: int|
                        0 <= u < rest.len() && rest[u] == x] == x);
                }
            } else {
                if rest.contains(s.last()) {
                } else {
                    assert(dedup(s)[dedup(s).len() - 1] == x);
                }
            }
        }
    }
}

/// Character-vector equality, executable.
pub fn chars_eq(a: &Vec<char>, b: &Vec<char>) -> (r: bool)
    ensures
        r == (a@ == b@),
{
    if a.len() != b.len() {
        return false;
    }
    let mut k: usize = 0;
    while k < a.len()
        invariant
            k <= a@.len(),
            a@.len() == b@.len(),
            forall|t: int| 0 <= t < k ==> a@[t] == b@[t],
        decreases a@.len() - k,
    {
        if a[k] != b[k] {
            return false;
        }
        k = k + 1;
    }
    proof {
        assert(a@ =~= b@);
    }
    true
}

/// Whether a list of names already holds `x`.
pub fn names_contain(v: &Vec<Vec<char>>, x: &Vec<char>) -> (r: bool)
    ensures
        r == v@.map_values(|u: Vec<char>| u@).contains(x@),
{
    let ghost mapped = v@.map_values(|u: Vec<char>| u@);
    let mut k: usize = 0;
    while k < v.len()
        invariant
            k <= v@.len(),
            mapped == v@.map_values(|u: Vec<char>| u@),
            forall|t: int| 0 <= t < k ==> mapped[t] != x@,
        decreases v@.len() - k,
    {
        if chars_eq(&v[k], x) {
            proof {
                assert(mapped[k as int] == x@);
            }
            return true;
        }
        k = k + 1;
    }
    false
}

/// Keeps the first occurrence of each name, in order.
pub fn dedup_names(v: &Vec<Vec<char>>) -> (out: Vec<Vec<char>>)
    ensures
        out@.map_values(|u: Vec<char>| u@) == dedup(v@.map_values(|u: Vec<char>| u@)),
{
    let ghost mapped = v@.map_values(|u: Vec<char>| u@);
    let mut out: Vec<Vec<char>> = Vec::new();
    let mut k: usize = 0;
    proof {
        assert(mapped.take(0) =~= Seq::<Seq<char>>::empty());
        assert(out@.map_values(|u: Vec<char>| u@) =~= dedup(mapped.take(0)));
    }
    while k < v.len()
        invariant
            k <= v@.len(),
            mapped == v@.map_values(|u: Vec<char>| u@),
            out@.map_values(|u: Vec<char>| u@) == dedup(mapped.take(k as int)),
        decreases v@.len() - k,
    {
        let ghost pre_out = out@.map_values(|u: Vec<char>| u@);
        proof {
            assert(mapped.take(k + 1).drop_last() =~= mapped.take(k as int));
            assert(mapped.take(k + 1).last() == mapped[k as int]);
            assert(mapped[k as int] == v@[k as int]@);
        }
        if !names_contain(&out, &v[k]) {
            let item = v[k].clone();
            proof {
                assert(item@ == v@[k as int]@);
            }
            out.push(item);
            proof {
                assert(out@.map_values(|u: Vec<char>| u@) =~= pre_out.push(v@[k as int]@));
            }
        }
        k = k + 1;
    }
    proof {
        assert(mapped.take(mapped.len() as int) =~= mapped);
    }
    out
}

/// Whether a list of identifiers already holds `x`.
pub fn ids_contain(v: &Vec<i32>, x: i32) -> (r: bool)
    ensures
        r == v@.contains(x),
{
    let mut k: usize = 0;
    while k < v.len()
        invariant
            k <= v@.len(),
            forall|t: int| 0 <= t < k ==> v@[t] != x,
        decreases v@.len() - k,
    {
        if v[k] == x {
            return true;
        }
        k = k + 1;
    }
    false
}

/// Keeps the first occurrence of each identifier, in order.
pub fn dedup_ids(v: &Vec<i32>) -> (out: Vec<i32>)
    ensures
        out@ == dedup(v@),
{
    let mut out: Vec<i32> = Vec::new();
    let mut k: usize = 0;
    proof {
        assert(v@.take(0) =~= Seq::<i32>::empty());
    }
    while k < v.len()
        invariant
            k <= v@.len(),
            out@ == dedup(v@.take(k as int)),
        decreases v@.len() - k,
    {
        proof {
            assert(v@.take(k + 1).drop_last() =~= v@.take(k as int));
            assert(v@.take(k + 1).last() == v@[k as int]);
        }
        if !ids_contain(&out, v[k]) {
            out.push(v[k]);
        }
        k = k + 1;
    }
    proof {
        assert(v@.take(v@.len() as int) =~= v@);
    }
    out
}

} // verus!
