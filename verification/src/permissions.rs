//! The permissions writer: a grouped allow/deny document becomes (a) the
//! unique `(group, permission, allowed)` rows of the permissions table,
//! deny overriding allow on collision, and (b) a generated configuration
//! file that lists exactly those rows ordered by group, then permission.
//! The read side turns rows back into the grouped document.

use vstd::prelude::*;
use crate::error::ApiError;
use crate::strutil::{append_str, chars_to_string};
use crate::validate::{spec_valid_group, is_valid_group};

verus! {

/// One group and the permissions listed under it.
#[derive(Debug)]
pub struct GroupPerms {
    pub group: String,
    pub perms: Vec<String>,
}

/// The grouped permissions document: `{allow: {group -> [perm]},
/// deny: {group -> [perm]}}`.
#[derive(Debug)]
pub struct PermissionsBody {
    pub allow: Vec<GroupPerms>,
    pub deny: Vec<GroupPerms>,
}

/// One row of the permissions table.
#[derive(Debug)]
pub struct PermRow {
    pub group: String,
    pub perm: String,
    pub allowed: bool,
}

/// Whether the grouped list names the pair `(g, p)`.
pub open spec fn spec_list_has(list: Seq<GroupPerms>, g: Seq<char>, p: Seq<char>) -> bool {
    exists|i: int, j: int|
        0 <= i < list.len() && 0 <= j < list[i].perms@.len() && list[i].group@ == g && (
        #[trigger] list[i].perms@[j])@ == p
}

/// Whether some row holds the pair `(g, p)` with the given flag.
pub open spec fn spec_rows_have(rows: Seq<PermRow>, g: Seq<char>, p: Seq<char>, a: bool) -> bool {
    exists|i: int|
        0 <= i < rows.len() && (#[trigger] rows[i]).group@ == g && rows[i].perm@ == p
            && rows[i].allowed == a
}

/// Whether some row holds the pair `(g, p)`.
pub open spec fn spec_rows_key(rows: Seq<PermRow>, g: Seq<char>, p: Seq<char>) -> bool {
    exists|i: int| 0 <= i < rows.len() && (#[trigger] rows[i]).group@ == g && rows[i].perm@ == p
}

/// Strict lexicographic order on character sequences, by code point.
pub open spec fn lex_lt(a: Seq<char>, b: Seq<char>) -> bool
    decreases a.len(),
{
    if b.len() == 0 {
        false
    } else if a.len() == 0 {
        true
    } else if a[0] != b[0] {
        a[0] < b[0]
    } else {
        lex_lt(a.skip(1), b.skip(1))
    }
}

/// Strict order on `(group, permission)` pairs: group first, then
/// permission.
pub open spec fn pair_lt(g1: Seq<char>, p1: Seq<char>, g2: Seq<char>, p2: Seq<char>) -> bool {
    lex_lt(g1, g2) || (g1 == g2 && lex_lt(p1, p2))
}

/// Rows strictly ordered by `(group ASC, permission ASC)`; strictness
/// makes the four-tuple unique.
pub open spec fn spec_rows_sorted(rows: Seq<PermRow>) -> bool {
    forall|i: int, j: int|
        0 <= i < j < rows.len() ==> pair_lt(
            (#[trigger] rows[i]).group@,
            rows[i].perm@,
            (#[trigger] rows[j]).group@,
            rows[j].perm@,
        )
}

/// The lexicographic order is irreflexive and asymmetric.
proof fn lemma_lex_lt_asym(a: Seq<char>, b: Seq<char>)
    ensures
        !(lex_lt(a, b) && lex_lt(b, a)),
        a == b ==> !lex_lt(a, b),
    decreases a.len(),
{
    if a.len() > 0 && b.len() > 0 && a[0] == b[0] {
        lemma_lex_lt_asym(a.skip(1), b.skip(1));
    }
}

/// The lexicographic order is transitive.
proof fn lemma_lex_lt_trans(a: Seq<char>, b: Seq<char>, c: Seq<char>)
    requires
        lex_lt(a, b),
        lex_lt(b, c),
    ensures
        lex_lt(a, c),
    decreases a.len(),
{
    if c.len() == 0 {
        assert(!lex_lt(b, c));
    } else if a.len() == 0 {
    } else if b.len() == 0 {
        assert(!lex_lt(a, b));
    } else {
        if a[0] == b[0] && b[0] == c[0] {
            lemma_lex_lt_trans(a.skip(1), b.skip(1), c.skip(1));
        }
    }
}

/// The pair order is transitive.
proof fn lemma_pair_lt_trans(
    g1: Seq<char>, p1: Seq<char>,
    g2: Seq<char>, p2: Seq<char>,
    g3: Seq<char>, p3: Seq<char>,
)
    requires
        pair_lt(g1, p1, g2, p2),
        pair_lt(g2, p2, g3, p3),
    ensures
        pair_lt(g1, p1, g3, p3),
{
    if lex_lt(g1, g2) && lex_lt(g2, g3) {
        lemma_lex_lt_trans(g1, g2, g3);
    } else if lex_lt(g1, g2) && g2 == g3 {
    } else if g1 == g2 && lex_lt(g2, g3) {
    } else {
        lemma_lex_lt_trans(p1, p2, p3);
    }
}

/// The order of two sequences is decided past any equal prefix.
proof fn lemma_lex_skip(a: Seq<char>, b: Seq<char>, k: int)
    requires
        0 <= k <= a.len(),
        k <= b.len(),
        forall|t: int| 0 <= t < k ==> a[t] == b[t],
    ensures
        lex_lt(a, b) == lex_lt(a.skip(k), b.skip(k)),
    decreases k,
{
    if k == 0 {
        assert(a.skip(0) =~= a);
        assert(b.skip(0) =~= b);
    } else {
        assert(a.len() > 0 && b.len() > 0 && a[0] == b[0]);
        let a1 = a.skip(1);
        let b1 = b.skip(1);
        assert(forall|t: int| 0 <= t < k - 1 ==> a1[t] == b1[t]) by {
            assert(forall|t: int| 0 <= t < k - 1 ==> a1[t] == a[t + 1] && b1[t] == b[t + 1]);
        }
        lemma_lex_skip(a1, b1, k - 1);
        assert(a1.skip(k - 1) =~= a.skip(k));
        assert(b1.skip(k - 1) =~= b.skip(k));
    }
}

/// Three-way comparison of two strings in code-point order.
fn str_cmp(a: &str, b: &str) -> (r: i8)
    ensures
        (r == 0) == (a@ == b@),
        (r < 0) == lex_lt(a@, b@),
        (r > 0) == lex_lt(b@, a@),
{
    let alen = a.unicode_len();
    let blen = b.unicode_len();
    let mut k: usize = 0;
    while k < alen && k < blen
        invariant
            k <= alen,
            k <= blen,
            alen == a@.len(),
            blen == b@.len(),
            forall|t: int| 0 <= t < k ==> a@[t] == b@[t],
        decreases alen - k,
    {
        let ca = a.get_char(k);
        let cb = b.get_char(k);
        if ca != cb {
            proof {
                lemma_lex_skip(a@, b@, k as int);
                lemma_lex_skip(b@, a@, k as int);
                assert(a@.skip(k as int)[0] == ca && b@.skip(k as int)[0] == cb);
                if a@ == b@ {
                    assert(a@[k as int] == b@[k as int]);
                }
            }
            if ca < cb {
                return -1;
            }
            return 1;
        }
        k = k + 1;
    }
    proof {
        lemma_lex_skip(a@, b@, k as int);
        lemma_lex_skip(b@, a@, k as int);
    }
    if alen == blen {
        proof {
            assert(a@ =~= b@);
            lemma_lex_lt_asym(a@, b@);
        }
        0
    } else if alen < blen {
        proof {
            assert(a@.skip(k as int).len() == 0 && b@.skip(k as int).len() > 0);
        }
        -1
    } else {
        proof {
            assert(b@.skip(k as int).len() == 0 && a@.skip(k as int).len() > 0);
        }
        1
    }
}

/// Three-way comparison of a row's key against a pair.
fn key_cmp(row_g: &str, row_p: &str, g: &str, p: &str) -> (r: i8)
    ensures
        (r == 0) == (row_g@ == g@ && row_p@ == p@),
        (r < 0) == pair_lt(row_g@, row_p@, g@, p@),
        (r > 0) == pair_lt(g@, p@, row_g@, row_p@),
{
    let cg = str_cmp(row_g, g);
    if cg < 0 {
        return -1;
    }
    if cg > 0 {
        proof {
            lemma_lex_lt_asym(row_g@, g@);
        }
        return 1;
    }
    let cp = str_cmp(row_p, p);
    proof {
        lemma_lex_lt_asym(row_p@, p@);
        lemma_lex_lt_asym(row_g@, g@);
    }
    if cp < 0 {
        return -1;
    }
    if cp > 0 {
        return 1;
    }
    0
}


/// Every group name and permission name in the grouped list matches the
/// group/permission whitelist. Group names are checked even when their
/// permission list is empty.
pub open spec fn spec_groups_valid(list: Seq<GroupPerms>) -> bool {
    forall|i: int| 0 <= i < list.len() ==> spec_valid_group((#[trigger] list[i]).group@)
        && forall|j: int| 0 <= j < list[i].perms@.len()
            ==> spec_valid_group((#[trigger] list[i].perms@[j])@)
}

/// Whether the first `gi` groups, plus the first `pj` permissions of
/// group `gi`, name the pair `(g, p)`.
pub open spec fn spec_list_has_upto(
    list: Seq<GroupPerms>,
    gi: int,
    pj: int,
    g: Seq<char>,
    p: Seq<char>,
) -> bool {
    exists|i: int, j: int|
        0 <= i < list.len() && 0 <= j < list[i].perms@.len() && (i < gi || (i == gi && j < pj))
            && list[i].group@ == g && (#[trigger] list[i].perms@[j])@ == p
}

/// Validates one grouped list and appends its pairs as rows with the
/// given flag. The old rows stay in place; exactly the list's pairs are
/// added, each carrying the flag.
fn flatten_validated(list: &Vec<GroupPerms>, flag: bool, out: &mut Vec<PermRow>) -> (r: Result<
    (),
    ApiError,
>)
    ensures
        (r is Ok) == spec_groups_valid(list@),
        match r {
            Ok(()) => {
                &&& forall|k: int| 0 <= k < old(out)@.len() ==> final(out)@[k] == old(out)@[k]
                &&& final(out)@.len() >= old(out)@.len()
                &&& forall|k: int| old(out)@.len() <= k < final(out)@.len()
                    ==> (#[trigger] final(out)@[k]).allowed == flag
                &&& forall|g: Seq<char>, p: Seq<char>| #[trigger] spec_rows_key(final(out)@, g, p)
                    == (spec_rows_key(old(out)@, g, p) || spec_list_has(list@, g, p))
                &&& forall|g: Seq<char>, p: Seq<char>| #[trigger] spec_rows_have(
                    final(out)@, g, p, false,
                ) == (spec_rows_have(old(out)@, g, p, false) || (!flag && spec_list_has(
                    list@, g, p,
                )))
            },
            Err(e) => e.status == 400 && e.code@ == "param_invalid"@,
        },
{
    let mut i: usize = 0;
    while i < list.len()
        invariant
            i <= list@.len(),
            forall|ii: int| 0 <= ii < i ==> spec_valid_group((#[trigger] list@[ii]).group@)
                && forall|j: int| 0 <= j < list@[ii].perms@.len()
                    ==> spec_valid_group((#[trigger] list@[ii].perms@[j])@),
            forall|k: int| 0 <= k < old(out)@.len() ==> out@[k] == old(out)@[k],
            out@.len() >= old(out)@.len(),
            forall|k: int| old(out)@.len() <= k < out@.len()
                ==> (#[trigger] out@[k]).allowed == flag,
            forall|g: Seq<char>, p: Seq<char>| #[trigger] spec_rows_key(out@, g, p)
                == (spec_rows_key(old(out)@, g, p) || spec_list_has_upto(list@, i as int, 0, g, p)),
            forall|g: Seq<char>, p: Seq<char>| #[trigger] spec_rows_have(out@, g, p, false)
                == (spec_rows_have(old(out)@, g, p, false) || (!flag && spec_list_has_upto(
                    list@, i as int, 0, g, p,
                ))),
        decreases list@.len() - i,
    {
        let gp = &list[i];
        if !is_valid_group(gp.group.as_str()) {
            let msg = String::from_str("parameter ").concat(gp.group.as_str()).concat(
                " is invalid",
            );
            return Err(ApiError::new(400, "param_invalid", msg));
        }
        let mut j: usize = 0;
        while j < gp.perms.len()
            invariant
                j <= gp.perms@.len(),
                gp == &list@[i as int],
                i < list@.len(),
                spec_valid_group(gp.group@),
                forall|jj: int| 0 <= jj < j ==> spec_valid_group((#[trigger] gp.perms@[jj])@),
                forall|k: int| 0 <= k < old(out)@.len() ==> out@[k] == old(out)@[k],
                out@.len() >= old(out)@.len(),
                forall|k: int| old(out)@.len() <= k < out@.len()
                    ==> (#[trigger] out@[k]).allowed == flag,
                forall|g: Seq<char>, p: Seq<char>| #[trigger] spec_rows_key(out@, g, p)
                    == (spec_rows_key(old(out)@, g, p) || spec_list_has_upto(
                        list@, i as int, j as int, g, p,
                    )),
                forall|g: Seq<char>, p: Seq<char>| #[trigger] spec_rows_have(out@, g, p, false)
                    == (spec_rows_have(old(out)@, g, p, false) || (!flag && spec_list_has_upto(
                        list@, i as int, j as int, g, p,
                    ))),
            decreases gp.perms@.len() - j,
        {
            let perm = &gp.perms[j];
            if !is_valid_group(perm.as_str()) {
                let msg = String::from_str("parameter ").concat(perm.as_str()).concat(
                    " is invalid",
                );
                return Err(ApiError::new(400, "param_invalid", msg));
            }
            let ghost pre = out@;
            out.push(PermRow { group: gp.group.clone(), perm: perm.clone(), allowed: flag });
            proof {
                let n = pre.len() as int;
                assert(out@[n].group@ == list@[i as int].group@);
                assert(out@[n].perm@ == list@[i as int].perms@[j as int]@);
                assert(forall|k: int| 0 <= k < n ==> out@[k] == pre[k]);
                assert forall|g: Seq<char>, p: Seq<char>| #[trigger] spec_rows_key(out@, g, p)
                    == (spec_rows_key(old(out)@, g, p) || spec_list_has_upto(
                        list@, i as int, j + 1 as int, g, p,
                    )) by {
                    if spec_rows_key(out@, g, p) {
                        let w = choose|w: int| 0 <= w < out@.len()
                            && (#[trigger] out@[w]).group@ == g && out@[w].perm@ == p;
                        if w < n {
                            assert(spec_rows_key(pre, g, p));
                        } else {
                            assert(list@[i as int].group@ == g
                                && list@[i as int].perms@[j as int]@ == p);
                            assert(spec_list_has_upto(list@, i as int, j + 1 as int, g, p));
                        }
                    }
                    if spec_rows_key(old(out)@, g, p) || spec_list_has_upto(
                        list@, i as int, j as int, g, p,
                    ) {
                        assert(spec_rows_key(pre, g, p));
                        let w = choose|w: int| 0 <= w < pre.len()
                            && (#[trigger] pre[w]).group@ == g && pre[w].perm@ == p;
                        assert(out@[w].group@ == g && out@[w].perm@ == p);
                        assert(spec_rows_key(out@, g, p));
                    }
                    if spec_list_has_upto(list@, i as int, j + 1 as int, g, p)
                        && !spec_list_has_upto(list@, i as int, j as int, g, p) {
                        assert(list@[i as int].group@ == g
                            && list@[i as int].perms@[j as int]@ == p);
                        assert(spec_rows_key(out@, g, p));
                    }
                }
                assert forall|g: Seq<char>, p: Seq<char>| #[trigger] spec_rows_have(
                    out@, g, p, false,
                ) == (spec_rows_have(old(out)@, g, p, false) || (!flag && spec_list_has_upto(
                    list@, i as int, j + 1 as int, g, p,
                ))) by {
                    if spec_rows_have(out@, g, p, false) {
                        let w = choose|w: int| 0 <= w < out@.len()
                            && (#[trigger] out@[w]).group@ == g && out@[w].perm@ == p
                            && out@[w].allowed == false;
                        if w < n {
                            assert(spec_rows_have(pre, g, p, false));
                        } else {
                            assert(!flag);
                            assert(spec_list_has_upto(list@, i as int, j + 1 as int, g, p));
                        }
                    }
                    if spec_rows_have(old(out)@, g, p, false) || (!flag && spec_list_has_upto(
                        list@, i as int, j as int, g, p,
                    )) {
                        assert(spec_rows_have(pre, g, p, false));
                        let w = choose|w: int| 0 <= w < pre.len()
                            && (#[trigger] pre[w]).group@ == g && pre[w].perm@ == p
                            && pre[w].allowed == false;
                        assert(out@[w].group@ == g && out@[w].perm@ == p
                            && out@[w].allowed == false);
                    }
                    if !flag && spec_list_has_upto(list@, i as int, j + 1 as int, g, p)
                        && !spec_list_has_upto(list@, i as int, j as int, g, p) {
                        assert(out@[n].allowed == false);
                        assert(spec_rows_have(out@, g, p, false));
                    }
                }
            }
            j = j + 1;
        }
        proof {
            assert forall|g: Seq<char>, p: Seq<char>| spec_list_has_upto(
                list@, i as int, j as int, g, p,
            ) == spec_list_has_upto(list@, i + 1 as int, 0, g, p) by {}
        }
        i = i + 1;
    }
    proof {
        assert forall|g: Seq<char>, p: Seq<char>| spec_list_has_upto(
            list@, list@.len() as int, 0, g, p,
        ) == spec_list_has(list@, g, p) by {}
    }
    Ok(())
}


/// Merges flag-carrying rows (all allow rows before all deny rows) into
/// sorted unique rows; on a repeated pair the later flag wins, so deny
/// overrides allow.
fn merge_triples(triples: &Vec<PermRow>) -> (rows: Vec<PermRow>)
    requires
        forall|i: int, j: int|
            0 <= i < j < triples@.len() && !(#[trigger] triples@[i]).allowed
                ==> !(#[trigger] triples@[j]).allowed,
    ensures
        spec_rows_sorted(rows@),
        forall|g: Seq<char>, p: Seq<char>| #[trigger] spec_rows_key(rows@, g, p)
            == spec_rows_key(triples@, g, p),
        forall|i: int| 0 <= i < rows@.len() ==> (#[trigger] rows@[i]).allowed
            == !spec_rows_have(triples@, rows@[i].group@, rows@[i].perm@, false),
{
    let mut rows: Vec<PermRow> = Vec::new();
    let mut n: usize = 0;
    while n < triples.len()
        invariant
            n <= triples@.len(),
            forall|i: int, j: int|
                0 <= i < j < triples@.len() && !(#[trigger] triples@[i]).allowed
                    ==> !(#[trigger] triples@[j]).allowed,
            spec_rows_sorted(rows@),
            forall|g: Seq<char>, p: Seq<char>| #[trigger] spec_rows_key(rows@, g, p)
                == spec_rows_key(triples@.take(n as int), g, p),
            forall|i: int| 0 <= i < rows@.len() ==> (#[trigger] rows@[i]).allowed
                == !spec_rows_have(triples@.take(n as int), rows@[i].group@, rows@[i].perm@, false),
        decreases triples@.len() - n,
    {
        let t = &triples[n];
        let ghost pre = rows@;
        let ghost tk_g = t.group@;
        let ghost tk_p = t.perm@;
        let mut idx: usize = 0;
        let mut stop = false;
        while !stop && idx < rows.len()
            invariant
                idx <= rows@.len(),
                rows@ == pre,
                t.group@ == tk_g,
                t.perm@ == tk_p,
                forall|m: int| 0 <= m < idx ==> pair_lt(
                    (#[trigger] rows@[m]).group@,
                    rows@[m].perm@,
                    tk_g,
                    tk_p,
                ),
                stop ==> idx < rows@.len() && !pair_lt(
                    rows@[idx as int].group@,
                    rows@[idx as int].perm@,
                    tk_g,
                    tk_p,
                ),
            decreases rows@.len() - idx, (if stop { 0int } else { 1int }),
        {
            let row = &rows[idx];
            proof {
                assert(row.group@ == rows@[idx as int].group@);
                assert(t.group@ == tk_g && t.perm@ == tk_p);
            }
            let c = key_cmp(
                row.group.as_str(),
                row.perm.as_str(),
                t.group.as_str(),
                t.perm.as_str(),
            );
            if c < 0 {
                proof {
                    assert(pair_lt(rows@[idx as int].group@, rows@[idx as int].perm@, tk_g, tk_p));
                }
                idx = idx + 1;
            } else {
                proof {
                    assert(!pair_lt(rows@[idx as int].group@, rows@[idx as int].perm@, tk_g, tk_p));
                }
                stop = true;
            }
        }
        proof {
            assert(triples@.take(n + 1 as int).take(n as int) =~= triples@.take(n as int));
            assert(triples@.take(n + 1 as int)[n as int] == triples@[n as int]);
        }
        if idx < rows.len() {
            let c = key_cmp(
                rows[idx].group.as_str(),
                rows[idx].perm.as_str(),
                t.group.as_str(),
                t.perm.as_str(),
            );
            if c == 0 {
                // The pair is already present: the later flag wins.
                rows.set(
                    idx,
                    PermRow { group: t.group.clone(), perm: t.perm.clone(), allowed: t.allowed },
                );
                proof {
                    let nr = rows@;
                    let nx = triples@.take(n + 1 as int);
                    assert(nr.len() == pre.len());
                    assert(forall|m: int| 0 <= m < nr.len() && m != idx ==> nr[m] == pre[m]);
                    assert(nr[idx as int].group@ == pre[idx as int].group@
                        && nr[idx as int].perm@ == pre[idx as int].perm@);
                    assert(spec_rows_sorted(nr)) by {
                        assert(forall|i: int| 0 <= i < nr.len()
                            ==> (#[trigger] nr[i]).group@ == pre[i].group@
                                && nr[i].perm@ == pre[i].perm@);
                    }
                    assert forall|g: Seq<char>, p: Seq<char>| #[trigger] spec_rows_key(nr, g, p)
                        == spec_rows_key(nx, g, p) by {
                        assert(spec_rows_key(nr, g, p) == spec_rows_key(pre, g, p)) by {
                            if spec_rows_key(nr, g, p) {
                                let w = choose|w: int| 0 <= w < nr.len()
                                    && (#[trigger] nr[w]).group@ == g && nr[w].perm@ == p;
                                assert(pre[w].group@ == g && pre[w].perm@ == p);
                            }
                            if spec_rows_key(pre, g, p) {
                                let w = choose|w: int| 0 <= w < pre.len()
                                    && (#[trigger] pre[w]).group@ == g && pre[w].perm@ == p;
                                assert(nr[w].group@ == g && nr[w].perm@ == p);
                            }
                        }
                        if spec_rows_key(nx, g, p) && !spec_rows_key(triples@.take(n as int), g, p) {
                            assert(g == tk_g && p == tk_p);
                            assert(spec_rows_key(pre, tk_g, tk_p));
                        }
                        if g == tk_g && p == tk_p {
                            assert(nx[n as int].group@ == g && nx[n as int].perm@ == p);
                            assert(spec_rows_key(nx, g, p));
                        }
                    }
                    assert forall|i: int| 0 <= i < nr.len() implies (#[trigger] nr[i]).allowed
                        == !spec_rows_have(nx, nr[i].group@, nr[i].perm@, false) by {
                        if i != idx {
                            assert(pair_lt(nr[i].group@, nr[i].perm@, tk_g, tk_p) || pair_lt(
                                tk_g, tk_p, nr[i].group@, nr[i].perm@,
                            )) by {
                                if i < idx {
                                } else {
                                    assert(pair_lt(pre[idx as int].group@, pre[idx as int].perm@,
                                        nr[i].group@, nr[i].perm@));
                                }
                            }
                            assert(!(nr[i].group@ == tk_g && nr[i].perm@ == tk_p)) by {
                                lemma_lex_lt_asym(nr[i].group@, tk_g);
                                lemma_lex_lt_asym(nr[i].perm@, tk_p);
                            }
                            assert(spec_rows_have(nx, nr[i].group@, nr[i].perm@, false)
                                == spec_rows_have(triples@.take(n as int), nr[i].group@,
                                    nr[i].perm@, false)) by {
                                if spec_rows_have(nx, nr[i].group@, nr[i].perm@, false) {
                                    let w = choose|w: int| 0 <= w < nx.len()
                                        && (#[trigger] nx[w]).group@ == nr[i].group@
                                        && nx[w].perm@ == nr[i].perm@ && nx[w].allowed == false;
                                    assert(w < n);
                                    assert(triples@.take(n as int)[w] == nx[w]);
                                }
                                if spec_rows_have(triples@.take(n as int), nr[i].group@,
                                    nr[i].perm@, false) {
                                    let w = choose|w: int| 0 <= w < n
                                        && (#[trigger] triples@.take(n as int)[w]).group@
                                            == nr[i].group@
                                        && triples@.take(n as int)[w].perm@ == nr[i].perm@
                                        && triples@.take(n as int)[w].allowed == false;
                                    assert(nx[w] == triples@.take(n as int)[w]);
                                }
                            }
                        } else {
                            if t.allowed {
                                assert(forall|m: int| 0 <= m < n
                                    ==> (#[trigger] triples@[m]).allowed) by {
                                    assert forall|m: int| 0 <= m < n implies (
                                        #[trigger] triples@[m]).allowed by {
                                        if !triples@[m].allowed {
                                            assert(!triples@[n as int].allowed);
                                        }
                                    }
                                }
                                assert(!spec_rows_have(nx, tk_g, tk_p, false)) by {
                                    if spec_rows_have(nx, tk_g, tk_p, false) {
                                        let w = choose|w: int| 0 <= w < nx.len()
                                            && (#[trigger] nx[w]).group@ == tk_g
                                            && nx[w].perm@ == tk_p && nx[w].allowed == false;
                                        assert(nx[w] == triples@[w]);
                                    }
                                }
                            } else {
                                assert(nx[n as int].allowed == false);
                                assert(spec_rows_have(nx, tk_g, tk_p, false));
                            }
                        }
                    }
                }
            } else {
                // The pair is new: insert it in order.
                proof {
                    assert(pair_lt(tk_g, tk_p, pre[idx as int].group@, pre[idx as int].perm@));
                }
                rows.insert(
                    idx,
                    PermRow { group: t.group.clone(), perm: t.perm.clone(), allowed: t.allowed },
                );
                proof {
                    lemma_merge_insert(pre, rows@, triples@, n as int, idx as int);
                }
            }
        } else {
            rows.insert(
                idx,
                PermRow { group: t.group.clone(), perm: t.perm.clone(), allowed: t.allowed },
            );
            proof {
                lemma_merge_insert(pre, rows@, triples@, n as int, idx as int);
            }
        }
        n = n + 1;
    }
    proof {
        assert(triples@.take(triples@.len() as int) =~= triples@);
    }
    rows
}

/// Re-establishes the merge loop's facts after inserting a new pair at
/// its ordered position.
proof fn lemma_merge_insert(pre: Seq<PermRow>, nr: Seq<PermRow>, triples: Seq<PermRow>, n: int, idx: int)
    requires
        0 <= n < triples.len(),
        0 <= idx <= pre.len(),
        nr == pre.insert(idx, nr[idx]),
        nr.len() == pre.len() + 1,
        nr[idx].group@ == triples[n].group@,
        nr[idx].perm@ == triples[n].perm@,
        nr[idx].allowed == triples[n].allowed,
        forall|i: int, j: int|
            0 <= i < j < triples.len() && !(#[trigger] triples[i]).allowed
                ==> !(#[trigger] triples[j]).allowed,
        spec_rows_sorted(pre),
        forall|m: int| 0 <= m < idx ==> pair_lt(
            (#[trigger] pre[m]).group@, pre[m].perm@, triples[n].group@, triples[n].perm@,
        ),
        idx < pre.len() ==> pair_lt(
            triples[n].group@, triples[n].perm@, pre[idx].group@, pre[idx].perm@,
        ),
        forall|g: Seq<char>, p: Seq<char>| #[trigger] spec_rows_key(pre, g, p)
            == spec_rows_key(triples.take(n), g, p),
        forall|i: int| 0 <= i < pre.len() ==> (#[trigger] pre[i]).allowed
            == !spec_rows_have(triples.take(n), pre[i].group@, pre[i].perm@, false),
    ensures
        spec_rows_sorted(nr),
        forall|g: Seq<char>, p: Seq<char>| #[trigger] spec_rows_key(nr, g, p)
            == spec_rows_key(triples.take(n + 1), g, p),
        forall|i: int| 0 <= i < nr.len() ==> (#[trigger] nr[i]).allowed
            == !spec_rows_have(triples.take(n + 1), nr[i].group@, nr[i].perm@, false),
{
    let tk_g = triples[n].group@;
    let tk_p = triples[n].perm@;
    let nx = triples.take(n + 1);
    assert(nx.take(n) =~= triples.take(n));
    assert(nx[n] == triples[n]);
    assert(forall|m: int| 0 <= m < idx ==> nr[m] == pre[m]);
    assert(forall|m: int| idx < m < nr.len() ==> nr[m] == pre[m - 1]);
    // The inserted pair is genuinely new.
    assert(!spec_rows_key(pre, tk_g, tk_p)) by {
        if spec_rows_key(pre, tk_g, tk_p) {
            let w = choose|w: int| 0 <= w < pre.len() && (#[trigger] pre[w]).group@ == tk_g
                && pre[w].perm@ == tk_p;
            if w < idx {
                assert(pair_lt(tk_g, tk_p, tk_g, tk_p));
                lemma_lex_lt_asym(tk_g, tk_g);
                lemma_lex_lt_asym(tk_p, tk_p);
            } else if w == idx {
                assert(pair_lt(tk_g, tk_p, tk_g, tk_p));
                lemma_lex_lt_asym(tk_g, tk_g);
                lemma_lex_lt_asym(tk_p, tk_p);
            } else {
                assert(pair_lt(pre[idx].group@, pre[idx].perm@, pre[w].group@, pre[w].perm@));
                assert(pair_lt(tk_g, tk_p, pre[idx].group@, pre[idx].perm@));
                lemma_pair_lt_trans(tk_g, tk_p, pre[idx].group@, pre[idx].perm@, pre[w].group@,
                    pre[w].perm@);
                lemma_lex_lt_asym(tk_g, tk_g);
                lemma_lex_lt_asym(tk_p, tk_p);
            }
        }
    }
    // Sortedness.
    assert forall|i: int, j: int| 0 <= i < j < nr.len() implies pair_lt(
        (#[trigger] nr[i]).group@, nr[i].perm@, (#[trigger] nr[j]).group@, nr[j].perm@,
    ) by {
        if i < idx && j < idx {
        } else if i < idx && j == idx {
        } else if i < idx && j > idx {
            if i < j - 1 {
            } else {
                assert(i == j - 1 && i < idx && j > idx);
            }
        } else if i == idx {
            assert(j > idx);
            if j - 1 == idx {
                assert(nr[j] == pre[idx]);
            } else {
                assert(pair_lt(pre[idx].group@, pre[idx].perm@, pre[j - 1].group@,
                    pre[j - 1].perm@));
                lemma_pair_lt_trans(tk_g, tk_p, pre[idx].group@, pre[idx].perm@,
                    pre[j - 1].group@, pre[j - 1].perm@);
            }
        } else {
        }
    }
    // Key coverage.
    assert forall|g: Seq<char>, p: Seq<char>| #[trigger] spec_rows_key(nr, g, p)
        == spec_rows_key(nx, g, p) by {
        if spec_rows_key(nr, g, p) {
            let w = choose|w: int| 0 <= w < nr.len() && (#[trigger] nr[w]).group@ == g
                && nr[w].perm@ == p;
            if w == idx {
                assert(nx[n].group@ == g && nx[n].perm@ == p);
                assert(spec_rows_key(nx, g, p));
            } else if w < idx {
                assert(spec_rows_key(pre, g, p));
                let v = choose|v: int| 0 <= v < n && (#[trigger] triples.take(n)[v]).group@ == g
                    && triples.take(n)[v].perm@ == p;
                assert(nx[v] == triples.take(n)[v]);
                assert(spec_rows_key(nx, g, p));
            } else {
                assert(pre[w - 1].group@ == g && pre[w - 1].perm@ == p);
                assert(spec_rows_key(pre, g, p));
                let v = choose|v: int| 0 <= v < n && (#[trigger] triples.take(n)[v]).group@ == g
                    && triples.take(n)[v].perm@ == p;
                assert(nx[v] == triples.take(n)[v]);
                assert(spec_rows_key(nx, g, p));
            }
        }
        if spec_rows_key(nx, g, p) {
            let w = choose|w: int| 0 <= w < nx.len() && (#[trigger] nx[w]).group@ == g
                && nx[w].perm@ == p;
            if w == n {
                assert(nr[idx].group@ == g && nr[idx].perm@ == p);
                assert(spec_rows_key(nr, g, p));
            } else {
                assert(triples.take(n)[w] == nx[w]);
                assert(spec_rows_key(triples.take(n), g, p));
                assert(spec_rows_key(pre, g, p));
                let v = choose|v: int| 0 <= v < pre.len() && (#[trigger] pre[v]).group@ == g
                    && pre[v].perm@ == p;
                if v < idx {
                    assert(nr[v].group@ == g && nr[v].perm@ == p);
                } else {
                    assert(nr[v + 1].group@ == g && nr[v + 1].perm@ == p);
                }
                assert(spec_rows_key(nr, g, p));
            }
        }
    }
    // Flags.
    assert forall|i: int| 0 <= i < nr.len() implies (#[trigger] nr[i]).allowed
        == !spec_rows_have(nx, nr[i].group@, nr[i].perm@, false) by {
        if i == idx {
            if triples[n].allowed {
                assert(forall|m: int| 0 <= m < n ==> (#[trigger] triples[m]).allowed) by {
                    assert forall|m: int| 0 <= m < n implies (#[trigger] triples[m]).allowed by {
                        if !triples[m].allowed {
                            assert(!triples[n].allowed);
                        }
                    }
                }
                assert(!spec_rows_have(nx, tk_g, tk_p, false)) by {
                    if spec_rows_have(nx, tk_g, tk_p, false) {
                        let w = choose|w: int| 0 <= w < nx.len() && (#[trigger] nx[w]).group@
                            == tk_g && nx[w].perm@ == tk_p && nx[w].allowed == false;
                        assert(nx[w] == triples[w]);
                    }
                }
            } else {
                assert(nx[n].allowed == false);
                assert(spec_rows_have(nx, tk_g, tk_p, false));
            }
        } else {
            let oi = if i < idx { i } else { i - 1 };
            assert(nr[i] == pre[oi]);
            assert(!(nr[i].group@ == tk_g && nr[i].perm@ == tk_p)) by {
                if nr[i].group@ == tk_g && nr[i].perm@ == tk_p {
                    assert(spec_rows_key(pre, tk_g, tk_p));
                }
            }
            assert(spec_rows_have(nx, nr[i].group@, nr[i].perm@, false)
                == spec_rows_have(triples.take(n), nr[i].group@, nr[i].perm@, false)) by {
                if spec_rows_have(nx, nr[i].group@, nr[i].perm@, false) {
                    let w = choose|w: int| 0 <= w < nx.len() && (#[trigger] nx[w]).group@
                        == nr[i].group@ && nx[w].perm@ == nr[i].perm@ && nx[w].allowed == false;
                    assert(w < n);
                    assert(triples.take(n)[w] == nx[w]);
                }
                if spec_rows_have(triples.take(n), nr[i].group@, nr[i].perm@, false) {
                    let w = choose|w: int| 0 <= w < n && (#[trigger] triples.take(n)[w]).group@
                        == nr[i].group@ && triples.take(n)[w].perm@ == nr[i].perm@
                        && triples.take(n)[w].allowed == false;
                    assert(nx[w] == triples.take(n)[w]);
                }
            }
        }
    }
}


/// One generated configuration line:
/// `$wgGroupPermissions['g']['p'] = true|false;`.
pub open spec fn spec_php_line(g: Seq<char>, p: Seq<char>, a: bool) -> Seq<char> {
    "$wgGroupPermissions['"@ + g + "']['"@ + p + "'] = "@ + (if a { "true"@ } else { "false"@ })
        + ";\n"@
}

/// The generated lines of a row sequence, in row order.
pub open spec fn spec_php_lines(rows: Seq<PermRow>) -> Seq<char>
    decreases rows.len(),
{
    if rows.len() == 0 {
        Seq::<char>::empty()
    } else {
        spec_php_line(rows[0].group@, rows[0].perm@, rows[0].allowed) + spec_php_lines(
            rows.skip(1),
        )
    }
}

/// The whole generated file: the fixed banner, the timestamp line, and
/// one line per row in row order.
pub open spec fn spec_php_text(ts: Seq<char>, rows: Seq<PermRow>) -> Seq<char> {
    "<?php\n// Auto-generated permissions file. Do NOT edit manually.\n// Generated at "@ + ts
        + "Z\n"@ + spec_php_lines(rows)
}

/// The generated lines distribute over concatenation.
proof fn lemma_php_lines_append(a: Seq<PermRow>, b: Seq<PermRow>)
    ensures
        spec_php_lines(a + b) == spec_php_lines(a) + spec_php_lines(b),
    decreases a.len(),
{
    if a.len() == 0 {
        assert(a + b =~= b);
        assert(spec_php_lines(a) + spec_php_lines(b) =~= spec_php_lines(b));
    } else {
        let t = a.skip(1);
        lemma_php_lines_append(t, b);
        assert((a + b).skip(1) =~= t + b);
        assert((a + b)[0] == a[0]);
        assert(spec_php_lines(a + b) == spec_php_line(a[0].group@, a[0].perm@, a[0].allowed) + (
        spec_php_lines(t) + spec_php_lines(b)));
        assert(spec_php_line(a[0].group@, a[0].perm@, a[0].allowed) + (spec_php_lines(t)
            + spec_php_lines(b)) =~= (spec_php_line(a[0].group@, a[0].perm@, a[0].allowed)
            + spec_php_lines(t)) + spec_php_lines(b));
    }
}

/// Renders the generated permissions file, exactly as `spec_php_text`
/// states it.
pub fn php_text(ts: &str, rows: &Vec<PermRow>) -> (r: String)
    ensures
        r@ == spec_php_text(ts@, rows@),
{
    let mut out: Vec<char> = Vec::new();
    append_str(
        &mut out,
        "<?php\n// Auto-generated permissions file. Do NOT edit manually.\n// Generated at ",
    );
    append_str(&mut out, ts);
    append_str(&mut out, "Z\n");
    let ghost head = out@;
    let mut i: usize = 0;
    proof {
        assert(out@ =~= head + spec_php_lines(rows@.take(0)));
    }
    while i < rows.len()
        invariant
            i <= rows@.len(),
            out@ == head + spec_php_lines(rows@.take(i as int)),
            head == "<?php\n// Auto-generated permissions file. Do NOT edit manually.\n// Generated at "@
                + ts@ + "Z\n"@,
        decreases rows@.len() - i,
    {
        let row = &rows[i];
        append_str(&mut out, "$wgGroupPermissions['");
        append_str(&mut out, row.group.as_str());
        append_str(&mut out, "']['");
        append_str(&mut out, row.perm.as_str());
        append_str(&mut out, "'] = ");
        append_str(&mut out, if row.allowed { "true" } else { "false" });
        append_str(&mut out, ";\n");
        proof {
            let pre = rows@.take(i as int);
            let one = seq![rows@[i as int]];
            lemma_php_lines_append(pre, one);
            assert(one.skip(1) =~= Seq::<PermRow>::empty());
            assert(spec_php_lines(Seq::<PermRow>::empty()) =~= Seq::<char>::empty());
            assert(spec_php_lines(one) == spec_php_line(one[0].group@, one[0].perm@,
                one[0].allowed) + spec_php_lines(one.skip(1)));
            assert(spec_php_lines(one) =~= spec_php_line(rows@[i as int].group@,
                rows@[i as int].perm@, rows@[i as int].allowed));
            assert(pre + one =~= rows@.take(i + 1 as int));
            assert(out@ =~= head + spec_php_lines(rows@.take(i + 1 as int)));
        }
        i = i + 1;
    }
    proof {
        assert(rows@.take(rows@.len() as int) =~= rows@);
    }
    chars_to_string(&out)
}

/// Everything a permissions write gives to the outside: the target wiki,
/// the replacement rows for the permissions table, and the generated
/// file's content.
#[derive(Debug)]
pub struct PermissionsWrite {
    pub wiki_id: u64,
    pub rows: Vec<PermRow>,
    pub php: String,
}

/// Lays out a permissions write for a wiki. Accepts exactly the documents
/// whose every group and permission name matches the whitelist; rejects
/// the rest with 400 `param_invalid`. The rows hold exactly the combined
/// pairs of the document — deny overriding allow — ordered by group,
/// then permission, each pair once; the generated file lists exactly
/// those rows in that order under the banner and timestamp.
pub fn set_wiki_permissions(wiki_id: u64, perms: &PermissionsBody, timestamp: &str) -> (r: Result<
    PermissionsWrite,
    ApiError,
>)
    ensures
        (r is Ok) == (spec_groups_valid(perms.allow@) && spec_groups_valid(perms.deny@)),
        match r {
            Ok(w) => {
                &&& w.wiki_id == wiki_id
                &&& spec_rows_sorted(w.rows@)
                &&& forall|g: Seq<char>, p: Seq<char>| #[trigger] spec_rows_key(w.rows@, g, p)
                    == (spec_list_has(perms.allow@, g, p) || spec_list_has(perms.deny@, g, p))
                &&& forall|i: int| 0 <= i < w.rows@.len() ==> (#[trigger] w.rows@[i]).allowed
                    == !spec_list_has(perms.deny@, w.rows@[i].group@, w.rows@[i].perm@)
                &&& w.php@ == spec_php_text(timestamp@, w.rows@)
            },
            Err(e) => e.status == 400 && e.code@ == "param_invalid"@,
        },
{
    let mut triples: Vec<PermRow> = Vec::new();
    match flatten_validated(&perms.allow, true, &mut triples) {
        Ok(()) => {},
        Err(e) => {
            return Err(e);
        },
    }
    match flatten_validated(&perms.deny, false, &mut triples) {
        Ok(()) => {},
        Err(e) => {
            return Err(e);
        },
    }
    let rows = merge_triples(&triples);
    let php = php_text(timestamp, &rows);
    Ok(PermissionsWrite { wiki_id, rows, php })
}

/// Relies on `chrono::Utc::now` formatted with `%Y-%m-%dT%H:%M:%S` for
/// the generated file's timestamp line; the value depends on the clock,
/// so nothing is stated of it.
#[verifier::external_body]
fn utc_now_stamp() -> (r: String)
{
    chrono::Utc::now().format("%Y-%m-%dT%H:%M:%S").to_string()
}

/// Lays out a permissions write stamped with the current time; the exact
/// layout for any given stamp is stated by `set_wiki_permissions`, which
/// this calls with the stamp.
pub fn set_wiki_permissions_now(wiki_id: u64, perms: &PermissionsBody) -> (r: Result<
    PermissionsWrite,
    ApiError,
>)
    ensures
        (r is Ok) == (spec_groups_valid(perms.allow@) && spec_groups_valid(perms.deny@)),
        match r {
            Ok(w) => {
                &&& w.wiki_id == wiki_id
                &&& spec_rows_sorted(w.rows@)
                &&& forall|g: Seq<char>, p: Seq<char>| #[trigger] spec_rows_key(w.rows@, g, p)
                    == (spec_list_has(perms.allow@, g, p) || spec_list_has(perms.deny@, g, p))
                &&& forall|i: int| 0 <= i < w.rows@.len() ==> (#[trigger] w.rows@[i]).allowed
                    == !spec_list_has(perms.deny@, w.rows@[i].group@, w.rows@[i].perm@)
                &&& exists|ts: Seq<char>| w.php@ == spec_php_text(ts, w.rows@)
            },
            Err(e) => e.status == 400 && e.code@ == "param_invalid"@,
        },
{
    let stamp = utc_now_stamp();
    match set_wiki_permissions(wiki_id, perms, stamp.as_str()) {
        Ok(w) => {
            proof {
                assert(w.php@ == spec_php_text(stamp@, w.rows@));
            }
            Ok(w)
        },
        Err(e) => Err(e),
    }
}

fn str_eq(a: &str, b: &str) -> (r: bool)
    ensures
        r == (a@ == b@),
{
    str_cmp(a, b) == 0
}

/// Reads permissions rows back into the grouped document: rows with the
/// flag set fill `allow`, the rest fill `deny`, consecutive rows of one
/// group under one entry.
pub fn rows_to_body(rows: &Vec<PermRow>) -> (r: PermissionsBody)
    ensures
        forall|g: Seq<char>, p: Seq<char>| #[trigger] spec_list_has(r.allow@, g, p)
            == spec_rows_have(rows@, g, p, true),
        forall|g: Seq<char>, p: Seq<char>| #[trigger] spec_list_has(r.deny@, g, p)
            == spec_rows_have(rows@, g, p, false),
{
    let mut allow: Vec<GroupPerms> = Vec::new();
    let mut deny: Vec<GroupPerms> = Vec::new();
    let mut n: usize = 0;
    while n < rows.len()
        invariant
            n <= rows@.len(),
            forall|g: Seq<char>, p: Seq<char>| #[trigger] spec_list_has(allow@, g, p)
                == spec_rows_have(rows@.take(n as int), g, p, true),
            forall|g: Seq<char>, p: Seq<char>| #[trigger] spec_list_has(deny@, g, p)
                == spec_rows_have(rows@.take(n as int), g, p, false),
        decreases rows@.len() - n,
    {
        let row = &rows[n];
        proof {
            assert(rows@.take(n + 1 as int).take(n as int) =~= rows@.take(n as int));
            assert(rows@.take(n + 1 as int)[n as int] == rows@[n as int]);
        }
        if row.allowed {
            push_pair(&mut allow, &row.group, &row.perm);
            proof {
                lemma_take_step_have(rows@, n as int, true);
                lemma_take_same_have(rows@, n as int, false);
            }
        } else {
            push_pair(&mut deny, &row.group, &row.perm);
            proof {
                lemma_take_step_have(rows@, n as int, false);
                lemma_take_same_have(rows@, n as int, true);
            }
        }
        n = n + 1;
    }
    proof {
        assert(rows@.take(rows@.len() as int) =~= rows@);
    }
    PermissionsBody { allow, deny }
}

/// Extending the prefix by a row with flag `a` adds exactly its pair to
/// the pairs seen with flag `a`.
proof fn lemma_take_step_have(rows: Seq<PermRow>, n: int, a: bool)
    requires
        0 <= n < rows.len(),
        rows[n].allowed == a,
    ensures
        forall|g: Seq<char>, p: Seq<char>| #[trigger] spec_rows_have(rows.take(n + 1), g, p, a)
            == (spec_rows_have(rows.take(n), g, p, a) || (g == rows[n].group@ && p
                == rows[n].perm@)),
{
    let nx = rows.take(n + 1);
    assert(nx.take(n) =~= rows.take(n));
    assert forall|g: Seq<char>, p: Seq<char>| #[trigger] spec_rows_have(nx, g, p, a)
        == (spec_rows_have(rows.take(n), g, p, a) || (g == rows[n].group@ && p
            == rows[n].perm@)) by {
        if spec_rows_have(nx, g, p, a) {
            let w = choose|w: int| 0 <= w < nx.len() && (#[trigger] nx[w]).group@ == g
                && nx[w].perm@ == p && nx[w].allowed == a;
            if w < n {
                assert(rows.take(n)[w] == nx[w]);
                assert(spec_rows_have(rows.take(n), g, p, a));
            } else {
                assert(nx[n] == rows[n]);
            }
        }
        if spec_rows_have(rows.take(n), g, p, a) {
            let w = choose|w: int| 0 <= w < n && (#[trigger] rows.take(n)[w]).group@ == g
                && rows.take(n)[w].perm@ == p && rows.take(n)[w].allowed == a;
            assert(nx[w] == rows.take(n)[w]);
            assert(spec_rows_have(nx, g, p, a));
        }
        if g == rows[n].group@ && p == rows[n].perm@ {
            assert(nx[n] == rows[n]);
            assert(spec_rows_have(nx, g, p, a));
        }
    }
}

/// Extending the prefix by a row with the other flag leaves the pairs
/// seen with flag `a` unchanged.
proof fn lemma_take_same_have(rows: Seq<PermRow>, n: int, a: bool)
    requires
        0 <= n < rows.len(),
        rows[n].allowed != a,
    ensures
        forall|g: Seq<char>, p: Seq<char>| #[trigger] spec_rows_have(rows.take(n + 1), g, p, a)
            == spec_rows_have(rows.take(n), g, p, a),
{
    let nx = rows.take(n + 1);
    assert(nx.take(n) =~= rows.take(n));
    assert forall|g: Seq<char>, p: Seq<char>| #[trigger] spec_rows_have(nx, g, p, a)
        == spec_rows_have(rows.take(n), g, p, a) by {
        if spec_rows_have(nx, g, p, a) {
            let w = choose|w: int| 0 <= w < nx.len() && (#[trigger] nx[w]).group@ == g
                && nx[w].perm@ == p && nx[w].allowed == a;
            assert(w < n);
            assert(rows.take(n)[w] == nx[w]);
        }
        if spec_rows_have(rows.take(n), g, p, a) {
            let w = choose|w: int| 0 <= w < n && (#[trigger] rows.take(n)[w]).group@ == g
                && rows.take(n)[w].perm@ == p && rows.take(n)[w].allowed == a;
            assert(nx[w] == rows.take(n)[w]);
        }
    }
}

/// Appends one `(group, perm)` pair to a grouped list, extending the last
/// entry when it already carries the group.
fn push_pair(list: &mut Vec<GroupPerms>, group: &String, perm: &String)
    ensures
        forall|g: Seq<char>, p: Seq<char>| #[trigger] spec_list_has(final(list)@, g, p)
            == (spec_list_has(old(list)@, g, p) || (g == group@ && p == perm@)),
{
    let ghost pre = list@;
    let len = list.len();
    if len > 0 && str_eq(list[len - 1].group.as_str(), group.as_str()) {
        let mut gp = match list.pop() {
            Some(gp) => gp,
            None => GroupPerms { group: group.clone(), perms: Vec::new() },
        };
        gp.perms.push(perm.clone());
        list.push(gp);
        proof {
            let nl = list@;
            assert(nl.len() == pre.len());
            assert(forall|m: int| 0 <= m < nl.len() - 1 ==> nl[m] == pre[m]);
            let li = nl.len() - 1;
            assert(nl[li].group@ == pre[li].group@);
            assert(nl[li].perms@ =~= pre[li].perms@ + seq![*perm]);
            assert forall|g: Seq<char>, p: Seq<char>| #[trigger] spec_list_has(nl, g, p)
                == (spec_list_has(pre, g, p) || (g == group@ && p == perm@)) by {
                if spec_list_has(nl, g, p) {
                    let (i, j) = choose|i: int, j: int| 0 <= i < nl.len()
                        && 0 <= j < nl[i].perms@.len() && nl[i].group@ == g
                        && (#[trigger] nl[i].perms@[j])@ == p;
                    if i < li {
                        assert(pre[i].group@ == g && pre[i].perms@[j]@ == p);
                        assert(spec_list_has(pre, g, p));
                    } else {
                        if j < pre[li].perms@.len() {
                            assert(pre[li].group@ == g && pre[li].perms@[j]@ == p);
                            assert(spec_list_has(pre, g, p));
                        } else {
                            assert(nl[li].perms@[j] == *perm);
                            assert(g == group@ && p == perm@);
                        }
                    }
                }
                if spec_list_has(pre, g, p) {
                    let (i, j) = choose|i: int, j: int| 0 <= i < pre.len()
                        && 0 <= j < pre[i].perms@.len() && pre[i].group@ == g
                        && (#[trigger] pre[i].perms@[j])@ == p;
                    if i < li {
                        assert(nl[i].group@ == g && nl[i].perms@[j]@ == p);
                    } else {
                        assert(nl[li].group@ == g && nl[li].perms@[j]@ == p);
                    }
                    assert(spec_list_has(nl, g, p));
                }
                if g == group@ && p == perm@ {
                    assert(nl[li].group@ == g);
                    assert(nl[li].perms@[nl[li].perms@.len() - 1]@ == p);
                    assert(spec_list_has(nl, g, p));
                }
            }
        }
    } else {
        let mut perms: Vec<String> = Vec::new();
        perms.push(perm.clone());
        list.push(GroupPerms { group: group.clone(), perms });
        proof {
            let nl = list@;
            let li = nl.len() - 1;
            assert(forall|m: int| 0 <= m < li ==> nl[m] == pre[m]);
            assert(nl[li].group@ == group@);
            assert(nl[li].perms@.len() == 1 && nl[li].perms@[0]@ == perm@);
            assert forall|g: Seq<char>, p: Seq<char>| #[trigger] spec_list_has(nl, g, p)
                == (spec_list_has(pre, g, p) || (g == group@ && p == perm@)) by {
                if spec_list_has(nl, g, p) {
                    let (i, j) = choose|i: int, j: int| 0 <= i < nl.len()
                        && 0 <= j < nl[i].perms@.len() && nl[i].group@ == g
                        && (#[trigger] nl[i].perms@[j])@ == p;
                    if i < li {
                        assert(pre[i].group@ == g && pre[i].perms@[j]@ == p);
                        assert(spec_list_has(pre, g, p));
                    } else {
                        assert(g == group@ && p == perm@);
                    }
                }
                if spec_list_has(pre, g, p) {
                    let (i, j) = choose|i: int, j: int| 0 <= i < pre.len()
                        && 0 <= j < pre[i].perms@.len() && pre[i].group@ == g
                        && (#[trigger] pre[i].perms@[j])@ == p;
                    assert(nl[i].group@ == g && nl[i].perms@[j]@ == p);
                    assert(spec_list_has(nl, g, p));
                }
                if g == group@ && p == perm@ {
                    assert(spec_list_has(nl, g, p));
                }
            }
        }
    }
}

/// Write-then-read preserves the permissions map: for rows laid out from
/// a grouped document and a document read back from those rows, the read
/// `deny` names exactly the document's denied pairs, and the read `allow`
/// names exactly the document's pairs that were not denied — the same
/// effective map, with pairs both allowed and denied settled as denied.
pub proof fn lemma_permissions_roundtrip(
    body: &PermissionsBody,
    rows: Seq<PermRow>,
    out: &PermissionsBody,
)
    requires
        forall|g: Seq<char>, p: Seq<char>| #[trigger] spec_rows_key(rows, g, p)
            == (spec_list_has(body.allow@, g, p) || spec_list_has(body.deny@, g, p)),
        forall|i: int| 0 <= i < rows.len() ==> (#[trigger] rows[i]).allowed
            == !spec_list_has(body.deny@, rows[i].group@, rows[i].perm@),
        forall|g: Seq<char>, p: Seq<char>| #[trigger] spec_list_has(out.allow@, g, p)
            == spec_rows_have(rows, g, p, true),
        forall|g: Seq<char>, p: Seq<char>| #[trigger] spec_list_has(out.deny@, g, p)
            == spec_rows_have(rows, g, p, false),
    ensures
        forall|g: Seq<char>, p: Seq<char>| #[trigger] spec_list_has(out.deny@, g, p)
            == spec_list_has(body.deny@, g, p),
        forall|g: Seq<char>, p: Seq<char>| #[trigger] spec_list_has(out.allow@, g, p)
            == (spec_list_has(body.allow@, g, p) && !spec_list_has(body.deny@, g, p)),
{
    assert forall|g: Seq<char>, p: Seq<char>| #[trigger] spec_list_has(out.deny@, g, p)
        == spec_list_has(body.deny@, g, p) by {
        if spec_rows_have(rows, g, p, false) {
            let w = choose|w: int| 0 <= w < rows.len() && (#[trigger] rows[w]).group@ == g
                && rows[w].perm@ == p && rows[w].allowed == false;
            assert(spec_list_has(body.deny@, g, p));
        }
        if spec_list_has(body.deny@, g, p) {
            assert(spec_rows_key(rows, g, p));
            let w = choose|w: int| 0 <= w < rows.len() && (#[trigger] rows[w]).group@ == g
                && rows[w].perm@ == p;
            assert(rows[w].allowed == false);
            assert(spec_rows_have(rows, g, p, false));
        }
    }
    assert forall|g: Seq<char>, p: Seq<char>| #[trigger] spec_list_has(out.allow@, g, p)
        == (spec_list_has(body.allow@, g, p) && !spec_list_has(body.deny@, g, p)) by {
        if spec_rows_have(rows, g, p, true) {
            let w = choose|w: int| 0 <= w < rows.len() && (#[trigger] rows[w]).group@ == g
                && rows[w].perm@ == p && rows[w].allowed == true;
            assert(spec_rows_key(rows, g, p));
            assert(!spec_list_has(body.deny@, g, p));
        }
        if spec_list_has(body.allow@, g, p) && !spec_list_has(body.deny@, g, p) {
            assert(spec_rows_key(rows, g, p));
            let w = choose|w: int| 0 <= w < rows.len() && (#[trigger] rows[w]).group@ == g
                && rows[w].perm@ == p;
            assert(rows[w].allowed == true);
            assert(spec_rows_have(rows, g, p, true));
        }
    }
}

} // verus!
