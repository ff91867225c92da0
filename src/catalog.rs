//! The catalog of candidate repositories: which of them are old enough, and
//! in what order they are offered (oldest first).

use vstd::prelude::*;
use crate::date::{Date, date_before, ymd_parse, chrono_parse_ymd};

verus! {

broadcast use {
    vstd::seq_lib::group_seq_properties,
    vstd::seq_lib::group_filter_ensures,
    vstd::multiset::group_multiset_axioms,
};

/// A repository as the hosting service lists it. Timestamps are ISO-8601
/// strings whose first ten characters are `YYYY-MM-DD`.
#[derive(Clone, Debug)]
pub struct Repo {
    pub name: String,
    pub created_at: String,
    pub pushed_at: String,
    pub description: Option<String>,
}

/// A repository with the day it was created, where that could be read.
#[derive(Clone, Debug)]
pub struct Dated {
    pub repo: Repo,
    pub created: Option<Date>,
}

/// The day a repository was created, read from the first ten characters of
/// its creation timestamp; `None` where they are not a date.
pub open spec fn created_date(r: Repo) -> Option<Date> {
    if r.created_at@.len() >= 10 {
        ymd_parse(r.created_at@.subrange(0, 10))
    } else {
        None
    }
}

/// A repository with its creation day.
pub open spec fn dated(r: Repo) -> Dated {
    Dated { repo: r, created: created_date(r) }
}

/// Each repository with its creation day.
pub open spec fn dated_all(repos: Seq<Repo>) -> Seq<Dated> {
    repos.map_values(|r: Repo| dated(r))
}

/// The repositories of the entries.
pub open spec fn repos_of(items: Seq<Dated>) -> Seq<Repo> {
    items.map_values(|d: Dated| d.repo)
}

/// An entry qualifies when its repository was created before the cutoff.
pub open spec fn qualifies(r: Dated, cutoff: Date) -> bool {
    match r.created {
        Some(d) => date_before(d, cutoff),
        None => false,
    }
}

/// The day an entry is ordered by.
pub open spec fn sort_key(r: Dated) -> Date {
    match r.created {
        Some(d) => d,
        None => Date { year: 0, month: 0, day: 0 },
    }
}

/// `a` is ordered no later than `b`.
pub open spec fn key_le(a: Dated, b: Dated) -> bool {
    !date_before(sort_key(b), sort_key(a))
}

/// The entries that qualify, in their given order.
pub open spec fn qualifying(items: Seq<Dated>, cutoff: Date) -> Seq<Dated> {
    items.filter(|r: Dated| qualifies(r, cutoff))
}

/// Ascending by creation day.
pub open spec fn sorted_by_date(s: Seq<Dated>) -> bool {
    forall|i: int, j: int| 0 <= i < j < s.len() ==> key_le(#[trigger] s[i], #[trigger] s[j])
}

/// `x` placed into `s` after every element that is ordered no later than it,
/// counting from the end: after the last one whose day is not later.
pub open spec fn insert_by_date(s: Seq<Dated>, x: Dated) -> Seq<Dated>
    decreases s.len(),
{
    if s.len() == 0 {
        seq![x]
    } else if key_le(s.last(), x) {
        s.push(x)
    } else {
        insert_by_date(s.drop_last(), x).push(s.last())
    }
}

/// The stable ordering of `s` by creation day: elements with the same day
/// keep their relative order.
pub open spec fn sort_by_date(s: Seq<Dated>) -> Seq<Dated>
    decreases s.len(),
{
    if s.len() == 0 {
        s
    } else {
        insert_by_date(sort_by_date(s.drop_last()), s.last())
    }
}

/// The catalog drawn from `items` for `cutoff`: the qualifying entries,
/// oldest first.
pub open spec fn filtered(items: Seq<Dated>, cutoff: Date) -> Seq<Dated> {
    sort_by_date(qualifying(items, cutoff))
}

/// Where `insert_by_date` places `x`.
pub open spec fn insert_pos(s: Seq<Dated>, x: Dated) -> int
    decreases s.len(),
{
    if s.len() == 0 {
        0
    } else if key_le(s.last(), x) {
        s.len() as int
    } else {
        insert_pos(s.drop_last(), x)
    }
}

/// A position whose followers all come strictly later than `x` and whose
/// predecessor does not.
pub open spec fn is_insert_pos(s: Seq<Dated>, x: Dated, p: int) -> bool {
    &&& 0 <= p <= s.len()
    &&& forall|j: int| p <= j < s.len() ==> !key_le(#[trigger] s[j], x)
    &&& p > 0 ==> key_le(s[p - 1], x)
}

proof fn lemma_insert_pos(s: Seq<Dated>, x: Dated)
    ensures
        is_insert_pos(s, x, insert_pos(s, x)),
    decreases s.len(),
{
    if s.len() > 0 && !key_le(s.last(), x) {
        lemma_insert_pos(s.drop_last(), x);
        let p = insert_pos(s, x);
        assert forall|j: int| p <= j < s.len() implies !key_le(#[trigger] s[j], x) by {
            if j < s.len() - 1 {
                assert(s[j] == s.drop_last()[j]);
            }
        }
        if p > 0 {
            assert(s[p - 1] == s.drop_last()[p - 1]);
        }
    }
}

proof fn lemma_insert_at(s: Seq<Dated>, x: Dated, p: int)
    requires
        is_insert_pos(s, x, p),
    ensures
        insert_by_date(s, x) == s.insert(p, x),
    decreases s.len(),
{
    if s.len() == 0 {
        assert(s.insert(p, x) =~= seq![x]);
    } else if p == s.len() {
        assert(s.insert(p, x) =~= s.push(x));
    } else {
        assert(!key_le(s[s.len() - 1], x));
        let t = s.drop_last();
        assert forall|j: int| p <= j < t.len() implies !key_le(#[trigger] t[j], x) by {
            assert(t[j] == s[j]);
        }
        if p > 0 {
            assert(t[p - 1] == s[p - 1]);
        }
        lemma_insert_at(t, x, p);
        assert(t.insert(p, x).push(s.last()) =~= s.insert(p, x));
    }
}

proof fn lemma_insert_sorted(s: Seq<Dated>, x: Dated)
    requires
        sorted_by_date(s),
    ensures
        sorted_by_date(insert_by_date(s, x)),
        insert_by_date(s, x).to_multiset() == s.to_multiset().insert(x),
{
    lemma_insert_pos(s, x);
    let p = insert_pos(s, x);
    lemma_insert_at(s, x, p);
    let r = s.insert(p, x);
    assert forall|i: int, j: int| 0 <= i < j < r.len() implies key_le(
        #[trigger] r[i],
        #[trigger] r[j],
    ) by {
        if j < p {
            assert(r[i] == s[i] && r[j] == s[j]);
        } else if j == p {
            assert(r[i] == s[i]);
            assert(key_le(s[i], s[p - 1]) || i == p - 1);
        } else if i == p {
            assert(r[j] == s[j - 1]);
        } else if i < p {
            assert(r[i] == s[i] && r[j] == s[j - 1]);
        } else {
            assert(r[i] == s[i - 1] && r[j] == s[j - 1]);
        }
    }
    assert(r.remove(p) =~= s);
    assert(r.to_multiset().remove(x) =~= s.to_multiset());
    assert(r.to_multiset().count(x) > 0) by {
        assert(r[p] == x);
        assert(r.contains(x));
    }
    assert(r.to_multiset() =~= s.to_multiset().insert(x));
}

/// The ordering is ascending by creation day and only rearranges its input.
pub proof fn lemma_sort_by_date(s: Seq<Dated>)
    ensures
        sorted_by_date(sort_by_date(s)),
        sort_by_date(s).to_multiset() == s.to_multiset(),
    decreases s.len(),
{
    if s.len() > 0 {
        lemma_sort_by_date(s.drop_last());
        lemma_insert_sorted(sort_by_date(s.drop_last()), s.last());
        assert(s.drop_last().push(s.last()) =~= s);
    }
}

/// A sequence already in order is left as it is.
pub proof fn lemma_sort_of_sorted(s: Seq<Dated>)
    requires
        sorted_by_date(s),
    ensures
        sort_by_date(s) == s,
    decreases s.len(),
{
    if s.len() > 0 {
        let t = s.drop_last();
        assert(sorted_by_date(t)) by {
            assert forall|i: int, j: int| 0 <= i < j < t.len() implies key_le(
                #[trigger] t[i],
                #[trigger] t[j],
            ) by {
                assert(t[i] == s[i] && t[j] == s[j]);
            }
        }
        lemma_sort_of_sorted(t);
        if t.len() > 0 {
            assert(key_le(s[t.len() - 1], s[s.len() - 1]));
        }
        assert(t.push(s.last()) =~= s);
    }
}

proof fn lemma_filter_all(s: Seq<Dated>, cutoff: Date)
    requires
        forall|i: int| 0 <= i < s.len() ==> qualifies(#[trigger] s[i], cutoff),
    ensures
        qualifying(s, cutoff) == s,
    decreases s.len(),
{
    if s.len() > 0 {
        let t = s.drop_last();
        assert forall|i: int| 0 <= i < t.len() implies qualifies(#[trigger] t[i], cutoff) by {
            assert(t[i] == s[i]);
        }
        lemma_filter_all(t, cutoff);
        assert(t.push(s.last()) =~= s);
        t.lemma_filter_push(s.last(), |r: Dated| qualifies(r, cutoff));
    }
}

/// Every entry in the catalog qualifies, and the catalog is ascending
/// by creation day and holds exactly the qualifying entries.
pub proof fn lemma_filtered(items: Seq<Dated>, cutoff: Date)
    ensures
        forall|i: int|
            0 <= i < filtered(items, cutoff).len() ==> qualifies(
                #[trigger] filtered(items, cutoff)[i],
                cutoff,
            ),
        sorted_by_date(filtered(items, cutoff)),
        filtered(items, cutoff).to_multiset() == qualifying(items, cutoff).to_multiset(),
{
    let q = qualifying(items, cutoff);
    let r = filtered(items, cutoff);
    lemma_sort_by_date(q);
    assert forall|i: int| 0 <= i < r.len() implies qualifies(#[trigger] r[i], cutoff) by {
        assert(r.contains(r[i]));
        assert(r.to_multiset().count(r[i]) > 0);
        assert(q.contains(r[i]));
    }
}

/// Filtering the catalog again with the same cutoff changes nothing.
pub proof fn lemma_filter_idempotent(items: Seq<Dated>, cutoff: Date)
    ensures
        filtered(filtered(items, cutoff), cutoff) == filtered(items, cutoff),
{
    let r = filtered(items, cutoff);
    lemma_filtered(items, cutoff);
    lemma_filter_all(r, cutoff);
    lemma_sort_of_sorted(r);
}

/// The catalog is ascending by creation day; where all entries carry the
/// same day it keeps their given order, and an empty list
/// gives an empty catalog.
pub proof fn lemma_filter_order(items: Seq<Dated>, cutoff: Date)
    ensures
        sorted_by_date(filtered(items, cutoff)),
        items.len() == 0 ==> filtered(items, cutoff).len() == 0,
        (forall|i: int, j: int|
            0 <= i < items.len() && 0 <= j < items.len() ==> sort_key(#[trigger] items[i])
                == sort_key(#[trigger] items[j])) ==> filtered(items, cutoff) == qualifying(
            items,
            cutoff,
        ),
{
    lemma_filtered(items, cutoff);
    let q = qualifying(items, cutoff);
    if items.len() == 0 {
        reveal(Seq::filter);
    }
    if forall|i: int, j: int|
        0 <= i < items.len() && 0 <= j < items.len() ==> sort_key(#[trigger] items[i]) == sort_key(
            #[trigger] items[j],
        ) {
            assert forall|i: int, j: int| 0 <= i < j < q.len() implies key_le(
            #[trigger] q[i],
            #[trigger] q[j],
        ) by {
            assert(q.contains(q[i]));
            assert(q.contains(q[j]));
            items.lemma_filter_contains_rev(|r: Dated| qualifies(r, cutoff), q[i]);
            items.lemma_filter_contains_rev(|r: Dated| qualifies(r, cutoff), q[j]);
        }
        lemma_sort_of_sorted(q);
    }
}

/// The creation day of `r`, as `created_date` states.
pub fn created_date_of(r: &Repo) -> (d: Option<Date>)
    ensures
        d == created_date(*r),
        d is Some ==> d->0.wf(),
{
    let s = r.created_at.as_str();
    if s.unicode_len() < 10 {
        None
    } else {
        chrono_parse_ymd(s.substring_char(0, 10))
    }
}

/// The entries whose day lies before `cutoff`, oldest first; entries of the
/// same day keep their given order, and those without a day are left out.
pub fn filter_dated(items: Vec<Dated>, cutoff: Date) -> (r: Vec<Dated>)
    ensures
        r@ == filtered(items@, cutoff),
        sorted_by_date(r@),
        r@.to_multiset() == qualifying(items@, cutoff).to_multiset(),
        forall|i: int| 0 <= i < r@.len() ==> qualifies(#[trigger] r@[i], cutoff),
{
    let ghost all = items@;
    let mut rest = items;
    let mut out: Vec<Dated> = Vec::new();
    let mut keys: Vec<Date> = Vec::new();
    let n = rest.len();
    let mut i: usize = 0;
    while i < n
        invariant
            n == all.len(),
            i <= n,
            rest@ == all.subrange(i as int, n as int),
            out@ == filtered(all.subrange(0, i as int), cutoff),
            keys@.len() == out@.len(),
            forall|j: int| 0 <= j < out@.len() ==> keys@[j] == sort_key(#[trigger] out@[j]),
        decreases n - i,
    {
        let x = rest.remove(0);
        assert(x == all[i as int]);
        let ghost done = all.subrange(0, i as int);
        assert(all.subrange(0, i + 1) =~= done.push(x));
        proof {
            done.lemma_filter_push(x, |r: Dated| qualifies(r, cutoff));
        }
        assert(rest@ =~= all.subrange(i + 1, n as int));
        match x.created {
            Some(k) => {
                if k.is_before(&cutoff) {
                    let ghost q = qualifying(done, cutoff);
                    assert(q.push(x).drop_last() =~= q);
                    let mut p: usize = out.len();
                    while p > 0 && k.is_before(&keys[p - 1])
                        invariant
                            p <= out@.len(),
                            keys@.len() == out@.len(),
                            forall|j: int|
                                0 <= j < out@.len() ==> keys@[j] == sort_key(#[trigger] out@[j]),
                            k == sort_key(x),
                            forall|j: int| p <= j < out@.len() ==> !key_le(#[trigger] out@[j], x),
                        decreases p,
                    {
                        p = p - 1;
                    }
                    proof {
                        if p > 0 {
                            assert(keys@[p - 1] == sort_key(out@[p - 1]));
                        }
                        lemma_insert_at(out@, x, p as int);
                    }
                    let ghost before = out@;
                    out.insert(p, x);
                    keys.insert(p, k);
                    assert forall|j: int| 0 <= j < out@.len() implies keys@[j] == sort_key(
                        #[trigger] out@[j],
                    ) by {
                        if j > p {
                            assert(out@[j] == before[j - 1]);
                        }
                    }
                }
            },
            None => {},
        }
        i = i + 1;
    }
    assert(all.subrange(0, n as int) =~= all);
    proof {
        lemma_filtered(all, cutoff);
    }
    out
}

/// Each repository with the creation day read from its timestamp.
pub fn date_repos(repos: Vec<Repo>) -> (r: Vec<Dated>)
    ensures
        r@ == dated_all(repos@),
{
    let ghost all = repos@;
    let mut rest = repos;
    let mut out: Vec<Dated> = Vec::new();
    let n = rest.len();
    let mut i: usize = 0;
    while i < n
        invariant
            n == all.len(),
            i <= n,
            rest@ == all.subrange(i as int, n as int),
            out@ == dated_all(all.subrange(0, i as int)),
        decreases n - i,
    {
        let x = rest.remove(0);
        assert(x == all[i as int]);
        let created = created_date_of(&x);
        out.push(Dated { repo: x, created });
        assert(rest@ =~= all.subrange(i + 1, n as int));
        assert(out@ =~= dated_all(all.subrange(0, i + 1)));
        i = i + 1;
    }
    assert(all.subrange(0, n as int) =~= all);
    out
}

/// The repositories of the entries, in order.
pub fn strip_dates(items: Vec<Dated>) -> (r: Vec<Repo>)
    ensures
        r@ == repos_of(items@),
{
    let ghost all = items@;
    let mut rest = items;
    let mut out: Vec<Repo> = Vec::new();
    let n = rest.len();
    let mut i: usize = 0;
    while i < n
        invariant
            n == all.len(),
            i <= n,
            rest@ == all.subrange(i as int, n as int),
            out@ == repos_of(all.subrange(0, i as int)),
        decreases n - i,
    {
        let x = rest.remove(0);
        assert(x == all[i as int]);
        out.push(x.repo);
        assert(rest@ =~= all.subrange(i + 1, n as int));
        assert(out@ =~= repos_of(all.subrange(0, i + 1)));
        i = i + 1;
    }
    assert(all.subrange(0, n as int) =~= all);
    out
}

/// The repositories created before `cutoff`, oldest first; those created on
/// the same day keep their given order, and those whose creation day cannot
/// be read are left out.
pub fn filter_repos(repos: Vec<Repo>, cutoff: Date) -> (r: Vec<Repo>)
    ensures
        r@ == repos_of(filtered(dated_all(repos@), cutoff)),
        sorted_by_date(dated_all(r@)),
        forall|i: int| 0 <= i < r@.len() ==> qualifies(#[trigger] dated(r@[i]), cutoff),
{
    let r = strip_dates(filter_dated(date_repos(repos), cutoff));
    proof {
        lemma_filtered_keeps_dates(repos@, cutoff);
        lemma_filtered(dated_all(repos@), cutoff);
        assert forall|i: int| 0 <= i < r@.len() implies qualifies(
            #[trigger] dated(r@[i]),
            cutoff,
        ) by {
            assert(dated_all(r@)[i] == dated(r@[i]));
        }
    }
    r
}

/// Each entry of the catalog drawn from repositories carries the creation day
/// of its own repository.
pub proof fn lemma_filtered_keeps_dates(repos: Seq<Repo>, cutoff: Date)
    ensures
        dated_all(repos_of(filtered(dated_all(repos), cutoff))) == filtered(
            dated_all(repos),
            cutoff,
        ),
{
    let x = dated_all(repos);
    let f = filtered(x, cutoff);
    lemma_filtered(x, cutoff);
    assert forall|i: int| 0 <= i < f.len() implies #[trigger] dated(f[i].repo) == f[i] by {
        assert(f.contains(f[i]));
        assert(f.to_multiset().count(f[i]) > 0);
        let q = qualifying(x, cutoff);
        assert(q.contains(f[i]));
        x.lemma_filter_contains_rev(|r: Dated| qualifies(r, cutoff), f[i]);
        let k = choose|k: int| 0 <= k < x.len() && x[k] == f[i];
        assert(x[k] == dated(repos[k]));
    }
    assert(dated_all(repos_of(f)) =~= f);
}

/// Filtering repositories again with the same cutoff changes nothing.
pub proof fn lemma_filter_repos_idempotent(repos: Seq<Repo>, cutoff: Date)
    ensures
        repos_of(filtered(dated_all(repos_of(filtered(dated_all(repos), cutoff))), cutoff))
            == repos_of(filtered(dated_all(repos), cutoff)),
{
    lemma_filtered_keeps_dates(repos, cutoff);
    lemma_filter_idempotent(dated_all(repos), cutoff);
}

} // verus!
