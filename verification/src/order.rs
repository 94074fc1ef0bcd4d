//! The order of the report: stable sorting of issues by number and by versions.

use crate::issue::{issue_views, versions_text, IssueView, NormalizedIssue};
use crate::text::chars_of;
use vstd::prelude::*;
use vstd::set_lib::{lemma_int_range, lemma_len_subset, lemma_subset_equality, set_int_range};

verus! {

/// What the issues are ordered by.
#[derive(Debug, Clone, Copy, PartialEq, Eq, Structural)]
pub enum SortKey {
    /// The number of the issue, smaller first.
    Number,
    /// The versions as the report shows them, compared as text.
    Versions,
    /// The versions, and the number among issues with the same versions.
    VersionsThenNumber,
}

/// Whether the text `a` stands before the text `b`: at the first place where they
/// differ `a` has the smaller character, or `a` ends there and `b` goes on.
pub open spec fn text_before(a: Seq<char>, b: Seq<char>) -> bool
    decreases a.len(),
{
    if b.len() == 0 {
        false
    } else if a.len() == 0 {
        true
    } else if a[0] != b[0] {
        a[0] < b[0]
    } else {
        text_before(a.drop_first(), b.drop_first())
    }
}

/// Whether `x` stands before `y` when issues are ordered by `key`.
pub open spec fn key_before(key: SortKey, x: IssueView, y: IssueView) -> bool {
    let vx = versions_text(x.fix_versions);
    let vy = versions_text(y.fix_versions);
    match key {
        SortKey::Number => x.numeric_order < y.numeric_order,
        SortKey::Versions => text_before(vx, vy),
        SortKey::VersionsThenNumber => text_before(vx, vy) || (!text_before(vy, vx)
            && x.numeric_order < y.numeric_order),
    }
}

/// Whether, in a stable sort of `s` by `key`, the issue at `i` stands before the
/// issue at `j`: its key is smaller, or the keys are the same and it came first.
pub open spec fn comes_first(key: SortKey, s: Seq<IssueView>, i: int, j: int) -> bool {
    key_before(key, s[i], s[j]) || (!key_before(key, s[j], s[i]) && i < j)
}

/// Whether `p` lists positions of `s` in the order of a stable sort by `key`.
pub open spec fn is_stable_order(key: SortKey, s: Seq<IssueView>, p: Seq<int>) -> bool {
    &&& p.len() == s.len()
    &&& forall|a: int| 0 <= a < p.len() ==> 0 <= #[trigger] p[a] < s.len()
    &&& forall|a: int, b: int|
        0 <= a < b < p.len() ==> comes_first(key, s, #[trigger] p[a], #[trigger] p[b])
}

/// The issues of `s` at the positions that `p` lists.
pub open spec fn arranged(s: Seq<IssueView>, p: Seq<int>) -> Seq<IssueView> {
    Seq::new(p.len(), |a: int| s[p[a]])
}

/// Whether `r` is `s` sorted by `key`, issues with the same key staying in the
/// order that they have in `s`.
pub open spec fn stably_sorted(key: SortKey, s: Seq<IssueView>, r: Seq<IssueView>) -> bool {
    exists|p: Seq<int>| is_stable_order(key, s, p) && r == arranged(s, p)
}

/// The positions that a list of indices holds.
pub open spec fn positions(p: Seq<usize>) -> Seq<int> {
    Seq::new(p.len(), |a: int| p[a] as int)
}

/// Of two texts, at most one stands before the other.
pub proof fn lemma_text_before_asymmetric(a: Seq<char>, b: Seq<char>)
    ensures
        !(text_before(a, b) && text_before(b, a)),
    decreases a.len(),
{
    if a.len() > 0 && b.len() > 0 && a[0] == b[0] {
        lemma_text_before_asymmetric(a.drop_first(), b.drop_first());
    }
}

/// Of two different texts, one stands before the other.
pub proof fn lemma_text_before_total(a: Seq<char>, b: Seq<char>)
    ensures
        a != b ==> text_before(a, b) || text_before(b, a),
    decreases a.len(),
{
    if a.len() > 0 && b.len() > 0 && a[0] == b[0] {
        lemma_text_before_total(a.drop_first(), b.drop_first());
        if a.drop_first() == b.drop_first() {
            assert(a == seq![a[0]] + a.drop_first());
            assert(b == seq![b[0]] + b.drop_first());
        }
    } else if a.len() == 0 && b.len() == 0 {
        assert(a == b);
    }
}

/// Where `a` does not stand before `b`, nor `b` before `c`, `a` does not stand
/// before `c`.
pub proof fn lemma_text_before_chain(a: Seq<char>, b: Seq<char>, c: Seq<char>)
    ensures
        !text_before(a, b) && !text_before(b, c) ==> !text_before(a, c),
    decreases a.len(),
{
    if a.len() > 0 && b.len() > 0 && c.len() > 0 && a[0] == b[0] && b[0] == c[0] {
        lemma_text_before_chain(a.drop_first(), b.drop_first(), c.drop_first());
    }
}

/// Of two issues, at most one stands before the other.
pub proof fn lemma_key_before_asymmetric(key: SortKey, x: IssueView, y: IssueView)
    ensures
        !(key_before(key, x, y) && key_before(key, y, x)),
{
    lemma_text_before_asymmetric(versions_text(x.fix_versions), versions_text(y.fix_versions));
}

/// Where `x` does not stand before `y`, nor `y` before `z`, `x` does not stand
/// before `z`.
pub proof fn lemma_key_before_chain(key: SortKey, x: IssueView, y: IssueView, z: IssueView)
    requires
        !key_before(key, x, y),
        !key_before(key, y, z),
    ensures
        !key_before(key, x, z),
{
    let vx = versions_text(x.fix_versions);
    let vy = versions_text(y.fix_versions);
    let vz = versions_text(z.fix_versions);
    lemma_text_before_chain(vx, vy, vz);
    lemma_text_before_chain(vy, vz, vx);
    lemma_text_before_chain(vz, vx, vy);
}

/// Whether the text `a` stands before the text `b`.
pub fn chars_before(a: &Vec<char>, b: &Vec<char>) -> (r: bool)
    ensures
        r == text_before(a@, b@),
{
    let mut i: usize = 0;
    assert(a@.subrange(0, a@.len() as int) == a@);
    assert(b@.subrange(0, b@.len() as int) == b@);
    loop
        invariant
            i <= a@.len(),
            i <= b@.len(),
            text_before(a@, b@) == text_before(
                a@.subrange(i as int, a@.len() as int),
                b@.subrange(i as int, b@.len() as int),
            ),
        decreases a@.len() - i,
    {
        let ghost x = a@.subrange(i as int, a@.len() as int);
        let ghost y = b@.subrange(i as int, b@.len() as int);
        if i == b.len() {
            return false;
        }
        if i == a.len() {
            return true;
        }
        assert(x[0] == a@[i as int] && y[0] == b@[i as int]);
        if a[i] != b[i] {
            return a[i] < b[i];
        }
        assert(x.drop_first() == a@.subrange(i + 1, a@.len() as int));
        assert(y.drop_first() == b@.subrange(i + 1, b@.len() as int));
        i += 1;
    }
}

/// The versions of each issue as the report shows them, character by character.
fn version_keys(issues: &Vec<NormalizedIssue>) -> (keys: Vec<Vec<char>>)
    ensures
        keys@.len() == issues@.len(),
        forall|a: int|
            0 <= a < keys@.len() ==> (#[trigger] keys@[a])@ == versions_text(
                issues@[a]@.fix_versions,
            ),
{
    let mut keys: Vec<Vec<char>> = Vec::new();
    let mut i: usize = 0;
    while i < issues.len()
        invariant
            i <= issues@.len(),
            keys@.len() == i,
            forall|a: int|
                0 <= a < i ==> (#[trigger] keys@[a])@ == versions_text(issues@[a]@.fix_versions),
        decreases issues@.len() - i,
    {
        let shown = issues[i].nice_versions();
        keys.push(chars_of(shown.as_str()));
        i += 1;
    }
    keys
}

/// Whether the issue at `a` stands before the issue at `b` in the order of `key`.
fn precedes(
    key: SortKey,
    issues: &Vec<NormalizedIssue>,
    keys: &Vec<Vec<char>>,
    a: usize,
    b: usize,
) -> (r: bool)
    requires
        a < issues@.len(),
        b < issues@.len(),
        keys@.len() == issues@.len(),
        forall|c: int|
            0 <= c < keys@.len() ==> (#[trigger] keys@[c])@ == versions_text(
                issues@[c]@.fix_versions,
            ),
    ensures
        r == key_before(key, issues@[a as int]@, issues@[b as int]@),
{
    match key {
        SortKey::Number => issues[a].numeric_order < issues[b].numeric_order,
        SortKey::Versions => chars_before(&keys[a], &keys[b]),
        SortKey::VersionsThenNumber => chars_before(&keys[a], &keys[b]) || (!chars_before(
            &keys[b],
            &keys[a],
        ) && issues[a].numeric_order < issues[b].numeric_order),
    }
}

/// The positions of `issues` in the order of a stable sort by `key`.
pub fn stable_order(issues: &Vec<NormalizedIssue>, key: SortKey) -> (p: Vec<usize>)
    ensures
        is_stable_order(key, issue_views(issues@), positions(p@)),
{
    let keys = version_keys(issues);
    let ghost views = issue_views(issues@);
    let n = issues.len();
    let mut p: Vec<usize> = Vec::new();
    let mut i: usize = 0;
    while i < n
        invariant
            i <= n == issues@.len(),
            views == issue_views(issues@),
            keys@.len() == n,
            forall|c: int|
                0 <= c < keys@.len() ==> (#[trigger] keys@[c])@ == versions_text(
                    issues@[c]@.fix_versions,
                ),
            p@.len() == i,
            forall|a: int| 0 <= a < i ==> #[trigger] p@[a] < i,
            forall|a: int, b: int|
                0 <= a < b < i ==> comes_first(
                    key,
                    views,
                    #[trigger] p@[a] as int,
                    #[trigger] p@[b] as int,
                ),
        decreases n - i,
    {
        let mut k: usize = i;
        while k > 0 && precedes(key, issues, &keys, i, p[k - 1])
            invariant
                k <= i < n == issues@.len(),
                views == issue_views(issues@),
                keys@.len() == n,
                forall|c: int|
                    0 <= c < keys@.len() ==> (#[trigger] keys@[c])@ == versions_text(
                        issues@[c]@.fix_versions,
                    ),
                p@.len() == i,
                forall|a: int| 0 <= a < i ==> #[trigger] p@[a] < i,
                forall|b: int|
                    k <= b < i ==> key_before(key, views[i as int], views[#[trigger] p@[b] as int]),
            decreases k,
        {
            k -= 1;
        }
        let ghost before = p@;
        p.insert(k, i);
        proof {
            assert forall|a: int, b: int| 0 <= a < b < i + 1 implies comes_first(
                key,
                views,
                #[trigger] p@[a] as int,
                #[trigger] p@[b] as int,
            ) by {
                if b < k {
                    assert(p@[a] == before[a] && p@[b] == before[b]);
                } else if b == k {
                    assert(p@[a] == before[a] && p@[b] == i);
                    assert(before[a] < i);
                    assert(!key_before(key, views[i as int], views[before[k - 1] as int]));
                    if a < k - 1 {
                        assert(comes_first(key, views, before[a] as int, before[k - 1] as int));
                        lemma_key_before_asymmetric(
                            key,
                            views[before[a] as int],
                            views[before[k - 1] as int],
                        );
                        lemma_key_before_chain(
                            key,
                            views[i as int],
                            views[before[k - 1] as int],
                            views[before[a] as int],
                        );
                    }
                } else if a < k {
                    assert(p@[a] == before[a] && p@[b] == before[b - 1]);
                } else if a == k {
                    assert(p@[a] == i && p@[b] == before[b - 1]);
                    lemma_key_before_asymmetric(
                        key,
                        views[i as int],
                        views[before[b - 1] as int],
                    );
                } else {
                    assert(p@[a] == before[a - 1] && p@[b] == before[b - 1]);
                }
            }
            assert forall|a: int| 0 <= a < i + 1 implies #[trigger] p@[a] < i + 1 by {
                if a < k {
                    assert(p@[a] == before[a]);
                } else if a > k {
                    assert(p@[a] == before[a - 1]);
                }
            }
        }
        i += 1;
    }
    p
}

/// Copies of the issues at the positions that `p` lists, in that order.
fn arrange(issues: &Vec<NormalizedIssue>, p: &Vec<usize>) -> (r: Vec<NormalizedIssue>)
    requires
        forall|a: int| 0 <= a < p@.len() ==> #[trigger] p@[a] < issues@.len(),
    ensures
        issue_views(r@) == arranged(issue_views(issues@), positions(p@)),
{
    let mut r: Vec<NormalizedIssue> = Vec::new();
    let mut a: usize = 0;
    while a < p.len()
        invariant
            a <= p@.len(),
            r@.len() == a,
            forall|c: int| 0 <= c < p@.len() ==> #[trigger] p@[c] < issues@.len(),
            forall|c: int| 0 <= c < a ==> (#[trigger] r@[c])@ == issues@[p@[c] as int]@,
        decreases p@.len() - a,
    {
        r.push(issues[p[a]].duplicate());
        a += 1;
    }
    assert(issue_views(r@) =~= arranged(issue_views(issues@), positions(p@)));
    r
}

/// The issues sorted by `key`. The sort is stable: issues that `key` does not tell
/// apart stay in the order in which they came.
pub fn sort_by(issues: &Vec<NormalizedIssue>, key: SortKey) -> (r: Vec<NormalizedIssue>)
    ensures
        stably_sorted(key, issue_views(issues@), issue_views(r@)),
        r@.len() == issues@.len(),
{
    let p = stable_order(issues, key);
    assert forall|a: int| 0 <= a < p@.len() implies #[trigger] p@[a] < issues@.len() by {
        assert(positions(p@)[a] == p@[a]);
    }
    let r = arrange(issues, &p);
    assert(issue_views(r@).len() == r@.len());
    r
}

/// Sorting by number and then, stably, by versions orders the issues by versions
/// and, among issues with the same versions, by number; issues that agree in both
/// stay in the order in which they came.
pub proof fn lemma_two_passes(s: Seq<IssueView>, mid: Seq<IssueView>, r: Seq<IssueView>)
    requires
        stably_sorted(SortKey::Number, s, mid),
        stably_sorted(SortKey::Versions, mid, r),
    ensures
        stably_sorted(SortKey::VersionsThenNumber, s, r),
{
    let p1 = choose|p: Seq<int>| is_stable_order(SortKey::Number, s, p) && mid == arranged(s, p);
    let p2 = choose|p: Seq<int>|
        is_stable_order(SortKey::Versions, mid, p) && r == arranged(mid, p);
    let p = Seq::new(p2.len(), |a: int| p1[p2[a]]);
    assert forall|a: int, b: int| 0 <= a < b < p.len() implies comes_first(
        SortKey::VersionsThenNumber,
        s,
        #[trigger] p[a],
        #[trigger] p[b],
    ) by {
        assert(comes_first(SortKey::Versions, mid, p2[a], p2[b]));
        assert(mid[p2[a]] == s[p1[p2[a]]]);
        assert(mid[p2[b]] == s[p1[p2[b]]]);
        lemma_text_before_asymmetric(
            versions_text(s[p[a]].fix_versions),
            versions_text(s[p[b]].fix_versions),
        );
        if !key_before(SortKey::Versions, mid[p2[a]], mid[p2[b]]) {
            assert(comes_first(SortKey::Number, s, p1[p2[a]], p1[p2[b]]));
        }
    }
    assert forall|a: int| 0 <= a < p.len() implies 0 <= #[trigger] p[a] < s.len() by {
        assert(0 <= p2[a] < mid.len());
        assert(0 <= p1[p2[a]] < s.len());
    }
    assert(r =~= arranged(s, p)) by {
        assert forall|a: int| 0 <= a < r.len() implies r[a] == s[p[a]] by {
            assert(r[a] == mid[p2[a]]);
            assert(0 <= p2[a] < mid.len());
        }
    }
    assert(is_stable_order(SortKey::VersionsThenNumber, s, p));
}

/// In a stable order no position occurs twice: the sorted list holds each issue
/// of the given one, as often as that one holds it.
pub proof fn lemma_stable_order_distinct(key: SortKey, s: Seq<IssueView>, p: Seq<int>)
    requires
        is_stable_order(key, s, p),
    ensures
        forall|a: int, b: int| 0 <= a < b < p.len() ==> #[trigger] p[a] != #[trigger] p[b],
{
    assert forall|a: int, b: int| 0 <= a < b < p.len() implies #[trigger] p[a] != #[trigger] p[
        b
    ] by {
        assert(comes_first(key, s, p[a], p[b]));
        lemma_key_before_asymmetric(key, s[p[a]], s[p[b]]);
    }
}

/// A stable order lists every position of the list.
pub proof fn lemma_stable_order_covers(key: SortKey, s: Seq<IssueView>, p: Seq<int>, x: int)
    requires
        is_stable_order(key, s, p),
        0 <= x < s.len(),
    ensures
        exists|a: int| 0 <= a < p.len() && p[a] == x,
{
    lemma_stable_order_distinct(key, s, p);
    assert(p.no_duplicates());
    p.unique_seq_to_set();
    lemma_int_range(0, s.len() as int);
    let range = set_int_range(0, s.len() as int);
    assert(p.to_set().subset_of(range)) by {
        assert forall|y: int| p.to_set().contains(y) implies range.contains(y) by {
            let a = choose|a: int| 0 <= a < p.len() && p[a] == y;
            assert(0 <= p[a] < s.len());
        }
    }
    lemma_len_subset(p.to_set(), range);
    lemma_subset_equality(p.to_set(), range);
    assert(range.contains(x));
    assert(p.to_set().contains(x));
    assert(p.contains(x));
}

/// Two stable orders of one list agree on their first `n` places.
proof fn lemma_stable_orders_agree(
    key: SortKey,
    s: Seq<IssueView>,
    p: Seq<int>,
    q: Seq<int>,
    n: int,
)
    requires
        is_stable_order(key, s, p),
        is_stable_order(key, s, q),
        0 <= n <= p.len(),
    ensures
        forall|a: int| 0 <= a < n ==> p[a] == q[a],
    decreases n,
{
    if n > 0 {
        lemma_stable_orders_agree(key, s, p, q, n - 1);
        let a = n - 1;
        if p[a] != q[a] {
            lemma_stable_order_covers(key, s, q, p[a]);
            let b = choose|b: int| 0 <= b < q.len() && q[b] == p[a];
            lemma_stable_order_covers(key, s, p, q[a]);
            let c = choose|c: int| 0 <= c < p.len() && p[c] == q[a];
            lemma_stable_order_distinct(key, s, p);
            lemma_stable_order_distinct(key, s, q);
            if b < a {
                assert(p[b] == q[b]);
                assert(p[b] != p[a]);
            }
            if c < a {
                assert(p[c] == q[c]);
                assert(q[c] != q[a]);
            }
            assert(comes_first(key, s, p[a], p[c]));
            assert(comes_first(key, s, q[a], q[b]));
            lemma_key_before_asymmetric(key, s[p[a]], s[q[a]]);
        }
    }
}

/// A list has one stable order only, so what a stable sort gives is determined.
pub proof fn lemma_sorted_unique(
    key: SortKey,
    s: Seq<IssueView>,
    r1: Seq<IssueView>,
    r2: Seq<IssueView>,
)
    requires
        stably_sorted(key, s, r1),
        stably_sorted(key, s, r2),
    ensures
        r1 == r2,
{
    let p = choose|p: Seq<int>| is_stable_order(key, s, p) && r1 == arranged(s, p);
    let q = choose|q: Seq<int>| is_stable_order(key, s, q) && r2 == arranged(s, q);
    lemma_stable_orders_agree(key, s, p, q, p.len() as int);
    assert(p =~= q);
}

/// A sorted list is in order: no issue stands before one that precedes it.
pub proof fn lemma_sorted_in_order(key: SortKey, s: Seq<IssueView>, r: Seq<IssueView>)
    requires
        stably_sorted(key, s, r),
    ensures
        r.len() == s.len(),
        forall|a: int, b: int| 0 <= a < b < r.len() ==> !key_before(key, r[b], r[a]),
{
    let p = choose|p: Seq<int>| is_stable_order(key, s, p) && r == arranged(s, p);
    assert forall|a: int, b: int| 0 <= a < b < r.len() implies !key_before(key, r[b], r[a]) by {
        assert(comes_first(key, s, p[a], p[b]));
        lemma_key_before_asymmetric(key, s[p[a]], s[p[b]]);
    }
}

/// The order of the report: the issues sorted by number, and the result sorted by
/// versions. Both sorts are stable, so the issues come out grouped by versions and
/// in the order of their numbers inside each group.
pub fn sort_issues(issues: &Vec<NormalizedIssue>) -> (r: Vec<NormalizedIssue>)
    ensures
        stably_sorted(SortKey::VersionsThenNumber, issue_views(issues@), issue_views(r@)),
        r@.len() == issues@.len(),
{
    let by_number = sort_by(issues, SortKey::Number);
    let r = sort_by(&by_number, SortKey::Versions);
    proof {
        lemma_two_passes(issue_views(issues@), issue_views(by_number@), issue_views(r@));
    }
    r
}

} // verus!
