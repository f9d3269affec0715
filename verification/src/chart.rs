//! The chart logic: reshaping the fetched monthly price series.
//!
//! The feed answers with one closing price per month, keyed by a
//! `YYYY-MM-DD` date, in no usable order. For display the backend keeps
//! the newest six entries, ordered oldest-to-newest, and labels each by
//! the month portion of its date. The closing price travels through as
//! the text the feed delivered: the display layer reads it as a number
//! and shows 0.0 for an entry it cannot read, rather than failing the
//! whole chart.

use vstd::prelude::*;
use vstd::string::StrSliceExecFns;

verus! {

/// One fetched entry of the monthly series: the date it is keyed by and
/// the closing price as the feed delivered it.
pub struct PriceEntry {
    pub date: String,
    pub close: String,
}

/// One display-ready point: the month portion of its date as the label,
/// and the closing price, still as text.
pub struct ChartPoint {
    pub label: String,
    pub close: String,
}

/// Lexicographic order on character sequences, by code point. On the
/// `YYYY-MM-DD` dates of the series it is chronological order.
pub open spec fn lex_le(a: Seq<char>, b: Seq<char>) -> bool
    decreases a.len(),
{
    if a.len() == 0 {
        true
    } else if b.len() == 0 {
        false
    } else if (a[0] as u32) == (b[0] as u32) {
        lex_le(a.skip(1), b.skip(1))
    } else {
        (a[0] as u32) < (b[0] as u32)
    }
}

/// The first `n` elements, or all of them where fewer are there.
pub open spec fn take_at_most(s: Seq<char>, n: int) -> Seq<char> {
    if s.len() <= n {
        s
    } else {
        s.take(n)
    }
}

/// The month portion of a series date: the `YYYY-MM` prefix, that is its
/// first seven characters, or the whole date where it is shorter.
pub open spec fn month_of(date: Seq<char>) -> Seq<char> {
    take_at_most(date, 7)
}

/// Entries in oldest-to-newest order of their dates.
pub open spec fn sorted_by_date(s: Seq<PriceEntry>) -> bool {
    forall|i: int, j: int| 0 <= i < j < s.len() ==> lex_le(s[i].date@, s[j].date@)
}

/// The order is total: of two strings, one is at most the other.
proof fn lemma_lex_le_total(a: Seq<char>, b: Seq<char>)
    ensures
        lex_le(a, b) || lex_le(b, a),
    decreases a.len(),
{
    if a.len() == 0 {
    } else if b.len() == 0 {
    } else if (a[0] as u32) == (b[0] as u32) {
        lemma_lex_le_total(a.skip(1), b.skip(1));
    }
}

/// The order is transitive.
proof fn lemma_lex_le_trans(a: Seq<char>, b: Seq<char>, c: Seq<char>)
    requires
        lex_le(a, b),
        lex_le(b, c),
    ensures
        lex_le(a, c),
    decreases a.len(),
{
    if a.len() == 0 {
    } else {
        assert(b.len() > 0);
        assert(c.len() > 0);
        if (a[0] as u32) == (b[0] as u32) && (b[0] as u32) == (c[0] as u32) {
            lemma_lex_le_trans(a.skip(1), b.skip(1), c.skip(1));
        }
    }
}

/// The order carries to prefixes of a common length bound: cutting both
/// strings to at most `n` characters cannot reverse it.
proof fn lemma_lex_le_take_at_most(a: Seq<char>, b: Seq<char>, n: int)
    requires
        0 <= n,
        lex_le(a, b),
    ensures
        lex_le(take_at_most(a, n), take_at_most(b, n)),
    decreases n,
{
    let ta = take_at_most(a, n);
    let tb = take_at_most(b, n);
    if n == 0 {
        assert(ta.len() == 0);
    } else if a.len() == 0 {
        assert(ta.len() == 0);
    } else {
        assert(b.len() > 0);
        if (a[0] as u32) == (b[0] as u32) {
            lemma_lex_le_take_at_most(a.skip(1), b.skip(1), n - 1);
            assert(ta.len() > 0 && tb.len() > 0);
            assert(ta[0] == a[0] && tb[0] == b[0]);
            assert(ta.skip(1) =~= take_at_most(a.skip(1), n - 1));
            assert(tb.skip(1) =~= take_at_most(b.skip(1), n - 1));
        } else {
            assert(ta.len() > 0 && tb.len() > 0);
            assert(ta[0] == a[0] && tb[0] == b[0]);
            assert((a[0] as u32) < (b[0] as u32));
        }
    }
}

/// Code-point order on two strings, as `lex_le` states it.
fn str_le(a: &str, b: &str) -> (r: bool)
    ensures
        r == lex_le(a@, b@),
{
    let na = a.unicode_len();
    let nb = b.unicode_len();
    let mut i: usize = 0;
    proof {
        assert(a@.skip(0) =~= a@);
        assert(b@.skip(0) =~= b@);
    }
    loop
        invariant
            i <= na,
            i <= nb,
            na == a@.len(),
            nb == b@.len(),
            lex_le(a@, b@) == lex_le(a@.skip(i as int), b@.skip(i as int)),
        decreases na - i,
    {
        if i >= na {
            proof {
                assert(a@.skip(i as int).len() == 0);
            }
            return true;
        }
        if i >= nb {
            proof {
                assert(b@.skip(i as int).len() == 0);
                assert(a@.skip(i as int).len() > 0);
            }
            return false;
        }
        let ua = a.get_char(i) as u32;
        let ub = b.get_char(i) as u32;
        proof {
            assert(a@.skip(i as int)[0] == a@[i as int]);
            assert(b@.skip(i as int)[0] == b@[i as int]);
        }
        if ua == ub {
            proof {
                assert(a@.skip(i as int).skip(1) =~= a@.skip(i as int + 1));
                assert(b@.skip(i as int).skip(1) =~= b@.skip(i as int + 1));
            }
            i += 1;
        } else {
            return ua < ub;
        }
    }
}

/// Inserts an entry into a date-sorted vector, keeping it sorted; the
/// contents grow by exactly that entry.
fn insert_sorted(v: &mut Vec<PriceEntry>, e: PriceEntry)
    requires
        sorted_by_date(old(v)@),
    ensures
        sorted_by_date(final(v)@),
        final(v)@.to_multiset() == old(v)@.to_multiset().insert(e),
        final(v)@.len() == old(v)@.len() + 1,
{
    let n = v.len();
    let mut pos: usize = 0;
    while pos < n && str_le(v[pos].date.as_str(), e.date.as_str())
        invariant
            pos <= n,
            n == v@.len(),
            *v == *old(v),
            forall|j: int| 0 <= j < pos ==> lex_le((#[trigger] v@[j]).date@, e.date@),
        decreases n - pos,
    {
        pos += 1;
    }
    proof {
        if pos < n {
            lemma_lex_le_total(v@[pos as int].date@, e.date@);
        }
    }
    let ghost pre = v@;
    v.insert(pos, e);
    proof {
        vstd::seq_lib::to_multiset_insert(pre, pos as int, e);
        pre.insert_ensures(pos as int, e);
        assert forall|i: int, j: int| 0 <= i < j < v@.len() implies lex_le(
            (#[trigger] v@[i]).date@,
            (#[trigger] v@[j]).date@,
        ) by {
            let p = pos as int;
            if j < p {
                assert(v@[i] == pre[i] && v@[j] == pre[j]);
            } else if i < p && j == p {
                assert(v@[i] == pre[i] && v@[j] == e);
            } else if i < p && j > p {
                assert(v@[i] == pre[i] && v@[j] == pre[j - 1]);
            } else if i == p {
                assert(v@[i] == e && v@[j] == pre[j - 1]);
                assert(lex_le(e.date@, pre[p].date@));
                if j - 1 > p {
                    assert(lex_le(pre[p].date@, pre[j - 1].date@));
                    lemma_lex_le_trans(e.date@, pre[p].date@, pre[j - 1].date@);
                }
            } else {
                assert(v@[i] == pre[i - 1] && v@[j] == pre[j - 1]);
            }
        }
    }
}

/// Sorts the fetched entries oldest-to-newest by date, keeping exactly
/// the given entries.
fn sort_by_date_asc(entries: Vec<PriceEntry>) -> (r: Vec<PriceEntry>)
    ensures
        sorted_by_date(r@),
        r@.to_multiset() == entries@.to_multiset(),
        r@.len() == entries@.len(),
{
    let ghost orig = entries@;
    let mut rest = entries;
    let mut r: Vec<PriceEntry> = Vec::new();
    proof {
        broadcast use vstd::multiset::group_multiset_axioms;

        vstd::seq_lib::to_multiset_len(r@);
        vstd::multiset::lemma_multiset_empty_len(r@.to_multiset());
        assert(r@.to_multiset().add(rest@.to_multiset()) =~= orig.to_multiset());
    }
    while rest.len() > 0
        invariant
            sorted_by_date(r@),
            r@.to_multiset().add(rest@.to_multiset()) == orig.to_multiset(),
            r@.len() + rest@.len() == orig.len(),
        decreases rest@.len(),
    {
        let ghost before = rest@;
        let e = rest.pop().unwrap();
        proof {
            assert(before =~= rest@.push(e));
            vstd::seq_lib::to_multiset_build(rest@, e);
            assert(before.to_multiset() == rest@.to_multiset().insert(e));
        }
        insert_sorted(&mut r, e);
        proof {
            broadcast use vstd::multiset::group_multiset_axioms;

            assert(r@.to_multiset().add(rest@.to_multiset()) =~= orig.to_multiset());
        }
    }
    proof {
        broadcast use vstd::multiset::group_multiset_axioms;

        assert(rest@ =~= Seq::<PriceEntry>::empty());
        vstd::seq_lib::to_multiset_len(rest@);
        vstd::multiset::lemma_multiset_empty_len(rest@.to_multiset());
        assert(r@.to_multiset() =~= orig.to_multiset());
        vstd::seq_lib::to_multiset_len(r@);
        vstd::seq_lib::to_multiset_len(orig);
    }
    r
}

/// How many points the chart shows for a fetch of `len` entries: all of
/// them, up to six.
pub open spec fn chart_len(len: int) -> int {
    if len <= 6 {
        len
    } else {
        6
    }
}

/// Where the shown suffix of a date-sorted sequence starts: everything,
/// or the last six entries where more were fetched.
pub open spec fn chart_start(len: int) -> int {
    if len <= 6 {
        0
    } else {
        len - 6
    }
}

/// What the chart must show for a date-sorted sequence of entries: the
/// newest six (or all, where fewer), oldest first, each labelled by the
/// month portion of its date, the closing price carried through.
pub open spec fn points_match(s: Seq<PriceEntry>, r: Seq<ChartPoint>) -> bool {
    let start = chart_start(s.len() as int);
    &&& r.len() == s.len() - start
    &&& forall|i: int|
        0 <= i < r.len() ==> (#[trigger] r[i]).label@ == month_of(s[start + i].date@)
    &&& forall|i: int| 0 <= i < r.len() ==> (#[trigger] r[i]).close@ == s[start + i].close@
}

/// The display label of a series date: its month portion.
fn month_label(date: &String) -> (r: String)
    ensures
        r@ == month_of(date@),
{
    let n = date.as_str().unicode_len();
    if n <= 7 {
        date.clone()
    } else {
        date.as_str().substring_char(0, 7).to_owned()
    }
}

/// Reshapes the fetched monthly series for display: of all fetched
/// entries, the newest six (or all, where fewer were fetched) remain,
/// ordered oldest-to-newest, labelled by the month portion of their
/// dates — so the labels too read oldest-to-newest — with each closing
/// price carried through unchanged.
pub fn get_chart_data(entries: Vec<PriceEntry>) -> (r: Vec<ChartPoint>)
    ensures
        r@.len() == chart_len(entries@.len() as int),
        forall|i: int, j: int|
            0 <= i < j < r@.len() ==> lex_le((#[trigger] r@[i]).label@, (#[trigger] r@[j]).label@),
        exists|s: Seq<PriceEntry>|
            s.to_multiset() == entries@.to_multiset() && sorted_by_date(s) && points_match(s, r@),
{
    let ghost input = entries@;
    let sorted = sort_by_date_asc(entries);
    let n = sorted.len();
    let start = if n > 6 {
        n - 6
    } else {
        0
    };
    let mut r: Vec<ChartPoint> = Vec::new();
    let mut i = start;
    while i < n
        invariant
            start <= i <= n,
            n == sorted@.len(),
            start == chart_start(n as int),
            sorted_by_date(sorted@),
            r@.len() == i - start,
            forall|k: int|
                0 <= k < r@.len() ==> (#[trigger] r@[k]).label@ == month_of(
                    sorted@[start + k].date@,
                ),
            forall|k: int|
                0 <= k < r@.len() ==> (#[trigger] r@[k]).close@ == sorted@[start + k].close@,
        decreases n - i,
    {
        let label = month_label(&sorted[i].date);
        let close = sorted[i].close.clone();
        r.push(ChartPoint { label, close });
        i += 1;
    }
    proof {
        assert(points_match(sorted@, r@));
        vstd::seq_lib::to_multiset_len(sorted@);
        vstd::seq_lib::to_multiset_len(input);
        assert forall|a: int, b: int| 0 <= a < b < r@.len() implies lex_le(
            (#[trigger] r@[a]).label@,
            (#[trigger] r@[b]).label@,
        ) by {
            assert(lex_le(sorted@[start + a].date@, sorted@[start + b].date@));
            lemma_lex_le_take_at_most(sorted@[start + a].date@, sorted@[start + b].date@, 7);
        }
    }
    r
}

} // verus!
