//! Seconds of use per process, and the list the "today" screen shows.
use vstd::prelude::*;

use crate::names::{texts, NameSet};

verus! {

/// No process name occurs twice (compared by text).
pub open spec fn names_distinct(s: Seq<(String, i64)>) -> bool {
    forall|i: int, j: int| 0 <= i < j < s.len() ==> s[i].0@ != s[j].0@
}

/// The map that collecting `(name, seconds)` rows into a hash map gives: a
/// later row for a name replaces an earlier one.
pub open spec fn rows_map(s: Seq<(String, i64)>) -> Map<Seq<char>, i64>
    decreases s.len(),
{
    if s.len() == 0 {
        Map::empty()
    } else {
        rows_map(s.drop_last()).insert(s.last().0@, s.last().1)
    }
}

/// `s` is in non-increasing order of seconds.
pub open spec fn sorted_by_secs_desc(s: Seq<(String, i64)>) -> bool {
    forall|i: int, j: int| 0 <= i < j < s.len() ==> s[i].1 >= s[j].1
}

/// The keys of `rows_map(s)` are the names in `s`; with no name twice, each
/// name maps to its own seconds.
pub proof fn lemma_rows_map(s: Seq<(String, i64)>)
    ensures
        forall|k: Seq<char>|
            #![trigger rows_map(s).contains_key(k)]
            rows_map(s).contains_key(k) <==> exists|i: int| 0 <= i < s.len() && s[i].0@ == k,
        names_distinct(s) ==> forall|i: int|
            #![trigger s[i]]
            0 <= i < s.len() ==> rows_map(s)[s[i].0@] == s[i].1,
    decreases s.len(),
{
    if s.len() > 0 {
        let t = s.drop_last();
        lemma_rows_map(t);
        assert forall|k: Seq<char>|
            #![trigger rows_map(s).contains_key(k)]
            rows_map(s).contains_key(k) <==> exists|i: int| 0 <= i < s.len() && s[i].0@ == k by {
            if rows_map(t).contains_key(k) {
                let i = choose|i: int| 0 <= i < t.len() && t[i].0@ == k;
                assert(s[i] == t[i]);
            }
            if exists|i: int| 0 <= i < s.len() && s[i].0@ == k {
                let i = choose|i: int| 0 <= i < s.len() && s[i].0@ == k;
                if i < t.len() {
                    assert(t[i] == s[i]);
                }
            }
        }
        if names_distinct(s) {
            assert(names_distinct(t)) by {
                assert forall|i: int, j: int| 0 <= i < j < t.len() implies t[i].0@ != t[j].0@ by {
                    assert(t[i] == s[i] && t[j] == s[j]);
                }
            }
            assert forall|i: int| #![trigger s[i]] 0 <= i < s.len() implies rows_map(s)[s[i].0@] == s[i].1 by {
                if i < t.len() {
                    assert(t[i] == s[i]);
                    assert(s[i].0@ != s.last().0@);
                }
            }
        }
    }
}

/// Seconds of use per process name.
///
/// The entries form a list in which no name occurs twice; the view is the
/// map from each name to its seconds, and forgets the order of the list.
#[derive(Debug)]
pub struct Totals {
    entries: Vec<(String, i64)>,
}

impl View for Totals {
    type V = Map<Seq<char>, i64>;

    /// The seconds of each name.
    closed spec fn view(&self) -> Map<Seq<char>, i64> {
        rows_map(self.entries@)
    }
}

impl Totals {
    #[verifier::type_invariant]
    spec fn distinct(self) -> bool {
        names_distinct(self.entries@)
    }

    /// No name has any time.
    pub fn new() -> (r: Totals)
        ensures
            r.view() == Map::<Seq<char>, i64>::empty(),
    {
        Totals { entries: Vec::new() }
    }

    /// The totals that `rows` hold; a later row for a name replaces an earlier
    /// one.
    pub fn from_rows(rows: Vec<(String, i64)>) -> (r: Totals)
        ensures
            r.view() == rows_map(rows@),
    {
        let mut t = Totals::new();
        let mut i: usize = 0;
        let n = rows.len();
        let ghost rs = rows@;
        let mut rows = rows;
        while rows.len() > 0
            invariant
                i + rows@.len() == rs.len(),
                rs.len() == n,
                rows@ == rs.subrange(i as int, rs.len() as int),
                t.view() == rows_map(rs.subrange(0, i as int)),
            decreases rows.len(),
        {
            let (name, secs) = rows.remove(0);
            proof {
                assert(rs[i as int] == (name, secs));
            }
            t.insert(name, secs);
            proof {
                let pre = rs.subrange(0, i + 1);
                assert(pre.drop_last() =~= rs.subrange(0, i as int));
                assert(pre.last() == rs[i as int]);
            }
            i = i + 1;
            assert(rows@ =~= rs.subrange(i as int, rs.len() as int));
        }
        assert(rs.subrange(0, rs.len() as int) =~= rs);
        t
    }

    /// The seconds of `name`, if it has any entry.
    pub fn get(&self, name: &String) -> (r: Option<i64>)
        ensures
            r == (if self.view().contains_key(name@) {
                Some(self.view()[name@])
            } else {
                None
            }),
    {
        proof {
            use_type_invariant(self);
            lemma_rows_map(self.entries@);
        }
        let mut i: usize = 0;
        while i < self.entries.len()
            invariant
                i <= self.entries.len(),
                names_distinct(self.entries@),
                forall|j: int| 0 <= j < i ==> self.entries@[j].0@ != name@,
            decreases self.entries.len() - i,
        {
            if self.entries[i].0 == *name {
                proof {
                    lemma_rows_map(self.entries@);
                    let e = self.entries@[i as int];
                    assert(self.view().contains_key(e.0@));
                }
                return Some(self.entries[i].1);
            }
            i = i + 1;
        }
        proof {
            if self.view().contains_key(name@) {
                let j = choose|j: int| 0 <= j < self.entries@.len() && self.entries@[j].0@ == name@;
            }
        }
        None
    }

    /// Sets the seconds of `name`.
    pub fn insert(&mut self, name: String, secs: i64)
        ensures
            final(self).view() == old(self).view().insert(name@, secs),
    {
        proof {
            use_type_invariant(&*self);
        }
        let ghost before = self.entries@;
        let mut entries: Vec<(String, i64)> = Vec::new();
        std::mem::swap(&mut entries, &mut self.entries);
        let mut i: usize = 0;
        let mut found = false;
        while i < entries.len()
            invariant_except_break
                !found,
            invariant
                entries@ == before,
                names_distinct(before),
                i <= entries.len(),
                forall|j: int| 0 <= j < i ==> before[j].0@ != name@,
            ensures
                entries@ == before,
                i <= entries.len(),
                forall|j: int| 0 <= j < i ==> before[j].0@ != name@,
                found ==> i < entries.len() && before[i as int].0@ == name@,
                !found ==> i == entries.len(),
            decreases entries.len() - i,
        {
            if entries[i].0 == name {
                found = true;
                break;
            }
            i = i + 1;
        }
        proof {
            lemma_rows_map(before);
        }
        if found {
            let ghost old_entry = before[i as int];
            let ghost key = before[i as int].0;
            let (k, _) = entries.remove(i);
            entries.insert(i, (k, secs));
            proof {
                let after = entries@;
                assert(after =~= before.update(i as int, (key, secs)));
                assert(names_distinct(after)) by {
                    assert forall|a: int, b: int| 0 <= a < b < after.len() implies after[a].0@ != after[b].0@ by {
                        assert(after[a].0@ == before[a].0@);
                        assert(after[b].0@ == before[b].0@);
                    }
                }
                lemma_rows_map(after);
                assert(rows_map(after) =~= rows_map(before).insert(name@, secs)) by {
                    assert forall|kk: Seq<char>| #[trigger] rows_map(after).contains_key(kk)
                        <==> rows_map(before).insert(name@, secs).contains_key(kk) by {
                        if rows_map(after).contains_key(kk) {
                            let j = choose|j: int| 0 <= j < after.len() && after[j].0@ == kk;
                            assert(before[j].0@ == kk);
                        }
                        if rows_map(before).contains_key(kk) {
                            let j = choose|j: int| 0 <= j < before.len() && before[j].0@ == kk;
                            assert(after[j].0@ == kk);
                        }
                        if kk == name@ {
                            assert(after[i as int].0@ == kk);
                        }
                    }
                    assert forall|kk: Seq<char>| #[trigger] rows_map(after).contains_key(kk)
                        implies rows_map(after)[kk] == rows_map(before).insert(name@, secs)[kk] by {
                        let j = choose|j: int| 0 <= j < after.len() && after[j].0@ == kk;
                        assert(after[j] == after[j]);
                        if j == i {
                        } else {
                            assert(before[j] == after[j]);
                            assert(before[j].0@ != name@);
                        }
                    }
                }
            }
        } else {
            let ghost t = name@;
            entries.push((name, secs));
            proof {
                let after = entries@;
                assert(after.drop_last() =~= before);
                assert(names_distinct(after)) by {
                    assert forall|a: int, b: int| 0 <= a < b < after.len() implies after[a].0@ != after[b].0@ by {
                        if b == before.len() {
                            assert(after[a] == before[a]);
                        } else {
                            assert(after[a] == before[a]);
                            assert(after[b] == before[b]);
                        }
                    }
                }
            }
        }
        self.entries = entries;
    }
}

/// A process is hidden when the app manager knows it and its box is
/// unchecked; its time is still recorded.
pub open spec fn is_hidden(known: Seq<String>, visible: Set<Seq<char>>, name: Seq<char>) -> bool {
    texts(known).contains(name) && !visible.contains(name)
}

/// The seconds that `acc` gives `name`, 0 when it has none.
pub open spec fn secs_of(acc: Map<Seq<char>, i64>, name: Seq<char>) -> int {
    if acc.contains_key(name) {
        acc[name] as int
    } else {
        0
    }
}

/// The name and elapsed seconds of the session running now, if any.
pub open spec fn running_view(running: Option<(String, i64)>) -> Option<(Seq<char>, int)> {
    match running {
        Some((n, e)) => Some((n@, e as int)),
        None => None,
    }
}

/// The totals with the running session's seconds added to its process.
pub open spec fn with_running(acc: Map<Seq<char>, i64>, running: Option<(Seq<char>, int)>) -> Map<
    Seq<char>,
    i64,
> {
    match running {
        Some((n, e)) => acc.insert(n, (secs_of(acc, n) + e) as i64),
        None => acc,
    }
}

/// The running session's seconds fit in an `i64` when added to its process.
pub open spec fn running_fits(acc: Map<Seq<char>, i64>, running: Option<(Seq<char>, int)>) -> bool {
    match running {
        Some((n, e)) => i64::MIN <= secs_of(acc, n) + e <= i64::MAX,
        None => true,
    }
}

/// What the "today" list shows: every process with at least one second once
/// the running session is added, except hidden ones.
pub open spec fn shown_map(
    acc: Map<Seq<char>, i64>,
    running: Option<(Seq<char>, int)>,
    known: Seq<String>,
    visible: Set<Seq<char>>,
) -> Map<Seq<char>, i64> {
    let m = with_running(acc, running);
    Map::new(|k: Seq<char>| m.contains_key(k) && m[k] >= 1 && !is_hidden(known, visible, k), |k: Seq<char>| m[k])
}

/// Inserts `x` into a list in non-increasing order of seconds, after every
/// entry with as many seconds or more; returns where it went.
pub fn insert_by_secs(out: &mut Vec<(String, i64)>, x: (String, i64)) -> (pos: usize)
    requires
        sorted_by_secs_desc(old(out)@),
    ensures
        pos <= old(out)@.len(),
        final(out)@ == old(out)@.insert(pos as int, x),
        sorted_by_secs_desc(final(out)@),
{
    let mut p: usize = 0;
    while p < out.len()
        invariant
            p <= out.len(),
            forall|q: int| 0 <= q < p ==> #[trigger] out@[q].1 >= x.1,
        ensures
            p <= out.len(),
            forall|q: int| 0 <= q < p ==> #[trigger] out@[q].1 >= x.1,
            p == out.len() || out@[p as int].1 < x.1,
        decreases out.len() - p,
    {
        if out[p].1 < x.1 {
            break;
        }
        p = p + 1;
    }
    let ghost before = out@;
    out.insert(p, x);
    proof {
        before.insert_ensures(p as int, x);
        let t = out@;
        assert forall|i: int, j: int| 0 <= i < j < t.len() implies t[i].1 >= t[j].1 by {
            if j < p {
            } else if j == p {
            } else if i < p {
                assert(t[j] == before[j - 1]);
            } else if i == p {
                assert(t[j] == before[j - 1]);
            } else {
                assert(t[i] == before[i - 1]);
                assert(t[j] == before[j - 1]);
            }
        }
    }
    p
}

/// The seconds the list shows for entry `e`: its own, plus the running
/// session's when it is that process.
pub open spec fn adjusted_secs(e: (String, i64), running: Option<(Seq<char>, int)>) -> int {
    match running {
        Some((n, el)) => if e.0@ == n {
            e.1 + el
        } else {
            e.1 as int
        },
        None => e.1 as int,
    }
}

/// `x` carries the name and adjusted seconds of one of the entries.
pub open spec fn from_entries(x: (String, i64), es: Seq<(String, i64)>, rv: Option<(Seq<char>, int)>) -> bool {
    exists|j: int| 0 <= j < es.len() && x.0@ == es[j].0@ && x.1 == adjusted_secs(es[j], rv)
}

/// The seconds that the totals with the running session give an entry's name.
proof fn lemma_entry_secs(es: Seq<(String, i64)>, rv: Option<(Seq<char>, int)>, j: int)
    requires
        names_distinct(es),
        0 <= j < es.len(),
    ensures
        with_running(rows_map(es), rv).contains_key(es[j].0@),
        with_running(rows_map(es), rv)[es[j].0@] == (adjusted_secs(es[j], rv) as i64),
{
    lemma_rows_map(es);
    assert(rows_map(es).contains_key(es[j].0@));
}

/// A list with no name twice, made of the kept entries (each with its
/// adjusted seconds) and, when its process has no entry, the running session,
/// is as a map the list the screen shows.
proof fn lemma_shown(
    es: Seq<(String, i64)>,
    rv: Option<(Seq<char>, int)>,
    known: Seq<String>,
    visible: Set<Seq<char>>,
    t: Seq<(String, i64)>,
)
    requires
        names_distinct(es),
        names_distinct(t),
        running_fits(rows_map(es), rv),
        forall|i: int|
            #![trigger t[i]]
            0 <= i < t.len() ==> t[i].1 >= 1 && !is_hidden(known, visible, t[i].0@) && (from_entries(
                t[i],
                es,
                rv,
            ) || (rv matches Some((n, el)) && t[i].0@ == n && t[i].1 == el && !(exists|j: int|
                0 <= j < es.len() && es[j].0@ == n))),
        forall|j: int|
            #![trigger es[j]]
            0 <= j < es.len() && adjusted_secs(es[j], rv) >= 1 && !is_hidden(known, visible, es[j].0@)
                ==> exists|i: int| 0 <= i < t.len() && t[i].0@ == es[j].0@,
        rv matches Some((n, el)) ==> ((el >= 1 && !is_hidden(known, visible, n) && !(exists|j: int|
            0 <= j < es.len() && es[j].0@ == n)) ==> exists|i: int| 0 <= i < t.len() && t[i].0@ == n),
    ensures
        rows_map(t) == shown_map(rows_map(es), rv, known, visible),
{
    lemma_rows_map(es);
    lemma_rows_map(t);
    let acc = rows_map(es);
    let m = with_running(acc, rv);
    let sm = shown_map(acc, rv, known, visible);
    assert forall|kk: Seq<char>| #[trigger] rows_map(t).contains_key(kk) implies sm.contains_key(kk)
        && rows_map(t)[kk] == sm[kk] by {
        let i = choose|i: int| 0 <= i < t.len() && t[i].0@ == kk;
        assert(rows_map(t)[t[i].0@] == t[i].1);
        if from_entries(t[i], es, rv) {
            let j = choose|j: int| 0 <= j < es.len() && t[i].0@ == es[j].0@ && t[i].1 == adjusted_secs(es[j], rv);
            lemma_entry_secs(es, rv, j);
        } else {
            assert(!acc.contains_key(kk));
        }
    }
    assert forall|kk: Seq<char>| #[trigger] sm.contains_key(kk) implies rows_map(t).contains_key(kk) by {
        if acc.contains_key(kk) {
            let j = choose|j: int| 0 <= j < es.len() && es[j].0@ == kk;
            lemma_entry_secs(es, rv, j);
        } else {
            assert(rv matches Some((n, el)) && n == kk);
        }
    }
    assert(rows_map(t) =~= sm);
}

/// Whether entry `e` is on the list once its seconds are adjusted.
pub open spec fn kept(e: (String, i64), rv: Option<(Seq<char>, int)>, known: Seq<String>, visible: Set<Seq<char>>) -> bool {
    adjusted_secs(e, rv) >= 1 && !is_hidden(known, visible, e.0@)
}

/// `out` is the list built from the first `k` entries: sorted, no name twice,
/// each of its rows a kept entry with adjusted seconds, and every kept entry
/// among the first `k` on it.
#[verifier::opaque]
pub open spec fn covers(
    out: Seq<(String, i64)>,
    es: Seq<(String, i64)>,
    k: int,
    rv: Option<(Seq<char>, int)>,
    known: Seq<String>,
    visible: Set<Seq<char>>,
) -> bool {
    &&& sorted_by_secs_desc(out)
    &&& names_distinct(out)
    &&& forall|i: int|
        #![trigger out[i]]
        0 <= i < out.len() ==> out[i].1 >= 1 && !is_hidden(known, visible, out[i].0@) && exists|j: int|
            0 <= j < k && out[i].0@ == es[j].0@ && out[i].1 == adjusted_secs(es[j], rv)
    &&& forall|j: int|
        #![trigger es[j]]
        0 <= j < k && kept(es[j], rv, known, visible) ==> exists|i: int|
            0 <= i < out.len() && out[i].0@ == es[j].0@
}

/// Handling entry `k` keeps [`covers`]: it is inserted when kept, skipped
/// otherwise.
proof fn lemma_covers_step(
    before: Seq<(String, i64)>,
    after: Seq<(String, i64)>,
    es: Seq<(String, i64)>,
    k: int,
    rv: Option<(Seq<char>, int)>,
    known: Seq<String>,
    visible: Set<Seq<char>>,
    pos: int,
)
    requires
        names_distinct(es),
        0 <= k < es.len(),
        i64::MIN <= adjusted_secs(es[k], rv) <= i64::MAX,
        covers(before, es, k, rv, known, visible),
        sorted_by_secs_desc(after),
        kept(es[k], rv, known, visible) ==> 0 <= pos <= before.len() && after == before.insert(
            pos,
            (es[k].0, adjusted_secs(es[k], rv) as i64),
        ),
        !kept(es[k], rv, known, visible) ==> after == before,
    ensures
        covers(after, es, k + 1, rv, known, visible),
{
    reveal(covers);
    if kept(es[k], rv, known, visible) {
        let x = (es[k].0, adjusted_secs(es[k], rv) as i64);
        before.insert_ensures(pos, x);
        assert forall|i: int| 0 <= i < before.len() implies before[i].0@ != x.0@ by {
            let j = choose|j: int| 0 <= j < k && before[i].0@ == es[j].0@ && before[i].1 == adjusted_secs(es[j], rv);
        }
        assert forall|a: int, b: int| 0 <= a < b < after.len() implies after[a].0@ != after[b].0@ by {
            let aa = if a < pos { a } else { a - 1 };
            let bb = if b <= pos { b } else { b - 1 };
            if a == pos {
                assert(after[b] == before[bb]);
            } else if b == pos {
                assert(after[a] == before[aa]);
            } else {
                assert(after[a] == before[aa]);
                assert(after[b] == before[bb]);
            }
        }
        assert forall|i: int|
            #![trigger after[i]]
            0 <= i < after.len() implies after[i].1 >= 1 && !is_hidden(known, visible, after[i].0@) && exists|j: int|
                0 <= j < k + 1 && after[i].0@ == es[j].0@ && after[i].1 == adjusted_secs(es[j], rv) by {
            if i == pos {
                assert(after[i].0@ == es[k].0@);
                assert(after[i].1 == adjusted_secs(es[k], rv));
            } else {
                let ii = if i < pos { i } else { i - 1 };
                assert(after[i] == before[ii]);
                let j = choose|j: int| 0 <= j < k && before[ii].0@ == es[j].0@ && before[ii].1 == adjusted_secs(es[j], rv);
                assert(0 <= j < k + 1 && after[i].0@ == es[j].0@ && after[i].1 == adjusted_secs(es[j], rv));
            }
        }
        assert forall|j: int|
            #![trigger es[j]]
            0 <= j < k + 1 && kept(es[j], rv, known, visible) implies exists|i: int|
                0 <= i < after.len() && after[i].0@ == es[j].0@ by {
            if j == k {
                assert(after[pos].0@ == es[j].0@);
            } else {
                let i = choose|i: int| 0 <= i < before.len() && before[i].0@ == es[j].0@;
                if i < pos {
                    assert(after[i] == before[i]);
                } else {
                    assert(after[i + 1] == before[i]);
                }
            }
        }
    } else {
        assert forall|i: int|
            #![trigger after[i]]
            0 <= i < after.len() implies after[i].1 >= 1 && !is_hidden(known, visible, after[i].0@) && exists|j: int|
                0 <= j < k + 1 && after[i].0@ == es[j].0@ && after[i].1 == adjusted_secs(es[j], rv) by {
            assert(before[i] == after[i]);
            assert(before[i].1 >= 1);
            let j = choose|j: int| 0 <= j < k && before[i].0@ == es[j].0@ && before[i].1 == adjusted_secs(es[j], rv);
            assert(0 <= j < k + 1 && after[i].0@ == es[j].0@ && after[i].1 == adjusted_secs(es[j], rv));
        }
    }
}

/// Once every entry is handled, adding the running session when its process
/// has no entry (and it is kept) gives the list the screen shows.
proof fn lemma_covers_final(
    mid: Seq<(String, i64)>,
    t: Seq<(String, i64)>,
    es: Seq<(String, i64)>,
    rv: Option<(Seq<char>, int)>,
    known: Seq<String>,
    visible: Set<Seq<char>>,
    extra: Option<(String, i64)>,
    pos: int,
)
    requires
        names_distinct(es),
        running_fits(rows_map(es), rv),
        covers(mid, es, es.len() as int, rv, known, visible),
        sorted_by_secs_desc(t),
        extra is None ==> t == mid,
        extra matches Some(x) ==> 0 <= pos <= mid.len() && t == mid.insert(pos, x),
        extra matches Some(x) ==> (rv matches Some((n, el)) && x.0@ == n && x.1 == el),
        extra matches Some(x) ==> x.1 >= 1 && !is_hidden(known, visible, x.0@) && !(exists|j: int|
            0 <= j < es.len() && es[j].0@ == x.0@),
        extra is None ==> (rv matches Some((n, el)) ==> ((el >= 1 && !is_hidden(known, visible, n)) ==> exists|j: int|
            0 <= j < es.len() && es[j].0@ == n)),
    ensures
        sorted_by_secs_desc(t),
        names_distinct(t),
        rows_map(t) == shown_map(rows_map(es), rv, known, visible),
{
    reveal(covers);
    match extra {
        Some(x) => {
            mid.insert_ensures(pos, x);
            assert forall|i: int| 0 <= i < mid.len() implies mid[i].0@ != x.0@ by {
                let j = choose|j: int| 0 <= j < es.len() && mid[i].0@ == es[j].0@ && mid[i].1 == adjusted_secs(es[j], rv);
            }
            assert forall|a: int, b: int| 0 <= a < b < t.len() implies t[a].0@ != t[b].0@ by {
                let aa = if a < pos { a } else { a - 1 };
                let bb = if b <= pos { b } else { b - 1 };
                if a == pos {
                    assert(t[b] == mid[bb]);
                } else if b == pos {
                    assert(t[a] == mid[aa]);
                } else {
                    assert(t[a] == mid[aa]);
                    assert(t[b] == mid[bb]);
                }
            }
            assert forall|i: int|
                #![trigger t[i]]
                0 <= i < t.len() implies t[i].1 >= 1 && !is_hidden(known, visible, t[i].0@) && (from_entries(
                    t[i],
                    es,
                    rv,
                ) || (rv matches Some((n, el)) && t[i].0@ == n && t[i].1 == el && !(exists|j: int|
                    0 <= j < es.len() && es[j].0@ == n))) by {
                if i != pos {
                    let ii = if i < pos { i } else { i - 1 };
                    assert(t[i] == mid[ii]);
                    let j = choose|j: int| 0 <= j < es.len() && mid[ii].0@ == es[j].0@ && mid[ii].1 == adjusted_secs(es[j], rv);
                }
            }
            assert forall|j: int|
                #![trigger es[j]]
                0 <= j < es.len() && adjusted_secs(es[j], rv) >= 1 && !is_hidden(known, visible, es[j].0@)
                    implies exists|i: int| 0 <= i < t.len() && t[i].0@ == es[j].0@ by {
                assert(kept(es[j], rv, known, visible));
                let i = choose|i: int| 0 <= i < mid.len() && mid[i].0@ == es[j].0@;
                if i < pos {
                    assert(t[i] == mid[i]);
                } else {
                    assert(t[i + 1] == mid[i]);
                }
            }
            assert(t[pos].0@ == x.0@);
        },
        None => {
            assert forall|i: int|
                #![trigger t[i]]
                0 <= i < t.len() implies t[i].1 >= 1 && !is_hidden(known, visible, t[i].0@) && from_entries(
                    t[i],
                    es,
                    rv,
                ) by {
                let j = choose|j: int| 0 <= j < es.len() && mid[i].0@ == es[j].0@ && mid[i].1 == adjusted_secs(es[j], rv);
            }
            assert forall|j: int|
                #![trigger es[j]]
                0 <= j < es.len() && adjusted_secs(es[j], rv) >= 1 && !is_hidden(known, visible, es[j].0@)
                    implies exists|i: int| 0 <= i < t.len() && t[i].0@ == es[j].0@ by {
                assert(kept(es[j], rv, known, visible));
            }
        },
    }
    lemma_shown(es, rv, known, visible, t);
}

impl Totals {
    /// The list the "today" screen shows, largest first: each process's
    /// seconds, the running session added to its process (`running` holds its
    /// process name and elapsed seconds), without processes under one second
    /// and without hidden ones. Processes with equal seconds come in no
    /// particular order.
    pub fn shown(
        &self,
        running: Option<(String, i64)>,
        known: &Vec<String>,
        visible: &NameSet,
    ) -> (r: Vec<(String, i64)>)
        requires
            running_fits(self.view(), running_view(running)),
        ensures
            sorted_by_secs_desc(r@),
            names_distinct(r@),
            rows_map(r@) == shown_map(self.view(), running_view(running), known@, visible.view()),
    {
        proof {
            use_type_invariant(self);
            lemma_rows_map(self.entries@);
        }
        let ghost es = self.entries@;
        let ghost rv = running_view(running);
        let mut out: Vec<(String, i64)> = Vec::new();
        let mut found = false;
        let mut k: usize = 0;
        proof {
            reveal(covers);
        }
        while k < self.entries.len()
            invariant
                es == self.entries@,
                names_distinct(es),
                rv == running_view(running),
                running_fits(rows_map(es), rv),
                forall|j: int| #![trigger es[j]] 0 <= j < es.len() ==> rows_map(es)[es[j].0@] == es[j].1,
                forall|j: int| #![trigger es[j]] 0 <= j < es.len() ==> rows_map(es).contains_key(es[j].0@),
                k <= es.len(),
                sorted_by_secs_desc(out@),
                covers(out@, es, k as int, rv, known@, visible.view()),
                found <==> (rv matches Some((n, _)) && exists|j: int| 0 <= j < k && es[j].0@ == n),
            decreases es.len() - k,
        {
            let name = self.entries[k].0.clone();
            let secs = self.entries[k].1;
            let v: i64 = match &running {
                Some((n, el)) => {
                    if *n == name {
                        found = true;
                        proof {
                            assert(secs_of(rows_map(es), n@) == es[k as int].1);
                        }
                        secs + *el
                    } else {
                        secs
                    }
                },
                None => secs,
            };
            assert(v == adjusted_secs(es[k as int], rv));
            let hide = list_contains_hidden(known, visible, &name);
            let ghost before = out@;
            let mut pos: usize = 0;
            proof {
                reveal(covers);
            }
            if v >= 1 && !hide {
                pos = insert_by_secs(&mut out, (name, v));
            }
            proof {
                lemma_covers_step(before, out@, es, k as int, rv, known@, visible.view(), pos as int);
            }
            k = k + 1;
        }
        let ghost mid = out@;
        let ghost mut extra: Option<(String, i64)> = None;
        let mut pos: usize = 0;
        match running {
            Some((n, el)) => {
                if !found {
                    let hide = list_contains_hidden(known, visible, &n);
                    if el >= 1 && !hide {
                        proof {
                            extra = Some((n, el));
                        }
                        pos = insert_by_secs(&mut out, (n, el));
                    }
                }
            },
            None => {},
        }
        proof {
            lemma_covers_final(mid, out@, es, rv, known@, visible.view(), extra, pos as int);
        }
        out
    }
}

/// Whether `name` is hidden: known to the app manager and not visible.
pub fn list_contains_hidden(known: &Vec<String>, visible: &NameSet, name: &String) -> (r: bool)
    ensures
        r == is_hidden(known@, visible.view(), name@),
{
    crate::names::list_contains(known, name) && !visible.contains(name)
}

/// Unchecking a process the app manager knows takes exactly that process off
/// the list; its time is still in the totals.
pub proof fn lemma_hiding_removes_only_that(
    acc: Map<Seq<char>, i64>,
    running: Option<(Seq<char>, int)>,
    known: Seq<String>,
    visible: Set<Seq<char>>,
    name: Seq<char>,
)
    requires
        texts(known).contains(name),
    ensures
        shown_map(acc, running, known, visible.remove(name)) == shown_map(acc, running, known, visible).remove(
            name,
        ),
{
    assert(shown_map(acc, running, known, visible.remove(name)) =~= shown_map(acc, running, known, visible).remove(
        name,
    ));
}

/// Unchecking a process and checking it again gives back the same list.
pub proof fn lemma_uncheck_then_check(
    acc: Map<Seq<char>, i64>,
    running: Option<(Seq<char>, int)>,
    known: Seq<String>,
    visible: Set<Seq<char>>,
    name: Seq<char>,
)
    requires
        visible.contains(name),
    ensures
        shown_map(acc, running, known, visible.remove(name).insert(name)) == shown_map(acc, running, known, visible),
{
    assert(visible.remove(name).insert(name) =~= visible);
}

/// The sum of the seconds in `s`.
pub open spec fn sum_secs(s: Seq<(String, i64)>) -> int
    decreases s.len(),
{
    if s.len() == 0 {
        0
    } else {
        sum_secs(s.drop_last()) + s.last().1
    }
}

/// The grand total under a list of usage rows. Every running sum must fit in
/// an `i64`, as adding them up one by one overflows otherwise.
pub fn grand_total(rows: &Vec<(String, i64)>) -> (r: i64)
    requires
        forall|k: int| 0 <= k <= rows@.len() ==> i64::MIN <= #[trigger] sum_secs(rows@.subrange(0, k)) <= i64::MAX,
    ensures
        r == sum_secs(rows@),
{
    let mut total: i64 = 0;
    let mut i: usize = 0;
    assert(rows@.subrange(0, 0) =~= Seq::<(String, i64)>::empty());
    while i < rows.len()
        invariant
            i <= rows.len(),
            forall|k: int| 0 <= k <= rows@.len() ==> i64::MIN <= #[trigger] sum_secs(rows@.subrange(0, k)) <= i64::MAX,
            total == sum_secs(rows@.subrange(0, i as int)),
        decreases rows.len() - i,
    {
        proof {
            let next = rows@.subrange(0, i + 1);
            assert(next.drop_last() =~= rows@.subrange(0, i as int));
            assert(i64::MIN <= sum_secs(next) <= i64::MAX);
        }
        total = total + rows[i].1;
        i = i + 1;
    }
    assert(rows@.subrange(0, rows.len() as int) =~= rows@);
    total
}

} // verus!
