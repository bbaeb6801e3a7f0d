//! The history screen: usage per day or per month, grouped under headings.
use vstd::prelude::*;

verus! {

/// Which breakdown the history screen shows.
#[derive(Debug, Clone, Copy, PartialEq, Eq, Structural)]
pub enum HistoryMode {
    Daily,
    Monthly,
}

/// One row of the breakdown: a day (`YYYY-MM-DD`) or month (`YYYY-MM`), a
/// process, and its seconds in that period.
#[derive(Debug)]
pub struct HistoryRow {
    pub period: String,
    pub process: String,
    pub total_secs: i64,
}

/// The rows under one heading.
#[derive(Debug)]
pub struct HistorySection {
    pub period: String,
    pub rows: Vec<(String, i64)>,
}

/// A row as plain values.
pub open spec fn row_view(r: HistoryRow) -> (Seq<char>, Seq<char>, i64) {
    (r.period@, r.process@, r.total_secs)
}

/// The rows of a list of sections, in order, each with its section's period.
pub open spec fn flatten(sections: Seq<HistorySection>) -> Seq<(Seq<char>, Seq<char>, i64)>
    decreases sections.len(),
{
    if sections.len() == 0 {
        Seq::empty()
    } else {
        flatten(sections.drop_last()) + sections.last().rows@.map_values(
            |e: (String, i64)| (sections.last().period@, e.0@, e.1),
        )
    }
}

/// Sections are runs of rows: none is empty, and two in a row never share a
/// period.
pub open spec fn well_grouped(sections: Seq<HistorySection>) -> bool {
    &&& forall|i: int| 0 <= i < sections.len() ==> #[trigger] sections[i].rows@.len() > 0
    &&& forall|i: int| 0 < i < sections.len() ==> #[trigger] sections[i].period@ != sections[i - 1].period@
}

/// The rows of the section being filled, each with its period.
pub open spec fn pending(period: Option<String>, rows: Seq<(String, i64)>) -> Seq<(Seq<char>, Seq<char>, i64)> {
    match period {
        Some(p) => rows.map_values(|e: (String, i64)| (p@, e.0@, e.1)),
        None => Seq::empty(),
    }
}

/// Closing a section behind a grouped list whose last period differs keeps
/// the list grouped, and its rows follow the rows already there.
proof fn lemma_push_section(pre: Seq<HistorySection>, sec: HistorySection)
    requires
        well_grouped(pre),
        sec.rows@.len() > 0,
        pre.len() > 0 ==> pre.last().period@ != sec.period@,
    ensures
        well_grouped(pre.push(sec)),
        flatten(pre.push(sec)) == flatten(pre) + pending(Some(sec.period), sec.rows@),
{
    let out = pre.push(sec);
    assert(out.drop_last() =~= pre);
    assert forall|a: int| 0 < a < out.len() implies #[trigger] out[a].period@ != out[a - 1].period@ by {
        if a < out.len() - 1 {
            assert(out[a] == pre[a]);
        }
        assert(out[a - 1] == pre[a - 1]);
    }
    assert forall|a: int| 0 <= a < out.len() implies #[trigger] out[a].rows@.len() > 0 by {
        if a < pre.len() {
            assert(out[a] == pre[a]);
        }
    }
}

/// Groups the rows, in their order, under a heading each time the period
/// changes.
pub fn history_sections(rows: Vec<HistoryRow>) -> (r: Vec<HistorySection>)
    ensures
        flatten(r@) == rows@.map_values(|x: HistoryRow| row_view(x)),
        well_grouped(r@),
{
    let ghost all = rows@.map_values(|x: HistoryRow| row_view(x));
    let ghost orig = rows@;
    let n = rows.len();
    let mut rows = rows;
    let mut out: Vec<HistorySection> = Vec::new();
    let mut cur_period: Option<String> = None;
    let mut cur_rows: Vec<(String, i64)> = Vec::new();
    let mut k: usize = 0;
    while rows.len() > 0
        invariant
            n == orig.len(),
            all == orig.map_values(|x: HistoryRow| row_view(x)),
            k + rows@.len() == n,
            rows@ == orig.subrange(k as int, n as int),
            flatten(out@) + pending(cur_period, cur_rows@) == all.subrange(0, k as int),
            well_grouped(out@),
            cur_period is Some ==> cur_rows@.len() > 0 && (out@.len() > 0 ==> out@.last().period@
                != cur_period->0@),
            cur_period is None ==> out@.len() == 0 && k == 0 && cur_rows@.len() == 0,
        decreases rows.len(),
    {
        let x = rows.remove(0);
        proof {
            assert(x == orig[k as int]);
            assert(all[k as int] == row_view(x));
            assert(all.subrange(0, k + 1) =~= all.subrange(0, k as int).push(row_view(x)));
        }
        let ghost pre_out = out@;
        let ghost pre_pending = pending(cur_period, cur_rows@);
        let same = match &cur_period {
            Some(p) => *p == x.period,
            None => false,
        };
        if same {
            cur_rows.push((x.process, x.total_secs));
            proof {
                assert(pending(cur_period, cur_rows@) =~= pre_pending.push(row_view(x)));
            }
        } else {
            match cur_period {
                Some(p) => {
                    let mut done: Vec<(String, i64)> = Vec::new();
                    std::mem::swap(&mut done, &mut cur_rows);
                    out.push(HistorySection { period: p, rows: done });
                    proof {
                        lemma_push_section(pre_out, out@.last());
                        assert(out@ == pre_out.push(out@.last()));
                    }
                },
                None => {},
            }
            cur_period = Some(x.period);
            cur_rows = Vec::new();
            cur_rows.push((x.process, x.total_secs));
            proof {
                assert(pending(cur_period, cur_rows@) =~= seq![row_view(x)]);
            }
        }
        k = k + 1;
        proof {
            assert(rows@ =~= orig.subrange(k as int, n as int));
        }
    }
    match cur_period {
        Some(p) => {
            let ghost pre_out = out@;
            out.push(HistorySection { period: p, rows: cur_rows });
            proof {
                lemma_push_section(pre_out, out@.last());
                assert(out@ == pre_out.push(out@.last()));
            }
        },
        None => {
            assert(flatten(out@) =~= Seq::<(Seq<char>, Seq<char>, i64)>::empty());
        },
    }
    assert(all.subrange(0, n as int) =~= all);
    out
}

} // verus!
