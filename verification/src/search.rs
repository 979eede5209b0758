//! The single pass over a document's event sequence: run the tracker over
//! every event, then assemble the citation record.

use vstd::prelude::*;
use crate::assemble::{assemble_record, assembled, LawParagraph};
use crate::events::XmlEvent;
use crate::tracker::{
    counters_bounded, init_state, lemma_step_bounded, spec_step, step, ScanState, ScanStateView,
    SearchError,
};

verus! {

/// The scan state after the whole event sequence, or the first fatal error.
pub open spec fn spec_run(evs: Seq<crate::events::XmlEventView>, terms: Seq<Seq<char>>) -> Result<
    ScanStateView,
    SearchError,
>
    decreases evs.len(),
{
    if evs.len() == 0 {
        Ok(init_state())
    } else {
        match spec_run(evs.drop_last(), terms) {
            Ok(s) => spec_step(s, evs.last(), terms),
            Err(e) => Err(e),
        }
    }
}

/// Once a prefix fails, the whole sequence fails with the same error.
proof fn lemma_run_error_persists(
    evs: Seq<crate::events::XmlEventView>,
    terms: Seq<Seq<char>>,
    j: int,
)
    requires
        0 <= j <= evs.len(),
        spec_run(evs.take(j), terms) is Err,
    ensures
        spec_run(evs, terms) == spec_run(evs.take(j), terms),
    decreases evs.len() - j,
{
    if j == evs.len() {
        assert(evs.take(j) =~= evs);
    } else {
        assert(evs.take(j + 1).drop_last() =~= evs.take(j));
        assert(evs.take(j + 1).last() == evs[j]);
        lemma_run_error_persists(evs, terms, j + 1);
    }
}

/// Scans the events of one document for the given search terms.  A text node
/// matches when it contains at least one of the terms as a literal substring.
/// The record pairs the last-captured law identifier with the deduplicated,
/// canonically ordered addresses of all matches; the first fatal condition
/// (a missing required `Num` attribute, or undecodable bytes) aborts instead.
pub fn search_xml_any(search_strs: &Vec<String>, events: &Vec<XmlEvent>) -> (r: Result<
    LawParagraph,
    SearchError,
>)
    ensures
        match r {
            Ok(rec) => {
                &&& spec_run(events.deep_view(), search_strs.deep_view()) is Ok
                &&& rec@.num == spec_run(events.deep_view(), search_strs.deep_view())->Ok_0.law_num
                &&& rec@.chapter_data == assembled(
                    spec_run(events.deep_view(), search_strs.deep_view())->Ok_0.matches,
                )
            },
            Err(e) => spec_run(events.deep_view(), search_strs.deep_view()) == Err::<
                ScanStateView,
                SearchError,
            >(e),
        },
{
    let ghost evs = events.deep_view();
    let ghost tv = search_strs.deep_view();
    let mut st = ScanState::new();
    let mut i: usize = 0;
    proof {
        assert(evs.take(0) =~= Seq::<crate::events::XmlEventView>::empty());
    }
    while i < events.len()
        invariant
            i <= events.len(),
            evs == events.deep_view(),
            tv == search_strs.deep_view(),
            spec_run(evs.take(i as int), tv) == Ok::<ScanStateView, SearchError>(st@),
            counters_bounded(st@.addr, i as int),
        decreases events.len() - i,
    {
        let ghost pre = st@;
        proof {
            assert(events.deep_view()[i as int] == events[i as int].deep_view());
        }
        let res = step(&mut st, &events[i], search_strs);
        proof {
            assert(evs.take(i + 1).drop_last() =~= evs.take(i as int));
            assert(evs.take(i + 1).last() == evs[i as int]);
        }
        match res {
            Ok(()) => {},
            Err(e) => {
                proof {
                    assert(spec_run(evs.take(i + 1), tv) == Err::<ScanStateView, SearchError>(e));
                    lemma_run_error_persists(evs, tv, i + 1);
                }
                return Err(e);
            },
        }
        proof {
            lemma_step_bounded(pre, evs[i as int], tv, i as int);
        }
        i += 1;
    }
    proof {
        assert(evs.take(events.len() as int) =~= evs);
    }
    let ScanState { addr: _, law_num, law_num_mode: _, matches } = st;
    Ok(assemble_record(law_num, matches))
}

/// Scans the events of one document for a single search term.
pub fn search_xml(search_str: &str, events: &Vec<XmlEvent>) -> (r: Result<
    LawParagraph,
    SearchError,
>)
    ensures
        match r {
            Ok(rec) => {
                &&& spec_run(events.deep_view(), seq![search_str@]) is Ok
                &&& rec@.num == spec_run(events.deep_view(), seq![search_str@])->Ok_0.law_num
                &&& rec@.chapter_data == assembled(
                    spec_run(events.deep_view(), seq![search_str@])->Ok_0.matches,
                )
            },
            Err(e) => spec_run(events.deep_view(), seq![search_str@]) == Err::<
                ScanStateView,
                SearchError,
            >(e),
        },
{
    let mut terms: Vec<String> = Vec::new();
    terms.push(String::from_str(search_str));
    proof {
        assert(terms.deep_view() =~= seq![search_str@]);
    }
    search_xml_any(&terms, events)
}

} // verus!
