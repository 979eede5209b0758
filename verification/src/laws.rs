//! The library's general guarantees, stated and proved over the tracker's
//! transition function.

use vstd::prelude::*;
use crate::address::AddrView;
use crate::decode::utf8_decoded;
use crate::events::{spec_find_attr, spec_kind_of, ElementKind, XmlAttrView, XmlEventView};
use crate::matcher::{contains_any, contains_term, match_at};
use crate::tracker::{spec_on_start, spec_step, ScanStateView};

verus! {

/// Whether the kind is one of the five counted element kinds.
pub open spec fn is_counter_kind(k: ElementKind) -> bool {
    match k {
        ElementKind::Part => true,
        ElementKind::Chapter => true,
        ElementKind::Section => true,
        ElementKind::Subsection => true,
        ElementKind::Division => true,
        _ => false,
    }
}

/// The nesting rank of a counted kind: a part contains chapters, a chapter
/// contains sections, and so on down to divisions.
pub open spec fn counter_rank(k: ElementKind) -> int {
    match k {
        ElementKind::Part => 0,
        ElementKind::Chapter => 1,
        ElementKind::Section => 2,
        ElementKind::Subsection => 3,
        ElementKind::Division => 4,
        _ => 5,
    }
}

/// The counter field of an address that belongs to a counted kind.
pub open spec fn counter_of(a: AddrView, k: ElementKind) -> Option<usize> {
    match k {
        ElementKind::Part => a.part,
        ElementKind::Chapter => a.chapter,
        ElementKind::Section => a.section,
        ElementKind::Subsection => a.subsection,
        ElementKind::Division => a.division,
        _ => None,
    }
}

/// The address after a run of `n` sibling openings of the same element.
pub open spec fn open_siblings(a: AddrView, name: Seq<char>, n: nat) -> AddrView
    decreases n,
{
    if n == 0 {
        a
    } else {
        spec_on_start(
            open_siblings(a, name, (n - 1) as nat),
            name,
            Seq::<XmlAttrView>::empty(),
        )->Ok_0
    }
}

/// Law: in a run of sibling elements of one counted kind, opened with that
/// kind's counter initially unset, the Nth opening leaves that counter at
/// exactly N; counters of kinds nesting above never change across the run,
/// and counters of kinds nesting below are unset after every opening.
pub proof fn lemma_sibling_counters(a: AddrView, name: Seq<char>, n: nat)
    requires
        is_counter_kind(spec_kind_of(name)),
        counter_of(a, spec_kind_of(name)) is None,
        1 <= n < usize::MAX,
    ensures
        counter_of(open_siblings(a, name, n), spec_kind_of(name)) == Some(n as usize),
        forall|k: ElementKind|
            is_counter_kind(k) && counter_rank(k) < counter_rank(spec_kind_of(name))
                ==> #[trigger] counter_of(open_siblings(a, name, n), k) == counter_of(a, k),
        forall|k: ElementKind|
            is_counter_kind(k) && counter_rank(k) > counter_rank(spec_kind_of(name))
                ==> #[trigger] counter_of(open_siblings(a, name, n), k) is None,
    decreases n,
{
    let k0 = spec_kind_of(name);
    let prev = open_siblings(a, name, (n - 1) as nat);
    let cur = open_siblings(a, name, n);
    if n > 1 {
        lemma_sibling_counters(a, name, (n - 1) as nat);
    }
    assert(cur == spec_on_start(prev, name, Seq::<XmlAttrView>::empty())->Ok_0);
    match k0 {
        ElementKind::Part => {
            assert(counter_of(cur, k0) == Some(n as usize));
        },
        ElementKind::Chapter => {
            assert(counter_of(cur, k0) == Some(n as usize));
        },
        ElementKind::Section => {
            assert(counter_of(cur, k0) == Some(n as usize));
        },
        ElementKind::Subsection => {
            assert(counter_of(cur, k0) == Some(n as usize));
        },
        ElementKind::Division => {
            assert(counter_of(cur, k0) == Some(n as usize));
        },
        _ => {},
    }
    assert forall|k: ElementKind|
        is_counter_kind(k) && counter_rank(k) < counter_rank(k0) implies #[trigger] counter_of(
        cur,
        k,
    ) == counter_of(a, k) by {
        assert(counter_of(cur, k) == counter_of(prev, k));
    }
    assert forall|k: ElementKind|
        is_counter_kind(k) && counter_rank(k) > counter_rank(k0) implies #[trigger] counter_of(
        cur,
        k,
    ) is None by {}
}

/// Law: opening a chapter after a part, then a section, then a new chapter:
/// the second chapter's address has no section any more, and the part counter
/// is what the part opening set.
pub proof fn lemma_new_chapter_clears_section(
    a: AddrView,
    part_name: Seq<char>,
    chapter_name: Seq<char>,
    section_name: Seq<char>,
)
    requires
        spec_kind_of(part_name) == ElementKind::Part,
        spec_kind_of(chapter_name) == ElementKind::Chapter,
        spec_kind_of(section_name) == ElementKind::Section,
    ensures
        ({
            let empty_attrs = Seq::<XmlAttrView>::empty();
            let a0 = spec_on_start(a, part_name, empty_attrs)->Ok_0;
            let a1 = spec_on_start(a0, chapter_name, empty_attrs)->Ok_0;
            let a2 = spec_on_start(a1, section_name, empty_attrs)->Ok_0;
            let a3 = spec_on_start(a2, chapter_name, empty_attrs)->Ok_0;
            a3.section is None && a3.part == a0.part
        }),
{
}

/// Law: entering a supplementary provision always yields an address whose
/// primary-hierarchy fields are all empty and whose title equals the
/// element's amendment-law-number attribute, or the empty string when that
/// attribute is absent.
pub proof fn lemma_suppl_provision_resets(a: AddrView, name: Seq<char>, attrs: Seq<XmlAttrView>)
    requires
        spec_kind_of(name) == ElementKind::SupplProvision,
        spec_on_start(a, name, attrs) is Ok,
    ensures
        ({
            let r = spec_on_start(a, name, attrs)->Ok_0;
            &&& r.part is None
            &&& r.chapter is None
            &&& r.section is None
            &&& r.subsection is None
            &&& r.division is None
            &&& r.article == Seq::<char>::empty()
            &&& r.paragraph is None
            &&& r.item is None
            &&& r.sub_item is None
            &&& match spec_find_attr(attrs, "AmendLawNum"@) {
                None => r.suppl_provision_title == Some(Seq::<char>::empty()),
                Some(bytes) => r.suppl_provision_title == Some(utf8_decoded(bytes)->Some_0),
            }
        }),
{
}

/// Law: a text node seen outside law-number capture appends exactly one copy
/// of the current address to the match list when its decoded text contains a
/// search term, and leaves the match list alone otherwise; the address, the
/// law identifier and the capture mode never change on a text node.
pub proof fn lemma_text_collects_current_address(
    s: ScanStateView,
    data: Seq<u8>,
    terms: Seq<Seq<char>>,
    txt: Seq<char>,
)
    requires
        !s.law_num_mode,
        utf8_decoded(data) == Some(txt),
    ensures
        spec_step(s, XmlEventView::Text { data }, terms) is Ok,
        ({
            let r = spec_step(s, XmlEventView::Text { data }, terms)->Ok_0;
            &&& contains_any(txt, terms) ==> r.matches == s.matches.push(s.addr)
            &&& !contains_any(txt, terms) ==> r.matches == s.matches
            &&& r.addr == s.addr
            &&& r.law_num == s.law_num
            &&& r.law_num_mode == s.law_num_mode
        }),
{
}

/// A text exactly equal to the term contains it (at position zero).
pub proof fn lemma_exact_text_matches(t: Seq<char>)
    ensures
        contains_term(t, t),
{
    assert(t.subrange(0, t.len() as int) =~= t);
    assert(match_at(t, t, 0));
}

} // verus!
