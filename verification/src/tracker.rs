//! The hierarchy tracker: one scan state per document, updated in place as
//! parse events arrive.  Element starts update the address, the law-number
//! element toggles capture mode, and text nodes either set the law identifier
//! or are tested against the search terms.

use vstd::prelude::*;
use crate::address::{AddrView, Chapter};
use crate::decode::{decode_utf8, utf8_decoded};
use crate::events::{find_attr, kind_of, spec_find_attr, spec_kind_of, ElementKind, XmlAttr, XmlAttrView, XmlEvent, XmlEventView};
use crate::matcher::{contains_any, str_contains_any};

verus! {

/// Why processing one document aborts.
#[derive(Debug, Clone, Copy, PartialEq, Eq, Structural)]
pub enum SearchError {
    /// An element that must carry a `Num` attribute lacks it.
    MissingNumAttr,
    /// Text or attribute bytes are not valid in the document encoding.
    Undecodable,
}

/// The per-document scan state: the current address, the law identifier
/// captured so far, whether the scan is inside the law-number element, and
/// the addresses at which a search term has matched.
#[derive(Debug)]
pub struct ScanState {
    pub addr: Chapter,
    pub law_num: String,
    pub law_num_mode: bool,
    pub matches: Vec<Chapter>,
}

/// Mathematical value of the scan state.
#[verifier::ext_equal]
pub ghost struct ScanStateView {
    pub addr: AddrView,
    pub law_num: Seq<char>,
    pub law_num_mode: bool,
    pub matches: Seq<AddrView>,
}

impl View for ScanState {
    type V = ScanStateView;

    open spec fn view(&self) -> ScanStateView {
        ScanStateView {
            addr: self.addr@,
            law_num: self.law_num@,
            law_num_mode: self.law_num_mode,
            matches: self.matches.deep_view(),
        }
    }
}

impl ScanState {
    /// The state at the start of a document.
    pub fn new() -> (s: ScanState)
        ensures
            s@ == init_state(),
    {
        let s = ScanState {
            addr: Chapter::new(),
            law_num: String::new(),
            law_num_mode: false,
            matches: Vec::new(),
        };
        proof {
            assert(s@.matches =~= Seq::<AddrView>::empty());
            assert(s@ =~= init_state());
        }
        s
    }
}

/// The scan state before any event has been seen.
pub open spec fn init_state() -> ScanStateView {
    ScanStateView {
        addr: AddrView::empty(),
        law_num: Seq::<char>::empty(),
        law_num_mode: false,
        matches: Seq::<AddrView>::empty(),
    }
}

/// A sibling counter moves to 1 when unset and up by one otherwise.
pub open spec fn bump(c: Option<usize>) -> Option<usize> {
    match c {
        Some(n) => Some((n + 1) as usize),
        None => Some(1usize),
    }
}

/// The counter, if set, is at most the bound.
pub open spec fn counter_le(c: Option<usize>, b: int) -> bool {
    match c {
        Some(n) => n <= b,
        None => true,
    }
}

/// All five sibling counters are at most the bound.
pub open spec fn counters_bounded(a: AddrView, b: int) -> bool {
    counter_le(a.part, b) && counter_le(a.chapter, b) && counter_le(a.section, b)
        && counter_le(a.subsection, b) && counter_le(a.division, b)
}

/// How an element start transforms the current address (or fails).
/// Counter elements bump their own counter, keep everything above, and clear
/// the counters nested below them together with the paragraph/item/sub-item
/// codes; coded elements store their decoded `Num` attribute and clear the
/// codes nested below; a supplementary provision replaces the address
/// wholesale with one carrying only its title.
pub open spec fn spec_on_start(a: AddrView, name: Seq<char>, attrs: Seq<XmlAttrView>) -> Result<
    AddrView,
    SearchError,
> {
    match spec_kind_of(name) {
        ElementKind::LawNum => Ok(a),
        ElementKind::Part => Ok(
            AddrView {
                part: bump(a.part),
                chapter: None,
                section: None,
                subsection: None,
                division: None,
                paragraph: None,
                item: None,
                sub_item: None,
                ..a
            },
        ),
        ElementKind::Chapter => Ok(
            AddrView {
                chapter: bump(a.chapter),
                section: None,
                subsection: None,
                division: None,
                paragraph: None,
                item: None,
                sub_item: None,
                ..a
            },
        ),
        ElementKind::Section => Ok(
            AddrView {
                section: bump(a.section),
                subsection: None,
                division: None,
                paragraph: None,
                item: None,
                sub_item: None,
                ..a
            },
        ),
        ElementKind::Subsection => Ok(
            AddrView {
                subsection: bump(a.subsection),
                division: None,
                paragraph: None,
                item: None,
                sub_item: None,
                ..a
            },
        ),
        ElementKind::Division => Ok(
            AddrView { division: bump(a.division), paragraph: None, item: None, sub_item: None, ..a },
        ),
        ElementKind::Article => match decoded_num(attrs) {
            Ok(code) => Ok(AddrView { article: code, paragraph: None, item: None, sub_item: None, ..a }),
            Err(e) => Err(e),
        },
        ElementKind::Paragraph => match decoded_num(attrs) {
            Ok(code) => Ok(AddrView { paragraph: Some(code), item: None, sub_item: None, ..a }),
            Err(e) => Err(e),
        },
        ElementKind::Item => match decoded_num(attrs) {
            Ok(code) => Ok(AddrView { item: Some(code), sub_item: None, ..a }),
            Err(e) => Err(e),
        },
        ElementKind::SubItem(depth) => match decoded_num(attrs) {
            Ok(code) => Ok(AddrView { sub_item: Some((depth, code)), ..a }),
            Err(e) => Err(e),
        },
        ElementKind::SupplProvision => match spec_find_attr(attrs, "AmendLawNum"@) {
            None => Ok(
                AddrView { suppl_provision_title: Some(Seq::<char>::empty()), ..AddrView::empty() },
            ),
            Some(bytes) => match utf8_decoded(bytes) {
                None => Err(SearchError::Undecodable),
                Some(title) => Ok(
                    AddrView { suppl_provision_title: Some(title), ..AddrView::empty() },
                ),
            },
        },
        ElementKind::Other => Ok(a),
    }
}

/// The decoded `Num` attribute of an element that must carry one.
pub open spec fn decoded_num(attrs: Seq<XmlAttrView>) -> Result<Seq<char>, SearchError> {
    match spec_find_attr(attrs, "Num"@) {
        None => Err(SearchError::MissingNumAttr),
        Some(bytes) => match utf8_decoded(bytes) {
            None => Err(SearchError::Undecodable),
            Some(code) => Ok(code),
        },
    }
}

/// How one event transforms the scan state (or fails).
pub open spec fn spec_step(s: ScanStateView, e: XmlEventView, terms: Seq<Seq<char>>) -> Result<
    ScanStateView,
    SearchError,
> {
    match e {
        XmlEventView::Start { name, attrs } => {
            if spec_kind_of(name) == ElementKind::LawNum {
                Ok(ScanStateView { law_num_mode: true, ..s })
            } else {
                match spec_on_start(s.addr, name, attrs) {
                    Ok(a) => Ok(ScanStateView { addr: a, ..s }),
                    Err(e) => Err(e),
                }
            }
        },
        XmlEventView::End { name } => {
            if spec_kind_of(name) == ElementKind::LawNum {
                Ok(ScanStateView { law_num_mode: false, ..s })
            } else {
                Ok(s)
            }
        },
        XmlEventView::Text { data } => match utf8_decoded(data) {
            None => Err(SearchError::Undecodable),
            Some(txt) => {
                if s.law_num_mode {
                    Ok(ScanStateView { law_num: txt, ..s })
                } else if contains_any(txt, terms) {
                    Ok(ScanStateView { matches: s.matches.push(s.addr), ..s })
                } else {
                    Ok(s)
                }
            },
        },
    }
}

/// A step never drives a sibling counter above one more than its prior bound.
pub proof fn lemma_step_bounded(s: ScanStateView, e: XmlEventView, terms: Seq<Seq<char>>, b: int)
    requires
        counters_bounded(s.addr, b),
        0 <= b,
        spec_step(s, e, terms) is Ok,
    ensures
        counters_bounded(spec_step(s, e, terms)->Ok_0.addr, b + 1),
{
}

/// Applies one event to the scan state, as `spec_step` says.
#[verifier::rlimit(80)]
pub fn step(st: &mut ScanState, ev: &XmlEvent, terms: &Vec<String>) -> (r: Result<(), SearchError>)
    requires
        counters_bounded(old(st)@.addr, usize::MAX - 1),
    ensures
        match r {
            Ok(()) => spec_step(old(st)@, ev@, terms.deep_view()) == Ok::<
                ScanStateView,
                SearchError,
            >(final(st)@),
            Err(e) => spec_step(old(st)@, ev@, terms.deep_view()) == Err::<
                ScanStateView,
                SearchError,
            >(e),
        },
{
    match ev {
        XmlEvent::Start { name, attrs } => {
            let kind = kind_of(name);
            match kind {
                ElementKind::LawNum => {
                    st.law_num_mode = true;
                    proof {
                        lemma_step_view(old(st)@, ev@, terms.deep_view(), st@);
                    }
                    Ok(())
                },
                ElementKind::Part => {
                    st.addr.part = match st.addr.part {
                        Some(n) => Some(n + 1),
                        None => Some(1),
                    };
                    st.addr.chapter = None;
                    st.addr.section = None;
                    st.addr.subsection = None;
                    st.addr.division = None;
                    st.addr.paragraph = None;
                    st.addr.item = None;
                    st.addr.sub_item = None;
                    proof {
                        lemma_step_view(old(st)@, ev@, terms.deep_view(), st@);
                    }
                    Ok(())
                },
                ElementKind::Chapter => {
                    st.addr.chapter = match st.addr.chapter {
                        Some(n) => Some(n + 1),
                        None => Some(1),
                    };
                    st.addr.section = None;
                    st.addr.subsection = None;
                    st.addr.division = None;
                    st.addr.paragraph = None;
                    st.addr.item = None;
                    st.addr.sub_item = None;
                    proof {
                        lemma_step_view(old(st)@, ev@, terms.deep_view(), st@);
                    }
                    Ok(())
                },
                ElementKind::Section => {
                    st.addr.section = match st.addr.section {
                        Some(n) => Some(n + 1),
                        None => Some(1),
                    };
                    st.addr.subsection = None;
                    st.addr.division = None;
                    st.addr.paragraph = None;
                    st.addr.item = None;
                    st.addr.sub_item = None;
                    proof {
                        lemma_step_view(old(st)@, ev@, terms.deep_view(), st@);
                    }
                    Ok(())
                },
                ElementKind::Subsection => {
                    st.addr.subsection = match st.addr.subsection {
                        Some(n) => Some(n + 1),
                        None => Some(1),
                    };
                    st.addr.division = None;
                    st.addr.paragraph = None;
                    st.addr.item = None;
                    st.addr.sub_item = None;
                    proof {
                        lemma_step_view(old(st)@, ev@, terms.deep_view(), st@);
                    }
                    Ok(())
                },
                ElementKind::Division => {
                    st.addr.division = match st.addr.division {
                        Some(n) => Some(n + 1),
                        None => Some(1),
                    };
                    st.addr.paragraph = None;
                    st.addr.item = None;
                    st.addr.sub_item = None;
                    proof {
                        lemma_step_view(old(st)@, ev@, terms.deep_view(), st@);
                    }
                    Ok(())
                },
                ElementKind::Article => {
                    let code = match read_num(attrs) {
                        Ok(code) => code,
                        Err(e) => {
                            return Err(e);
                        },
                    };
                    st.addr.article = code;
                    st.addr.paragraph = None;
                    st.addr.item = None;
                    st.addr.sub_item = None;
                    proof {
                        lemma_step_view(old(st)@, ev@, terms.deep_view(), st@);
                    }
                    Ok(())
                },
                ElementKind::Paragraph => {
                    let code = match read_num(attrs) {
                        Ok(code) => code,
                        Err(e) => {
                            return Err(e);
                        },
                    };
                    st.addr.paragraph = Some(code);
                    st.addr.item = None;
                    st.addr.sub_item = None;
                    proof {
                        lemma_step_view(old(st)@, ev@, terms.deep_view(), st@);
                    }
                    Ok(())
                },
                ElementKind::Item => {
                    let code = match read_num(attrs) {
                        Ok(code) => code,
                        Err(e) => {
                            return Err(e);
                        },
                    };
                    st.addr.item = Some(code);
                    st.addr.sub_item = None;
                    proof {
                        lemma_step_view(old(st)@, ev@, terms.deep_view(), st@);
                    }
                    Ok(())
                },
                ElementKind::SubItem(depth) => {
                    let code = match read_num(attrs) {
                        Ok(code) => code,
                        Err(e) => {
                            return Err(e);
                        },
                    };
                    st.addr.sub_item = Some((depth, code));
                    proof {
                        lemma_step_view(old(st)@, ev@, terms.deep_view(), st@);
                    }
                    Ok(())
                },
                ElementKind::SupplProvision => {
                    let title = match find_attr(attrs, &String::from_str("AmendLawNum")) {
                        None => String::new(),
                        Some(bytes) => match decode_utf8(bytes) {
                            None => {
                                return Err(SearchError::Undecodable);
                            },
                            Some(t) => t,
                        },
                    };
                    st.addr.part = None;
                    st.addr.chapter = None;
                    st.addr.section = None;
                    st.addr.subsection = None;
                    st.addr.division = None;
                    st.addr.article = String::new();
                    st.addr.paragraph = None;
                    st.addr.item = None;
                    st.addr.sub_item = None;
                    st.addr.suppl_provision_title = Some(title);
                    proof {
                        lemma_step_view(old(st)@, ev@, terms.deep_view(), st@);
                    }
                    Ok(())
                },
                ElementKind::Other => {
                    proof {
                        lemma_step_view(old(st)@, ev@, terms.deep_view(), st@);
                    }
                    Ok(())
                },
            }
        },
        XmlEvent::End { name } => {
            let kind = kind_of(name);
            if let ElementKind::LawNum = kind {
                st.law_num_mode = false;
            }
            proof {
                lemma_step_view(old(st)@, ev@, terms.deep_view(), st@);
            }
            Ok(())
        },
        XmlEvent::Text { data } => {
            let txt = match decode_utf8(data) {
                None => {
                    return Err(SearchError::Undecodable);
                },
                Some(t) => t,
            };
            if st.law_num_mode {
                st.law_num = txt;
            } else if str_contains_any(txt.as_str(), terms) {
                let snapshot = st.addr.clone();
                st.matches.push(snapshot);
                proof {
                    assert(st@.matches =~= old(st)@.matches.push(old(st)@.addr));
                }
            }
            proof {
                lemma_step_view(old(st)@, ev@, terms.deep_view(), st@);
            }
            Ok(())
        },
    }
}

/// The decoded `Num` attribute of the element just opened, per `decoded_num`.
fn read_num(attrs: &Vec<XmlAttr>) -> (r: Result<String, SearchError>)
    ensures
        match r {
            Ok(code) => decoded_num(attrs.deep_view()) == Ok::<Seq<char>, SearchError>(code@),
            Err(e) => decoded_num(attrs.deep_view()) == Err::<Seq<char>, SearchError>(e),
        },
{
    match find_attr(attrs, &String::from_str("Num")) {
        None => Err(SearchError::MissingNumAttr),
        Some(bytes) => match decode_utf8(bytes) {
            None => Err(SearchError::Undecodable),
            Some(code) => Ok(code),
        },
    }
}

/// A step's result equals the mutated state when their fields agree.
proof fn lemma_step_view(s: ScanStateView, e: XmlEventView, terms: Seq<Seq<char>>, t: ScanStateView)
    requires
        spec_step(s, e, terms) is Ok,
        t =~~= spec_step(s, e, terms)->Ok_0,
    ensures
        spec_step(s, e, terms) == Ok::<ScanStateView, SearchError>(t),
{
}

} // verus!
