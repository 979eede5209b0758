//! The structural address of one point in a statute document, and its
//! mathematical model.

use vstd::prelude::*;

verus! {

/// Mathematical value of an address: every string is a character sequence.
#[verifier::ext_equal]
pub ghost struct AddrView {
    pub part: Option<usize>,
    pub chapter: Option<usize>,
    pub section: Option<usize>,
    pub subsection: Option<usize>,
    pub division: Option<usize>,
    pub article: Seq<char>,
    pub paragraph: Option<Seq<char>>,
    pub item: Option<Seq<char>>,
    pub sub_item: Option<(usize, Seq<char>)>,
    pub suppl_provision_title: Option<Seq<char>>,
}

impl AddrView {
    /// The address at the start of a document: nothing has been opened yet.
    pub open spec fn empty() -> AddrView {
        AddrView {
            part: None,
            chapter: None,
            section: None,
            subsection: None,
            division: None,
            article: Seq::<char>::empty(),
            paragraph: None,
            item: None,
            sub_item: None,
            suppl_provision_title: None,
        }
    }
}

/// One structural address: which part / chapter / section / ... of a statute
/// a piece of text sits in.  Counter fields count same-kind siblings in the
/// current scope; code fields carry `Num` attribute values verbatim; the
/// supplementary-provision title marks the alternate addressing sub-space.
#[derive(Debug, Hash)]
pub struct Chapter {
    pub part: Option<usize>,
    pub chapter: Option<usize>,
    pub section: Option<usize>,
    pub subsection: Option<usize>,
    pub division: Option<usize>,
    pub article: String,
    pub paragraph: Option<String>,
    pub item: Option<String>,
    pub sub_item: Option<(usize, String)>,
    pub suppl_provision_title: Option<String>,
}

/// The character sequence of an optional string.
pub open spec fn opt_view(o: Option<String>) -> Option<Seq<char>> {
    match o {
        Some(s) => Some(s@),
        None => None,
    }
}

/// The model of an optional depth-and-code pair.
pub open spec fn sub_view(o: Option<(usize, String)>) -> Option<(usize, Seq<char>)> {
    match o {
        Some((d, s)) => Some((d, s@)),
        None => None,
    }
}

impl View for Chapter {
    type V = AddrView;

    open spec fn view(&self) -> AddrView {
        AddrView {
            part: self.part,
            chapter: self.chapter,
            section: self.section,
            subsection: self.subsection,
            division: self.division,
            article: self.article@,
            paragraph: opt_view(self.paragraph),
            item: opt_view(self.item),
            sub_item: sub_view(self.sub_item),
            suppl_provision_title: opt_view(self.suppl_provision_title),
        }
    }
}

impl DeepView for Chapter {
    type V = AddrView;

    open spec fn deep_view(&self) -> AddrView {
        self.view()
    }
}

impl Chapter {
    /// A fresh address with every field empty.
    pub fn new() -> (c: Chapter)
        ensures
            c@ == AddrView::empty(),
    {
        let c = Chapter {
            part: None,
            chapter: None,
            section: None,
            subsection: None,
            division: None,
            article: String::new(),
            paragraph: None,
            item: None,
            sub_item: None,
            suppl_provision_title: None,
        };
        proof {
            assert(c@ =~= AddrView::empty());
        }
        c
    }
}

impl Default for Chapter {
    fn default() -> (c: Chapter)
        ensures
            c@ == AddrView::empty(),
    {
        Chapter::new()
    }
}

fn clone_opt_string(o: &Option<String>) -> (r: Option<String>)
    ensures
        r == *o,
{
    match o {
        Some(s) => Some(s.clone()),
        None => None,
    }
}

fn clone_sub_item(o: &Option<(usize, String)>) -> (r: Option<(usize, String)>)
    ensures
        r == *o,
{
    match o {
        Some(p) => Some((p.0, p.1.clone())),
        None => None,
    }
}

impl Clone for Chapter {
    fn clone(&self) -> (r: Self)
        ensures
            r == *self,
    {
        Chapter {
            part: self.part,
            chapter: self.chapter,
            section: self.section,
            subsection: self.subsection,
            division: self.division,
            article: self.article.clone(),
            paragraph: clone_opt_string(&self.paragraph),
            item: clone_opt_string(&self.item),
            sub_item: clone_sub_item(&self.sub_item),
            suppl_provision_title: clone_opt_string(&self.suppl_provision_title),
        }
    }
}

pub(crate) fn opt_num_eq(a: &Option<usize>, b: &Option<usize>) -> (r: bool)
    ensures
        r == (*a == *b),
{
    match (a, b) {
        (Some(x), Some(y)) => *x == *y,
        (None, None) => true,
        _ => false,
    }
}

pub(crate) fn opt_string_eq(a: &Option<String>, b: &Option<String>) -> (r: bool)
    ensures
        r == (opt_view(*a) == opt_view(*b)),
{
    match (a, b) {
        (Some(x), Some(y)) => *x == *y,
        (None, None) => true,
        _ => false,
    }
}

pub(crate) fn sub_item_eq(a: &Option<(usize, String)>, b: &Option<(usize, String)>) -> (r: bool)
    ensures
        r == (sub_view(*a) == sub_view(*b)),
{
    match (a, b) {
        (Some(x), Some(y)) => x.0 == y.0 && x.1 == y.1,
        (None, None) => true,
        _ => false,
    }
}

impl vstd::std_specs::cmp::PartialEqSpecImpl for Chapter {
    open spec fn obeys_eq_spec() -> bool {
        true
    }

    open spec fn eq_spec(&self, other: &Chapter) -> bool {
        self@ == other@
    }
}

impl PartialEq for Chapter {
    fn eq(&self, other: &Self) -> (r: bool)
        ensures
            r == (self@ == other@),
    {
        let r = opt_num_eq(&self.part, &other.part) && opt_num_eq(&self.chapter, &other.chapter)
            && opt_num_eq(&self.section, &other.section) && opt_num_eq(
            &self.subsection,
            &other.subsection,
        ) && opt_num_eq(&self.division, &other.division) && self.article == other.article
            && opt_string_eq(&self.paragraph, &other.paragraph) && opt_string_eq(
            &self.item,
            &other.item,
        ) && sub_item_eq(&self.sub_item, &other.sub_item) && opt_string_eq(
            &self.suppl_provision_title,
            &other.suppl_provision_title,
        );
        proof {
            if r {
                assert(self@ =~= other@);
            }
        }
        r
    }
}

} // verus!
