//! The events of one pass over a statute document, and the closed set of
//! element kinds the hierarchy tracker dispatches on.

use vstd::prelude::*;

verus! {

/// One attribute of an element: its name, and its raw (still encoded) value.
#[derive(Debug)]
pub struct XmlAttr {
    pub key: String,
    pub value: Vec<u8>,
}

/// Mathematical value of an attribute.
#[verifier::ext_equal]
pub ghost struct XmlAttrView {
    pub key: Seq<char>,
    pub value: Seq<u8>,
}

impl View for XmlAttr {
    type V = XmlAttrView;

    open spec fn view(&self) -> XmlAttrView {
        XmlAttrView { key: self.key@, value: self.value@ }
    }
}

impl DeepView for XmlAttr {
    type V = XmlAttrView;

    open spec fn deep_view(&self) -> XmlAttrView {
        self.view()
    }
}

/// One low-level markup event: an element opens, an element closes, or a text
/// node is seen.  End of stream is the end of the event sequence.
#[derive(Debug)]
pub enum XmlEvent {
    Start { name: String, attrs: Vec<XmlAttr> },
    End { name: String },
    Text { data: Vec<u8> },
}

/// Mathematical value of an event.
#[verifier::ext_equal]
pub ghost enum XmlEventView {
    Start { name: Seq<char>, attrs: Seq<XmlAttrView> },
    End { name: Seq<char> },
    Text { data: Seq<u8> },
}

impl View for XmlEvent {
    type V = XmlEventView;

    open spec fn view(&self) -> XmlEventView {
        match self {
            XmlEvent::Start { name, attrs } => XmlEventView::Start {
                name: name@,
                attrs: attrs.deep_view(),
            },
            XmlEvent::End { name } => XmlEventView::End { name: name@ },
            XmlEvent::Text { data } => XmlEventView::Text { data: data@ },
        }
    }
}

impl DeepView for XmlEvent {
    type V = XmlEventView;

    open spec fn deep_view(&self) -> XmlEventView {
        self.view()
    }
}

/// The closed set of element kinds the tracker reacts to; every other element
/// name is `Other`.  A sub-item kind carries its fixed depth, 1 through 7.
#[derive(Debug, Clone, Copy, PartialEq, Eq, Structural)]
pub enum ElementKind {
    LawNum,
    Part,
    Chapter,
    Section,
    Subsection,
    Division,
    Article,
    Paragraph,
    Item,
    SubItem(usize),
    SupplProvision,
    Other,
}

/// Which kind an element name denotes (exact, case-sensitive match).
pub open spec fn spec_kind_of(name: Seq<char>) -> ElementKind {
    if name == "LawNum"@ {
        ElementKind::LawNum
    } else if name == "Part"@ {
        ElementKind::Part
    } else if name == "Chapter"@ {
        ElementKind::Chapter
    } else if name == "Section"@ {
        ElementKind::Section
    } else if name == "Subsection"@ {
        ElementKind::Subsection
    } else if name == "Division"@ {
        ElementKind::Division
    } else if name == "Article"@ {
        ElementKind::Article
    } else if name == "Paragraph"@ {
        ElementKind::Paragraph
    } else if name == "Item"@ {
        ElementKind::Item
    } else if name == "SubItem1"@ {
        ElementKind::SubItem(1)
    } else if name == "SubItem2"@ {
        ElementKind::SubItem(2)
    } else if name == "SubItem3"@ {
        ElementKind::SubItem(3)
    } else if name == "SubItem4"@ {
        ElementKind::SubItem(4)
    } else if name == "SubItem5"@ {
        ElementKind::SubItem(5)
    } else if name == "SubItem6"@ {
        ElementKind::SubItem(6)
    } else if name == "SubItem7"@ {
        ElementKind::SubItem(7)
    } else if name == "SupplProvision"@ {
        ElementKind::SupplProvision
    } else {
        ElementKind::Other
    }
}

/// Classifies an element name.
pub fn kind_of(name: &String) -> (k: ElementKind)
    ensures
        k == spec_kind_of(name@),
{
    if *name == String::from_str("LawNum") {
        ElementKind::LawNum
    } else if *name == String::from_str("Part") {
        ElementKind::Part
    } else if *name == String::from_str("Chapter") {
        ElementKind::Chapter
    } else if *name == String::from_str("Section") {
        ElementKind::Section
    } else if *name == String::from_str("Subsection") {
        ElementKind::Subsection
    } else if *name == String::from_str("Division") {
        ElementKind::Division
    } else if *name == String::from_str("Article") {
        ElementKind::Article
    } else if *name == String::from_str("Paragraph") {
        ElementKind::Paragraph
    } else if *name == String::from_str("Item") {
        ElementKind::Item
    } else if *name == String::from_str("SubItem1") {
        ElementKind::SubItem(1)
    } else if *name == String::from_str("SubItem2") {
        ElementKind::SubItem(2)
    } else if *name == String::from_str("SubItem3") {
        ElementKind::SubItem(3)
    } else if *name == String::from_str("SubItem4") {
        ElementKind::SubItem(4)
    } else if *name == String::from_str("SubItem5") {
        ElementKind::SubItem(5)
    } else if *name == String::from_str("SubItem6") {
        ElementKind::SubItem(6)
    } else if *name == String::from_str("SubItem7") {
        ElementKind::SubItem(7)
    } else if *name == String::from_str("SupplProvision") {
        ElementKind::SupplProvision
    } else {
        ElementKind::Other
    }
}

/// The raw value of the first attribute with the given name, if any.
pub open spec fn spec_find_attr(attrs: Seq<XmlAttrView>, key: Seq<char>) -> Option<Seq<u8>>
    decreases attrs.len(),
{
    if attrs.len() == 0 {
        None
    } else if attrs[0].key == key {
        Some(attrs[0].value)
    } else {
        spec_find_attr(attrs.drop_first(), key)
    }
}

/// Linear scan for the first attribute with the given name.
pub fn find_attr<'a>(attrs: &'a Vec<XmlAttr>, key: &String) -> (r: Option<&'a Vec<u8>>)
    ensures
        match r {
            Some(v) => spec_find_attr(attrs.deep_view(), key@) == Some(v@),
            None => spec_find_attr(attrs.deep_view(), key@) is None,
        },
{
    let ghost full: Seq<XmlAttrView> = attrs.deep_view();
    let mut i: usize = 0;
    proof {
        assert(full.skip(0) =~= full);
    }
    while i < attrs.len()
        invariant
            i <= attrs.len(),
            full == attrs.deep_view(),
            spec_find_attr(full, key@) == spec_find_attr(full.skip(i as int), key@),
        decreases attrs.len() - i,
    {
        if attrs[i].key == *key {
            proof {
                assert(full.skip(i as int)[0] == full[i as int]);
            }
            return Some(&attrs[i].value);
        }
        proof {
            assert(full.skip(i as int)[0] == full[i as int]);
            assert(full.skip(i as int).drop_first() =~= full.skip(i + 1));
        }
        i += 1;
    }
    proof {
        assert(full.skip(attrs.len() as int) =~= Seq::<XmlAttrView>::empty());
    }
    None
}

} // verus!
