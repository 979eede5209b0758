use search_article_with_word::{
    search_xml, search_xml_any, step, Chapter, LawParagraph, ScanState, SearchError, XmlAttr,
    XmlEvent,
};

fn start(name: &str, attrs: Vec<(&str, &str)>) -> XmlEvent {
    XmlEvent::Start {
        name: name.to_string(),
        attrs: attrs
            .into_iter()
            .map(|(k, v)| XmlAttr { key: k.to_string(), value: v.as_bytes().to_vec() })
            .collect(),
    }
}

fn end(name: &str) -> XmlEvent {
    XmlEvent::End { name: name.to_string() }
}

fn text(s: &str) -> XmlEvent {
    XmlEvent::Text { data: s.as_bytes().to_vec() }
}

fn empty_chapter() -> Chapter {
    Chapter {
        part: None,
        chapter: None,
        section: None,
        subsection: None,
        division: None,
        article: String::new(),
        paragraph: None,
        item: None,
        sub_item: None,
        suppl_provision_title: None,
    }
}

fn fresh_state() -> ScanState {
    ScanState {
        addr: empty_chapter(),
        law_num: String::new(),
        law_num_mode: false,
        matches: Vec::new(),
    }
}

#[test]
fn article_paragraph_end_to_end() {
    let events = vec![
        start("Law", vec![]),
        start("LawNum", vec![]),
        text("令和三年法律第十号"),
        end("LawNum"),
        start("Article", vec![("Num", "5")]),
        start("Paragraph", vec![("Num", "2")]),
        text("許可を受けた者は…特例措置…"),
        end("Paragraph"),
        end("Article"),
        end("Law"),
    ];
    let got = search_xml("特例措置", &events).unwrap();
    let want = LawParagraph {
        num: "令和三年法律第十号".to_string(),
        chapter_data: vec![Chapter {
            article: "5".to_string(),
            paragraph: Some("2".to_string()),
            ..empty_chapter()
        }],
    };
    assert_eq!(got, want);
}

#[test]
fn two_items_sorted() {
    let events = vec![
        start("Article", vec![("Num", "3")]),
        start("Item", vec![("Num", "2")]),
        text("その旨を届出なければならない"),
        end("Item"),
        start("Item", vec![("Num", "1")]),
        text("届出の義務"),
        end("Item"),
        end("Article"),
    ];
    let got = search_xml("届出", &events).unwrap();
    assert_eq!(got.chapter_data.len(), 2);
    assert_eq!(got.chapter_data[0].item, Some("1".to_string()));
    assert_eq!(got.chapter_data[1].item, Some("2".to_string()));
    assert_eq!(got.chapter_data[0].article, "3".to_string());
    assert_eq!(got.chapter_data[1].article, "3".to_string());
}

#[test]
fn suppl_provision_only_match() {
    let events = vec![
        start("LawNum", vec![]),
        text("平成二年法律第九号"),
        end("LawNum"),
        start("Article", vec![("Num", "1")]),
        text("本則の条文"),
        end("Article"),
        start("SupplProvision", vec![("AmendLawNum", "平成三十年法律第一号")]),
        text("この法律は経過措置を定める"),
        end("SupplProvision"),
    ];
    let got = search_xml("経過措置", &events).unwrap();
    assert_eq!(got.chapter_data.len(), 1);
    let want = Chapter {
        suppl_provision_title: Some("平成三十年法律第一号".to_string()),
        ..empty_chapter()
    };
    assert_eq!(got.chapter_data[0], want);
}

#[test]
fn suppl_provision_resets_everything_on_entry() {
    let mut st = fresh_state();
    let terms = vec!["x".to_string()];
    step(&mut st, &start("Part", vec![]), &terms).unwrap();
    step(&mut st, &start("Chapter", vec![]), &terms).unwrap();
    step(&mut st, &start("Article", vec![("Num", "9")]), &terms).unwrap();
    step(
        &mut st,
        &start("SupplProvision", vec![("AmendLawNum", "平成三十年法律第一号")]),
        &terms,
    )
    .unwrap();
    let want = Chapter {
        suppl_provision_title: Some("平成三十年法律第一号".to_string()),
        ..empty_chapter()
    };
    assert_eq!(st.addr, want);
}

#[test]
fn suppl_provision_without_amend_law_num_gets_empty_title() {
    let mut st = fresh_state();
    let terms = vec!["x".to_string()];
    step(&mut st, &start("SupplProvision", vec![]), &terms).unwrap();
    let want = Chapter { suppl_provision_title: Some(String::new()), ..empty_chapter() };
    assert_eq!(st.addr, want);
}

#[test]
fn no_match_still_reports_law_number() {
    let events = vec![
        start("LawNum", vec![]),
        text("昭和二十二年法律第六十七号"),
        end("LawNum"),
        start("Article", vec![("Num", "1")]),
        text("この法律は地方自治を定める"),
        end("Article"),
    ];
    let got = search_xml("存在しない語", &events).unwrap();
    assert_eq!(got.num, "昭和二十二年法律第六十七号".to_string());
    assert!(got.chapter_data.is_empty());
}

#[test]
fn sibling_counters_count_one_based() {
    let mut st = fresh_state();
    let terms = vec!["x".to_string()];
    step(&mut st, &start("Chapter", vec![]), &terms).unwrap();
    assert_eq!(st.addr.chapter, Some(1));
    step(&mut st, &start("Chapter", vec![]), &terms).unwrap();
    assert_eq!(st.addr.chapter, Some(2));
    step(&mut st, &start("Chapter", vec![]), &terms).unwrap();
    assert_eq!(st.addr.chapter, Some(3));
    assert_eq!(st.addr.part, None);
    assert_eq!(st.addr.section, None);
}

#[test]
fn new_chapter_clears_section_keeps_part() {
    let mut st = fresh_state();
    let terms = vec!["x".to_string()];
    step(&mut st, &start("Part", vec![]), &terms).unwrap();
    step(&mut st, &start("Chapter", vec![]), &terms).unwrap();
    step(&mut st, &start("Section", vec![]), &terms).unwrap();
    assert_eq!(st.addr.section, Some(1));
    step(&mut st, &start("Chapter", vec![]), &terms).unwrap();
    assert_eq!(st.addr.section, None);
    assert_eq!(st.addr.part, Some(1));
    assert_eq!(st.addr.chapter, Some(2));
}

#[test]
fn text_match_snapshots_current_address() {
    let mut st = fresh_state();
    let terms = vec!["特例".to_string()];
    step(&mut st, &start("Article", vec![("Num", "7")]), &terms).unwrap();
    step(&mut st, &text("特例を定める"), &terms).unwrap();
    assert_eq!(st.matches.len(), 1);
    assert_eq!(st.matches[0].article, "7".to_string());
    step(&mut st, &text("無関係の文"), &terms).unwrap();
    assert_eq!(st.matches.len(), 1);
    // a text node exactly equal to the term also matches
    step(&mut st, &text("特例"), &terms).unwrap();
    assert_eq!(st.matches.len(), 2);
}

#[test]
fn sub_items_record_depth_and_overwrite() {
    let mut st = fresh_state();
    let terms = vec!["x".to_string()];
    step(&mut st, &start("Article", vec![("Num", "1")]), &terms).unwrap();
    step(&mut st, &start("Item", vec![("Num", "1")]), &terms).unwrap();
    step(&mut st, &start("SubItem1", vec![("Num", "イ")]), &terms).unwrap();
    assert_eq!(st.addr.sub_item, Some((1, "イ".to_string())));
    step(&mut st, &start("SubItem2", vec![("Num", "ロ")]), &terms).unwrap();
    assert_eq!(st.addr.sub_item, Some((2, "ロ".to_string())));
    step(&mut st, &start("SubItem7", vec![("Num", "ハ")]), &terms).unwrap();
    assert_eq!(st.addr.sub_item, Some((7, "ハ".to_string())));
    // a new item clears the sub-item
    step(&mut st, &start("Item", vec![("Num", "2")]), &terms).unwrap();
    assert_eq!(st.addr.sub_item, None);
    assert_eq!(st.addr.item, Some("2".to_string()));
}

#[test]
fn paragraph_clears_item_and_sub_item() {
    let mut st = fresh_state();
    let terms = vec!["x".to_string()];
    step(&mut st, &start("Article", vec![("Num", "1")]), &terms).unwrap();
    step(&mut st, &start("Paragraph", vec![("Num", "1")]), &terms).unwrap();
    step(&mut st, &start("Item", vec![("Num", "3")]), &terms).unwrap();
    step(&mut st, &start("SubItem1", vec![("Num", "イ")]), &terms).unwrap();
    step(&mut st, &start("Paragraph", vec![("Num", "2")]), &terms).unwrap();
    assert_eq!(st.addr.paragraph, Some("2".to_string()));
    assert_eq!(st.addr.item, None);
    assert_eq!(st.addr.sub_item, None);
}

#[test]
fn every_counter_kind_counts_in_its_own_field() {
    let mut st = fresh_state();
    let terms = vec!["x".to_string()];
    step(&mut st, &start("Part", vec![]), &terms).unwrap();
    step(&mut st, &start("Chapter", vec![]), &terms).unwrap();
    step(&mut st, &start("Section", vec![]), &terms).unwrap();
    step(&mut st, &start("Subsection", vec![]), &terms).unwrap();
    step(&mut st, &start("Division", vec![]), &terms).unwrap();
    assert_eq!(st.addr.part, Some(1));
    assert_eq!(st.addr.chapter, Some(1));
    assert_eq!(st.addr.section, Some(1));
    assert_eq!(st.addr.subsection, Some(1));
    assert_eq!(st.addr.division, Some(1));
    step(&mut st, &start("Division", vec![]), &terms).unwrap();
    assert_eq!(st.addr.division, Some(2));
    assert_eq!(st.addr.subsection, Some(1));
}

#[test]
fn first_matching_attribute_wins() {
    let mut st = fresh_state();
    let terms = vec!["x".to_string()];
    let ev = XmlEvent::Start {
        name: "Article".to_string(),
        attrs: vec![
            XmlAttr { key: "Id".to_string(), value: b"ignored".to_vec() },
            XmlAttr { key: "Num".to_string(), value: b"5".to_vec() },
            XmlAttr { key: "Num".to_string(), value: b"6".to_vec() },
        ],
    };
    step(&mut st, &ev, &terms).unwrap();
    assert_eq!(st.addr.article, "5".to_string());
}

#[test]
fn missing_num_attribute_is_fatal() {
    let events = vec![start("Article", vec![("Id", "5")])];
    assert_eq!(search_xml("x", &events), Err(SearchError::MissingNumAttr));
}

#[test]
fn undecodable_text_is_fatal() {
    let events = vec![XmlEvent::Text { data: vec![0xff, 0xfe, 0x81] }];
    assert_eq!(search_xml("x", &events), Err(SearchError::Undecodable));
}

#[test]
fn undecodable_attribute_value_is_fatal() {
    let events = vec![XmlEvent::Start {
        name: "Article".to_string(),
        attrs: vec![XmlAttr { key: "Num".to_string(), value: vec![0xff, 0x81] }],
    }];
    assert_eq!(search_xml("x", &events), Err(SearchError::Undecodable));
}

#[test]
fn duplicate_addresses_are_deduplicated() {
    let events = vec![
        start("Article", vec![("Num", "4")]),
        text("特例その一"),
        text("特例その二"),
        end("Article"),
    ];
    let got = search_xml("特例", &events).unwrap();
    assert_eq!(got.chapter_data.len(), 1);
    assert_eq!(got.chapter_data[0].article, "4".to_string());
}

#[test]
fn sort_and_dedup_is_idempotent_on_its_output() {
    let a = Chapter { article: "2".to_string(), ..empty_chapter() };
    let b = Chapter { article: "1".to_string(), ..empty_chapter() };
    let c = Chapter { article: "1".to_string(), ..empty_chapter() };
    let once = search_article_with_word::dedup_addresses(
        search_article_with_word::sort_addresses(vec![a, b, c]),
    );
    let again = search_article_with_word::dedup_addresses(
        search_article_with_word::sort_addresses(
            once.iter().map(|x| x.clone()).collect::<Vec<Chapter>>(),
        ),
    );
    assert_eq!(once.len(), 2);
    assert_eq!(once[0].article, "1".to_string());
    assert_eq!(once[1].article, "2".to_string());
    assert_eq!(once, again);
}

#[test]
fn addresses_sort_by_field_order_none_first() {
    let with_part = Chapter { part: Some(1), article: "1".to_string(), ..empty_chapter() };
    let no_part = Chapter { article: "9".to_string(), ..empty_chapter() };
    let sorted = search_article_with_word::sort_addresses(vec![with_part.clone(), no_part.clone()]);
    assert_eq!(sorted[0], no_part);
    assert_eq!(sorted[1], with_part);
}

#[test]
fn match_any_of_several_terms() {
    let events = vec![
        start("Article", vec![("Num", "1")]),
        text("これは甲の条文"),
        end("Article"),
        start("Article", vec![("Num", "2")]),
        text("これは乙の条文"),
        end("Article"),
        start("Article", vec![("Num", "3")]),
        text("これは丙の条文"),
        end("Article"),
    ];
    let terms = vec!["甲".to_string(), "乙".to_string()];
    let got = search_xml_any(&terms, &events).unwrap();
    assert_eq!(got.chapter_data.len(), 2);
    assert_eq!(got.chapter_data[0].article, "1".to_string());
    assert_eq!(got.chapter_data[1].article, "2".to_string());
}

#[test]
fn law_num_capture_keeps_last_text_and_is_not_searched() {
    let events = vec![
        start("LawNum", vec![]),
        text("最初の番号"),
        text("令和元年法律第一号"),
        end("LawNum"),
        text("令和元年法律第一号"),
    ];
    let got = search_xml("令和", &events).unwrap();
    assert_eq!(got.num, "令和元年法律第一号".to_string());
    // only the text outside capture mode was searched; the address is empty
    assert_eq!(got.chapter_data.len(), 1);
    assert_eq!(got.chapter_data[0], empty_chapter());
}

#[test]
fn unknown_elements_leave_state_alone() {
    let mut st = fresh_state();
    let terms = vec!["x".to_string()];
    step(&mut st, &start("Article", vec![("Num", "8")]), &terms).unwrap();
    let before = st.addr.clone();
    step(&mut st, &start("Sentence", vec![("Num", "1")]), &terms).unwrap();
    step(&mut st, &end("Sentence"), &terms).unwrap();
    assert_eq!(st.addr, before);
}
