use pdf_helper::builder::{
    toc_page_label, Alignment, LayoutItem, PageTracker, PassRequest, PdfBuilder, RenderStep,
};
use pdf_helper::model::{Block, Cover, HorizontalAlignment, Section};
use pdf_helper::richtext::Span;

fn sample_builder() -> PdfBuilder {
    PdfBuilder::new()
        .with_cover(Some(Cover::new("Report").with_block(Block::paragraph(vec![Span::new("by me")]))))
        .add_section(Section::new("One").with_block(Block::paragraph(vec![Span::new("a")])))
        .add_section(Section::new("Two"))
        .include_printed_toc(true)
}

fn describe(items: &[LayoutItem]) -> Vec<String> {
    items.iter().map(|item| format!("{item:?}")).collect()
}

#[test]
fn tracker_records_first_page_only() {
    let mut tracker = PageTracker::new(2);
    tracker.set_current_page(3);
    tracker.mark_section(1);
    tracker.set_current_page(4);
    tracker.mark_section(1);
    tracker.mark_section(0);
    tracker.mark_section(7);
    assert_eq!(tracker.pages(), &[Some(4), Some(3)][..]);
    assert_eq!(tracker.current_page(), 4);
}

#[test]
fn tracker_pages_follow_section_order() {
    let mut tracker = PageTracker::new(3);
    let mut page = 0;
    for section in 0..3 {
        page += 1;
        tracker.set_current_page(page);
        tracker.mark_section(section);
    }
    let pages: Vec<usize> = tracker.pages().iter().map(|p| p.unwrap()).collect();
    assert!(pages.windows(2).all(|w| w[0] <= w[1]));
    assert!(pages.iter().all(|&p| p >= 1));
}

#[test]
fn toc_labels() {
    assert_eq!(toc_page_label(None), "--");
    assert_eq!(toc_page_label(Some(0)), "0");
    assert_eq!(toc_page_label(Some(7)), "7");
    assert_eq!(toc_page_label(Some(120)), "120");
    assert_eq!(toc_page_label(Some(usize::MAX)), usize::MAX.to_string());
}

#[test]
fn toc_render_runs_two_passes() {
    let builder = sample_builder();
    let (session, first) = builder.begin_render();
    assert!(first.track_sections);
    assert!(first.toc_pages.is_none());
    let step = session.pass_finished(vec![1, 2, 3], vec![Some(3), Some(4)]);
    let (session, second) = match step {
        RenderStep::Layout(session, request) => (session, request),
        RenderStep::Finished(_) => panic!("a final pass must follow discovery"),
    };
    assert!(second.track_sections);
    assert_eq!(second.toc_pages, Some(vec![Some(3), Some(4)]));
    match session.pass_finished(vec![9], vec![Some(3), Some(5)]) {
        RenderStep::Finished(result) => {
            assert_eq!(result.bytes, vec![9]);
            assert_eq!(result.section_start_pages, vec![Some(3), Some(5)]);
        }
        RenderStep::Layout(..) => panic!("render should be finished"),
    }
}

#[test]
fn render_without_toc_runs_one_pass() {
    let builder = PdfBuilder::new().add_section(Section::new("Only"));
    let (session, request) = builder.begin_render();
    assert!(!request.track_sections);
    match session.pass_finished(vec![7], vec![None]) {
        RenderStep::Finished(result) => {
            assert_eq!(result.bytes, vec![7]);
            assert_eq!(result.section_start_pages, vec![None]);
        }
        RenderStep::Layout(..) => panic!("a single pass was expected"),
    }
    let collecting = PdfBuilder::new().add_section(Section::new("Only")).collect_section_pages(true);
    let (session, request) = collecting.begin_render();
    assert!(request.track_sections);
    match session.pass_finished(vec![], vec![Some(1)]) {
        RenderStep::Finished(result) => assert_eq!(result.section_start_pages, vec![Some(1)]),
        RenderStep::Layout(..) => panic!("a single pass was expected"),
    }
}

#[test]
fn toc_requested_without_sections_is_not_printed() {
    let builder = PdfBuilder::new().include_printed_toc(true);
    let (session, request) = builder.begin_render();
    assert!(!request.track_sections);
    assert!(describe(&builder.layout_items(&request)).is_empty());
    assert!(matches!(session.pass_finished(vec![], vec![]), RenderStep::Finished(_)));
}

#[test]
fn discovery_pass_layout_order() {
    let builder = sample_builder();
    let request = PassRequest { track_sections: true, toc_pages: None };
    let items = describe(&builder.layout_items(&request));
    assert_eq!(
        items,
        vec![
            "CoverTitle(\"Report\")",
            "CoverBlock(0)",
            "PageBreak",
            "TocTitle(\"Table of Contents\")",
            "TocRow(\"One\", \"--\")",
            "TocRow(\"Two\", \"--\")",
            "PageBreak",
            "SectionMarker(0)",
            "SectionHeading(\"One\")",
            "SectionBlock(0, 0)",
            "SectionMarker(1)",
            "SectionHeading(\"Two\")",
        ]
    );
}

#[test]
fn final_pass_prints_recorded_pages() {
    let builder = sample_builder()
        .with_toc_title(Some("Contents".to_string()))
        .render_section_headings(false);
    let request = PassRequest { track_sections: false, toc_pages: Some(vec![Some(3), None]) };
    let items = describe(&builder.layout_items(&request));
    assert_eq!(
        items,
        vec![
            "CoverTitle(\"Report\")",
            "CoverBlock(0)",
            "PageBreak",
            "TocTitle(\"Contents\")",
            "TocRow(\"One\", \"3\")",
            "TocRow(\"Two\", \"--\")",
            "PageBreak",
            "SectionBlock(0, 0)",
        ]
    );
}

#[test]
fn layout_is_the_same_every_time() {
    let builder = sample_builder();
    let request = PassRequest { track_sections: true, toc_pages: Some(vec![Some(2), Some(2)]) };
    assert_eq!(describe(&builder.layout_items(&request)), describe(&builder.layout_items(&request)));
}

#[test]
fn cover_alone_has_no_trailing_break() {
    let builder = PdfBuilder::new().with_cover(Some(
        Cover::new("Title").with_subtitle(Some("Sub".to_string())).with_identifier(Some("ID".to_string())),
    ));
    let request = PassRequest { track_sections: false, toc_pages: None };
    assert_eq!(
        describe(&builder.layout_items(&request)),
        vec!["CoverTitle(\"Title\")", "CoverSubtitle(\"Sub\")", "CoverIdentifier(\"ID\")"]
    );
}

#[test]
fn alignment_resolution() {
    let builder = PdfBuilder::new().with_default_alignment(HorizontalAlignment::Center);
    assert_eq!(builder.resolve_alignment(HorizontalAlignment::Left), Alignment::Center);
    assert_eq!(builder.resolve_alignment(HorizontalAlignment::Right), Alignment::Right);
    assert_eq!(builder.resolve_alignment(HorizontalAlignment::Justified), Alignment::Left);
    let plain = PdfBuilder::new();
    assert_eq!(plain.resolve_alignment(HorizontalAlignment::Left), Alignment::Left);
    assert_eq!(plain.toc_title(), "Table of Contents");
    assert!(!plain.header_shown() && !plain.footer_shown() && !plain.hyphenation_requested());
}

#[test]
fn header_is_the_cover_title_when_shown() {
    let with_cover = PdfBuilder::new().with_cover(Some(Cover::new("Annual")));
    assert_eq!(with_cover.page_header(), None);
    let shown = with_cover.show_header(true);
    assert_eq!(shown.page_header(), Some("Annual"));
    assert_eq!(PdfBuilder::new().show_header(true).page_header(), None);
}

#[test]
fn cover_with_toc_but_no_sections_has_no_break() {
    let builder = PdfBuilder::new().with_cover(Some(Cover::new("Title"))).include_printed_toc(true);
    let request = PassRequest { track_sections: false, toc_pages: None };
    assert_eq!(describe(&builder.layout_items(&request)), vec!["CoverTitle(\"Title\")"]);
}
