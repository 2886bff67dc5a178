use pdf_helper::model::{
    Block, Cover, HorizontalAlignment, ImageBlock, ImageSource, RichParagraph, Section,
};
use pdf_helper::richtext::Span;

#[test]
fn builder_inserts_page_break() {
    let section = Section::builder("Intro")
        .start_on_new_page(true)
        .push_block(Block::paragraph(Vec::new()))
        .build();

    assert!(matches!(section.blocks().first(), Some(Block::PageBreak)));
}

#[test]
fn builder_does_not_duplicate_page_break() {
    let section = Section::builder("Intro")
        .start_on_new_page(true)
        .push_block(Block::PageBreak)
        .build();

    assert!(matches!(section.blocks().first(), Some(Block::PageBreak)));
    assert_eq!(section.blocks().len(), 1);
}

#[test]
fn builder_without_new_page_keeps_blocks() {
    let section = Section::builder("Body")
        .identifier(Some("body".to_string()))
        .extend_blocks(vec![Block::paragraph(vec![Span::new("x")]), Block::page_break()])
        .build();
    assert_eq!(section.title(), "Body");
    assert_eq!(section.identifier(), Some("body"));
    assert_eq!(section.blocks().len(), 2);
    assert!(matches!(section.blocks()[0], Block::Paragraph(_)));
}

#[test]
fn builder_new_page_leaves_no_adjacent_breaks() {
    let section = Section::builder("Intro")
        .start_on_new_page(true)
        .push_block(Block::paragraph(vec![Span::new("a")]))
        .push_block(Block::PageBreak)
        .push_block(Block::paragraph(vec![Span::new("b")]))
        .build();
    let blocks = section.blocks();
    assert_eq!(blocks.len(), 4);
    assert!(matches!(blocks[0], Block::PageBreak));
    for pair in blocks.windows(2) {
        assert!(!(matches!(pair[0], Block::PageBreak) && matches!(pair[1], Block::PageBreak)));
    }
}

#[test]
fn section_and_cover_keep_block_order() {
    let first = Block::paragraph(vec![Span::new("1")]);
    let second = Block::paragraph(vec![Span::new("2")]);
    let section = Section::new("S").with_block(first.clone()).with_blocks(vec![second.clone()]);
    assert_eq!(section.blocks(), &[first.clone(), second.clone()][..]);
    let cover = Cover::new("Report")
        .with_subtitle(Some("Sub".to_string()))
        .with_identifier(Some("R-1".to_string()))
        .with_blocks(vec![first.clone()])
        .with_block(second.clone());
    assert_eq!(cover.title(), "Report");
    assert_eq!(cover.subtitle(), Some("Sub"));
    assert_eq!(cover.identifier(), Some("R-1"));
    assert_eq!(cover.blocks(), &[first, second][..]);
}

#[test]
fn image_block_withers() {
    let caption = RichParagraph::new(vec![Span::new("Figure")]).with_alignment(HorizontalAlignment::Right);
    let image = ImageBlock::new(ImageSource::from_path("logo.png"))
        .with_caption(Some(caption.clone()))
        .with_alignment(HorizontalAlignment::Center)
        .with_width_mm(Some(80));
    assert_eq!(image.source(), &ImageSource::Path("logo.png".to_string()));
    assert_eq!(image.caption(), Some(&caption));
    assert_eq!(image.alignment(), HorizontalAlignment::Center);
    assert_eq!(image.width_mm(), Some(80));
    assert_eq!(caption.alignment(), HorizontalAlignment::Right);
    assert_eq!(caption.spans().len(), 1);
    assert_eq!(ImageSource::from_bytes(vec![1, 2]), ImageSource::Bytes(vec![1, 2]));
    assert!(matches!(Block::image(ImageSource::from_bytes(vec![])), Block::Image(_)));
    assert_eq!(HorizontalAlignment::default(), HorizontalAlignment::Left);
}
