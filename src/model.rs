//! The logical content of a document: paragraphs, images, sections and the cover.
//!
//! Every value here is owned by its container and built with withers that return the
//! updated value.  Block and section order is kept exactly as supplied.
use vstd::prelude::*;
use crate::richtext::{Span, SpanModel, spans_model};

verus! {

/// Horizontal alignment of text and images.
#[derive(Clone, Copy, Debug, PartialEq, Eq, Structural)]
pub enum HorizontalAlignment {
    /// Left aligned content.
    Left,
    /// Center aligned content.
    Center,
    /// Right aligned content.
    Right,
    /// Fully justified paragraphs.
    Justified,
}

impl Default for HorizontalAlignment {
    fn default() -> (r: HorizontalAlignment)
        ensures
            r == HorizontalAlignment::Left,
    {
        HorizontalAlignment::Left
    }
}

pub struct ParagraphModel {
    pub spans: Seq<SpanModel>,
    pub alignment: HorizontalAlignment,
}

/// A paragraph of styled spans with an alignment.
#[derive(Clone, Debug, PartialEq)]
pub struct RichParagraph {
    spans: Vec<Span>,
    alignment: HorizontalAlignment,
}

impl View for RichParagraph {
    type V = ParagraphModel;

    closed spec fn view(&self) -> ParagraphModel {
        ParagraphModel { spans: spans_model(self.spans@), alignment: self.alignment }
    }
}

impl RichParagraph {
    /// Creates a left-aligned paragraph from the provided spans.
    pub fn new(spans: Vec<Span>) -> (r: RichParagraph)
        ensures
            r@ == (ParagraphModel { spans: spans_model(spans@), alignment: HorizontalAlignment::Left }),
    {
        RichParagraph { spans, alignment: HorizontalAlignment::Left }
    }

    /// Returns the spans that make up the paragraph.
    pub fn spans(&self) -> (r: &[Span])
        ensures
            spans_model(r@) == self@.spans,
    {
        self.spans.as_slice()
    }

    /// Returns the configured alignment.
    pub fn alignment(&self) -> (r: HorizontalAlignment)
        ensures
            r == self@.alignment,
    {
        self.alignment
    }

    /// Sets the alignment and returns the updated paragraph.
    pub fn with_alignment(self, alignment: HorizontalAlignment) -> (r: RichParagraph)
        ensures
            r@ == (ParagraphModel { alignment, ..self@ }),
    {
        RichParagraph { alignment, ..self }
    }
}

/// Where the pixels of an image come from: exactly one of raw bytes or a file path.
#[derive(Clone, Debug, PartialEq, Eq)]
pub enum ImageSource {
    /// Image loaded from raw bytes.
    Bytes(Vec<u8>),
    /// Image referenced by a file path.
    Path(String),
}

pub enum ImageSourceModel {
    Bytes(Seq<u8>),
    Path(Seq<char>),
}

impl View for ImageSource {
    type V = ImageSourceModel;

    open spec fn view(&self) -> ImageSourceModel {
        match self {
            ImageSource::Bytes(b) => ImageSourceModel::Bytes(b@),
            ImageSource::Path(p) => ImageSourceModel::Path(p@),
        }
    }
}

impl ImageSource {
    /// Creates an in-memory image from raw bytes.
    pub fn from_bytes(bytes: Vec<u8>) -> (r: ImageSource)
        ensures
            r@ == ImageSourceModel::Bytes(bytes@),
    {
        ImageSource::Bytes(bytes)
    }

    /// Creates an image sourced from a file path.
    pub fn from_path(path: &str) -> (r: ImageSource)
        ensures
            r@ == ImageSourceModel::Path(path@),
    {
        ImageSource::Path(path.to_owned())
    }
}

pub struct ImageModel {
    pub source: ImageSourceModel,
    pub caption: Option<ParagraphModel>,
    pub alignment: HorizontalAlignment,
    pub width_mm: Option<u32>,
}

pub open spec fn caption_model(c: Option<RichParagraph>) -> Option<ParagraphModel> {
    match c {
        Some(p) => Some(p@),
        None => None,
    }
}

/// An image with an optional caption, an alignment and an optional target width.
///
/// The width is in whole millimetres and independent of the image's pixel size; when set,
/// the image is rescaled uniformly to it.
#[derive(Clone, Debug, PartialEq)]
pub struct ImageBlock {
    source: ImageSource,
    caption: Option<RichParagraph>,
    alignment: HorizontalAlignment,
    width_mm: Option<u32>,
}

impl View for ImageBlock {
    type V = ImageModel;

    closed spec fn view(&self) -> ImageModel {
        ImageModel {
            source: self.source@,
            caption: caption_model(self.caption),
            alignment: self.alignment,
            width_mm: self.width_mm,
        }
    }
}

impl ImageBlock {
    /// Creates a left-aligned image block without caption or width.
    pub fn new(source: ImageSource) -> (r: ImageBlock)
        ensures
            r@ == (ImageModel { source: source@, caption: None, alignment: HorizontalAlignment::Left, width_mm: None }),
    {
        ImageBlock { source, caption: None, alignment: HorizontalAlignment::Left, width_mm: None }
    }

    /// Returns the image source.
    pub fn source(&self) -> (r: &ImageSource)
        ensures
            r@ == self@.source,
    {
        &self.source
    }

    /// Returns the caption paragraph, if any.
    pub fn caption(&self) -> (r: Option<&RichParagraph>)
        ensures
            match r {
                Some(p) => self@.caption == Some(p@),
                None => self@.caption is None,
            },
    {
        match &self.caption {
            Some(p) => Some(p),
            None => None,
        }
    }

    /// Returns the configured alignment.
    pub fn alignment(&self) -> (r: HorizontalAlignment)
        ensures
            r == self@.alignment,
    {
        self.alignment
    }

    /// Returns the requested width in millimetres, if any.
    pub fn width_mm(&self) -> (r: Option<u32>)
        ensures
            r == self@.width_mm,
    {
        self.width_mm
    }

    /// Sets the caption and returns the updated block.
    pub fn with_caption(self, caption: Option<RichParagraph>) -> (r: ImageBlock)
        ensures
            r@ == (ImageModel { caption: caption_model(caption), ..self@ }),
    {
        ImageBlock { caption, ..self }
    }

    /// Sets the alignment and returns the updated block.
    pub fn with_alignment(self, alignment: HorizontalAlignment) -> (r: ImageBlock)
        ensures
            r@ == (ImageModel { alignment, ..self@ }),
    {
        ImageBlock { alignment, ..self }
    }

    /// Constrains the rendered width, in millimetres, and returns the updated block.
    pub fn with_width_mm(self, width_mm: Option<u32>) -> (r: ImageBlock)
        ensures
            r@ == (ImageModel { width_mm, ..self@ }),
    {
        ImageBlock { width_mm, ..self }
    }
}

/// One piece of the content of a section or of the cover.
#[derive(Clone, Debug, PartialEq)]
pub enum Block {
    /// Styled paragraph content.
    Paragraph(RichParagraph),
    /// Captioned image content.
    Image(ImageBlock),
    /// A layout directive: continue on a new page.
    PageBreak,
}

pub enum BlockModel {
    Paragraph(ParagraphModel),
    Image(ImageModel),
    PageBreak,
}

impl View for Block {
    type V = BlockModel;

    open spec fn view(&self) -> BlockModel {
        match self {
            Block::Paragraph(p) => BlockModel::Paragraph(p@),
            Block::Image(i) => BlockModel::Image(i@),
            Block::PageBreak => BlockModel::PageBreak,
        }
    }
}

pub open spec fn blocks_model(blocks: Seq<Block>) -> Seq<BlockModel> {
    blocks.map_values(|b: Block| b@)
}

impl Block {
    /// A left-aligned paragraph of the given spans.
    pub fn paragraph(spans: Vec<Span>) -> (r: Block)
        ensures
            r@ == BlockModel::Paragraph(ParagraphModel { spans: spans_model(spans@), alignment: HorizontalAlignment::Left }),
    {
        Block::Paragraph(RichParagraph::new(spans))
    }

    /// An image block of the given source, without caption or width.
    pub fn image(source: ImageSource) -> (r: Block)
        ensures
            r@ == BlockModel::Image(
                ImageModel { source: source@, caption: None, alignment: HorizontalAlignment::Left, width_mm: None },
            ),
    {
        Block::Image(ImageBlock::new(source))
    }

    /// A page break.
    pub fn page_break() -> (r: Block)
        ensures
            r@ == BlockModel::PageBreak,
    {
        Block::PageBreak
    }
}

pub open spec fn opt_text(o: Option<String>) -> Option<Seq<char>> {
    match o {
        Some(t) => Some(t@),
        None => None,
    }
}

fn opt_str(o: &Option<String>) -> (r: Option<&str>)
    ensures
        match r {
            Some(t) => opt_text(*o) == Some(t@),
            None => o is None,
        },
{
    match o {
        Some(t) => Some(t.as_str()),
        None => None,
    }
}

fn append_blocks(dst: &mut Vec<Block>, mut src: Vec<Block>)
    ensures
        blocks_model(final(dst)@) == blocks_model(old(dst)@) + blocks_model(src@),
{
    let ghost before = dst@;
    let ghost added = src@;
    dst.append(&mut src);
    assert(blocks_model(dst@) =~= blocks_model(before) + blocks_model(added));
}

pub struct CoverModel {
    pub title: Seq<char>,
    pub subtitle: Option<Seq<char>>,
    pub identifier: Option<Seq<char>>,
    pub blocks: Seq<BlockModel>,
}

/// The cover: a title, an optional subtitle and identifier, and blocks, rendered before
/// everything else.
#[derive(Clone, Debug, PartialEq)]
pub struct Cover {
    title: String,
    subtitle: Option<String>,
    identifier: Option<String>,
    blocks: Vec<Block>,
}

impl View for Cover {
    type V = CoverModel;

    closed spec fn view(&self) -> CoverModel {
        CoverModel {
            title: self.title@,
            subtitle: opt_text(self.subtitle),
            identifier: opt_text(self.identifier),
            blocks: blocks_model(self.blocks@),
        }
    }
}

impl Cover {
    /// Creates a cover with the given title and nothing else.
    pub fn new(title: &str) -> (r: Cover)
        ensures
            r@ == (CoverModel { title: title@, subtitle: None, identifier: None, blocks: Seq::empty() }),
    {
        let r = Cover { title: title.to_owned(), subtitle: None, identifier: None, blocks: Vec::new() };
        assert(blocks_model(r.blocks@) =~= Seq::empty());
        r
    }

    /// Returns the title shown on the cover page.
    pub fn title(&self) -> (r: &str)
        ensures
            r@ == self@.title,
    {
        self.title.as_str()
    }

    /// Returns the subtitle, if any.
    pub fn subtitle(&self) -> (r: Option<&str>)
        ensures
            match r {
                Some(t) => self@.subtitle == Some(t@),
                None => self@.subtitle is None,
            },
    {
        opt_str(&self.subtitle)
    }

    /// Returns the identifier, if any.
    pub fn identifier(&self) -> (r: Option<&str>)
        ensures
            match r {
                Some(t) => self@.identifier == Some(t@),
                None => self@.identifier is None,
            },
    {
        opt_str(&self.identifier)
    }

    /// Returns the content blocks rendered on the cover page.
    pub fn blocks(&self) -> (r: &[Block])
        ensures
            blocks_model(r@) == self@.blocks,
    {
        self.blocks.as_slice()
    }

    /// Sets the subtitle and returns the updated cover.
    pub fn with_subtitle(self, subtitle: Option<String>) -> (r: Cover)
        ensures
            r@ == (CoverModel { subtitle: opt_text(subtitle), ..self@ }),
    {
        Cover { subtitle, ..self }
    }

    /// Sets the identifier and returns the updated cover.
    pub fn with_identifier(self, identifier: Option<String>) -> (r: Cover)
        ensures
            r@ == (CoverModel { identifier: opt_text(identifier), ..self@ }),
    {
        Cover { identifier, ..self }
    }

    /// Appends a block and returns the updated cover.
    pub fn with_block(self, block: Block) -> (r: Cover)
        ensures
            r@ == (CoverModel { blocks: self@.blocks.push(block@), ..self@ }),
    {
        let mut blocks = self.blocks;
        let ghost before = blocks@;
        blocks.push(block);
        assert(blocks_model(blocks@) =~= blocks_model(before).push(block@));
        Cover { blocks, ..self }
    }

    /// Appends several blocks, in order, and returns the updated cover.
    pub fn with_blocks(self, blocks: Vec<Block>) -> (r: Cover)
        ensures
            r@ == (CoverModel { blocks: self@.blocks + blocks_model(blocks@), ..self@ }),
    {
        let mut all = self.blocks;
        append_blocks(&mut all, blocks);
        Cover { blocks: all, ..self }
    }
}

pub struct SectionModel {
    pub identifier: Option<Seq<char>>,
    pub title: Seq<char>,
    pub blocks: Seq<BlockModel>,
}

/// A section: a title, an optional stable identifier and its blocks.
#[derive(Clone, Debug, PartialEq)]
pub struct Section {
    identifier: Option<String>,
    title: String,
    blocks: Vec<Block>,
}

impl View for Section {
    type V = SectionModel;

    closed spec fn view(&self) -> SectionModel {
        SectionModel {
            identifier: opt_text(self.identifier),
            title: self.title@,
            blocks: blocks_model(self.blocks@),
        }
    }
}

pub open spec fn sections_model(sections: Seq<Section>) -> Seq<SectionModel> {
    sections.map_values(|s: Section| s@)
}

impl Section {
    /// Creates a section with the given title and no blocks.
    pub fn new(title: &str) -> (r: Section)
        ensures
            r@ == (SectionModel { identifier: None, title: title@, blocks: Seq::empty() }),
    {
        let r = Section { identifier: None, title: title.to_owned(), blocks: Vec::new() };
        assert(blocks_model(r.blocks@) =~= Seq::empty());
        r
    }

    /// Returns the identifier used for bookmarks and cross references.
    pub fn identifier(&self) -> (r: Option<&str>)
        ensures
            match r {
                Some(t) => self@.identifier == Some(t@),
                None => self@.identifier is None,
            },
    {
        opt_str(&self.identifier)
    }

    /// Returns the title of the section.
    pub fn title(&self) -> (r: &str)
        ensures
            r@ == self@.title,
    {
        self.title.as_str()
    }

    /// Returns the blocks of the section.
    pub fn blocks(&self) -> (r: &[Block])
        ensures
            blocks_model(r@) == self@.blocks,
    {
        self.blocks.as_slice()
    }

    /// Sets the identifier and returns the updated section.
    pub fn with_identifier(self, identifier: Option<String>) -> (r: Section)
        ensures
            r@ == (SectionModel { identifier: opt_text(identifier), ..self@ }),
    {
        Section { identifier, ..self }
    }

    /// Appends a block and returns the updated section.
    pub fn with_block(self, block: Block) -> (r: Section)
        ensures
            r@ == (SectionModel { blocks: self@.blocks.push(block@), ..self@ }),
    {
        let mut blocks = self.blocks;
        let ghost before = blocks@;
        blocks.push(block);
        assert(blocks_model(blocks@) =~= blocks_model(before).push(block@));
        Section { blocks, ..self }
    }

    /// Appends several blocks, in order, and returns the updated section.
    pub fn with_blocks(self, blocks: Vec<Block>) -> (r: Section)
        ensures
            r@ == (SectionModel { blocks: self@.blocks + blocks_model(blocks@), ..self@ }),
    {
        let mut all = self.blocks;
        append_blocks(&mut all, blocks);
        Section { blocks: all, ..self }
    }

    /// Creates a builder for a section with the given title.
    pub fn builder(title: &str) -> (r: SectionBuilder)
        ensures
            r@ == (BuilderModel { identifier: None, title: title@, blocks: Seq::empty(), start_on_new_page: false }),
    {
        SectionBuilder::new(title)
    }
}

pub struct BuilderModel {
    pub identifier: Option<Seq<char>>,
    pub title: Seq<char>,
    pub blocks: Seq<BlockModel>,
    pub start_on_new_page: bool,
}

/// Builder for [`Section`]s that can make the section start on a new page.
#[derive(Clone, Debug)]
pub struct SectionBuilder {
    identifier: Option<String>,
    title: String,
    blocks: Vec<Block>,
    start_on_new_page: bool,
}

impl View for SectionBuilder {
    type V = BuilderModel;

    closed spec fn view(&self) -> BuilderModel {
        BuilderModel {
            identifier: opt_text(self.identifier),
            title: self.title@,
            blocks: blocks_model(self.blocks@),
            start_on_new_page: self.start_on_new_page,
        }
    }
}

pub open spec fn starts_with_break(blocks: Seq<BlockModel>) -> bool {
    blocks.len() > 0 && blocks[0] is PageBreak
}

/// The blocks of the section that a builder makes: a page break is put first when the
/// section is to start on a new page and does not already begin with one.
pub open spec fn built_blocks(b: BuilderModel) -> Seq<BlockModel> {
    if b.start_on_new_page && !starts_with_break(b.blocks) {
        seq![BlockModel::PageBreak] + b.blocks
    } else {
        b.blocks
    }
}

/// No two page breaks stand next to each other.
pub open spec fn no_double_break(blocks: Seq<BlockModel>) -> bool {
    forall|i: int| 0 <= i < blocks.len() - 1 ==> !(#[trigger] blocks[i] is PageBreak && blocks[i + 1] is PageBreak)
}

impl SectionBuilder {
    /// Creates a builder for a section with the given title.
    pub fn new(title: &str) -> (r: SectionBuilder)
        ensures
            r@ == (BuilderModel { identifier: None, title: title@, blocks: Seq::empty(), start_on_new_page: false }),
    {
        let r = SectionBuilder { identifier: None, title: title.to_owned(), blocks: Vec::new(), start_on_new_page: false };
        assert(blocks_model(r.blocks@) =~= Seq::empty());
        r
    }

    /// Sets whether the section starts on a new page.
    pub fn start_on_new_page(self, start_on_new_page: bool) -> (r: SectionBuilder)
        ensures
            r@ == (BuilderModel { start_on_new_page, ..self@ }),
    {
        SectionBuilder { start_on_new_page, ..self }
    }

    /// Sets the identifier of the section.
    pub fn identifier(self, identifier: Option<String>) -> (r: SectionBuilder)
        ensures
            r@ == (BuilderModel { identifier: opt_text(identifier), ..self@ }),
    {
        SectionBuilder { identifier, ..self }
    }

    /// Appends a block.
    pub fn push_block(self, block: Block) -> (r: SectionBuilder)
        ensures
            r@ == (BuilderModel { blocks: self@.blocks.push(block@), ..self@ }),
    {
        let mut blocks = self.blocks;
        let ghost before = blocks@;
        blocks.push(block);
        assert(blocks_model(blocks@) =~= blocks_model(before).push(block@));
        SectionBuilder { blocks, ..self }
    }

    /// Appends several blocks, in order.
    pub fn extend_blocks(self, blocks: Vec<Block>) -> (r: SectionBuilder)
        ensures
            r@ == (BuilderModel { blocks: self@.blocks + blocks_model(blocks@), ..self@ }),
    {
        let mut all = self.blocks;
        append_blocks(&mut all, blocks);
        SectionBuilder { blocks: all, ..self }
    }

    /// Builds the section, putting a page break first when it is to start on a new page
    /// and its blocks do not already begin with one.
    pub fn build(self) -> (r: Section)
        ensures
            r@ == (SectionModel { identifier: self@.identifier, title: self@.title, blocks: built_blocks(self@) }),
    {
        let mut blocks = self.blocks;
        if self.start_on_new_page {
            let leading_break = blocks.len() > 0 && match &blocks[0] {
                Block::PageBreak => true,
                _ => false,
            };
            if !leading_break {
                let ghost before = blocks@;
                blocks.insert(0, Block::PageBreak);
                assert(blocks_model(blocks@) =~= seq![BlockModel::PageBreak] + blocks_model(before));
            }
        }
        Section { identifier: self.identifier, title: self.title, blocks }
    }
}

/// A section built to start on a new page begins with a page break, and holds no two
/// adjacent page breaks unless the blocks given to the builder did: a leading page break
/// that the caller supplied is not doubled.
pub proof fn lemma_build_never_doubles_break(b: BuilderModel)
    requires
        b.start_on_new_page,
        no_double_break(b.blocks),
    ensures
        starts_with_break(built_blocks(b)),
        no_double_break(built_blocks(b)),
{
    let out = built_blocks(b);
    if !starts_with_break(b.blocks) {
        assert forall|i: int| 0 <= i < out.len() - 1 implies !(#[trigger] out[i] is PageBreak && out[i + 1] is PageBreak) by {
            if i > 0 {
                assert(out[i] == b.blocks[i - 1]);
                assert(out[i + 1] == b.blocks[i]);
            } else {
                assert(out[1] == b.blocks[0]);
            }
        }
    }
}

} // verus!
