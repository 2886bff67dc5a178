//! The decisions of the page-resolution pipeline.
//!
//! Laying out pages is the layout engine's work, done outside this library.  What is decided
//! here is what a pass lays out, in which order ([`PdfBuilder::layout_items`]); how many
//! passes run and what each one is handed ([`RenderSession`]); and how the page counter and
//! the per-section start pages are kept during a pass ([`PageTracker`]).
use vstd::prelude::*;
use vstd::string::*;
use crate::model::{Cover, CoverModel, HorizontalAlignment, Section, SectionModel, sections_model};

verus! {

/// The horizontal alignments the layout engine knows.
#[derive(Clone, Copy, Debug, PartialEq, Eq, Structural)]
pub enum Alignment {
    Left,
    Center,
    Right,
}

/// A paper size, in whole millimetres.
#[derive(Clone, Copy, Debug, PartialEq, Eq, Structural)]
pub struct PaperSize {
    pub width_mm: u32,
    pub height_mm: u32,
}

/// Page margins, in whole millimetres.
#[derive(Clone, Copy, Debug, PartialEq, Eq, Structural)]
pub struct Margins {
    pub top_mm: u32,
    pub right_mm: u32,
    pub bottom_mm: u32,
    pub left_mm: u32,
}

pub struct TrackerModel {
    pub current_page: usize,
    pub section_pages: Seq<Option<usize>>,
}

/// The page counter of one pass and the page on which each section started.
///
/// The layout engine reports every new page; a marker at the start of each section's
/// content records the current page into that section's slot the first time it fires.
#[derive(Debug)]
pub struct PageTracker {
    current_page: usize,
    section_pages: Vec<Option<usize>>,
}

impl View for PageTracker {
    type V = TrackerModel;

    closed spec fn view(&self) -> TrackerModel {
        TrackerModel { current_page: self.current_page, section_pages: self.section_pages@ }
    }
}

/// `n` empty page slots.
pub open spec fn no_pages(n: nat) -> Seq<Option<usize>> {
    Seq::new(n, |i: int| None)
}

fn empty_pages(n: usize) -> (r: Vec<Option<usize>>)
    ensures
        r@ == no_pages(n as nat),
{
    let mut r: Vec<Option<usize>> = Vec::new();
    while r.len() < n
        invariant
            r.len() <= n,
            r@ == no_pages(r.len() as nat),
        decreases n - r.len(),
    {
        r.push(None);
        assert(r@ =~= no_pages(r.len() as nat));
    }
    r
}

/// The tracker after a section marker for `index` fires: the first record for a section wins.
pub open spec fn mark(t: TrackerModel, index: int) -> TrackerModel {
    if 0 <= index < t.section_pages.len() && t.section_pages[index] is None {
        TrackerModel { section_pages: t.section_pages.update(index, Some(t.current_page)), ..t }
    } else {
        t
    }
}

impl PageTracker {
    /// A tracker for `section_count` sections, before the first page.
    pub fn new(section_count: usize) -> (r: PageTracker)
        ensures
            r@ == (TrackerModel { current_page: 0, section_pages: no_pages(section_count as nat) }),
    {
        PageTracker { current_page: 0, section_pages: empty_pages(section_count) }
    }

    /// The layout engine has started page `page`.
    pub fn set_current_page(&mut self, page: usize)
        ensures
            final(self)@ == (TrackerModel { current_page: page, ..old(self)@ }),
    {
        self.current_page = page;
    }

    /// The content of section `index` starts now.
    pub fn mark_section(&mut self, index: usize)
        ensures
            final(self)@ == mark(old(self)@, index as int),
    {
        if index < self.section_pages.len() && self.section_pages[index].is_none() {
            let page = self.current_page;
            self.section_pages.set(index, Some(page));
        }
    }

    /// The recorded start page of each section.
    pub fn pages(&self) -> (r: &[Option<usize>])
        ensures
            r@ == self@.section_pages,
    {
        self.section_pages.as_slice()
    }

    /// The page the layout engine is on.
    pub fn current_page(&self) -> (r: usize)
        ensures
            r == self@.current_page,
    {
        self.current_page
    }
}

// ---------------------------------------------------------------------------------------------
// Page labels of the table of contents.
// ---------------------------------------------------------------------------------------------

pub open spec fn digit(d: nat) -> char {
    if d == 0 { '0' } else if d == 1 { '1' } else if d == 2 { '2' } else if d == 3 { '3' }
    else if d == 4 { '4' } else if d == 5 { '5' } else if d == 6 { '6' } else if d == 7 { '7' }
    else if d == 8 { '8' } else { '9' }
}

/// The decimal digits of `n`, most significant first.
pub open spec fn decimal(n: nat) -> Seq<char>
    decreases n,
{
    if n < 10 {
        seq![digit(n)]
    } else {
        decimal(n / 10).push(digit(n % 10))
    }
}

/// What the table of contents prints for a section's page: its number, or a dash
/// placeholder when none was recorded.
pub open spec fn page_label(page: Option<usize>) -> Seq<char> {
    match page {
        Some(n) => decimal(n as nat),
        None => "--"@,
    }
}

fn digit_str(d: usize) -> (r: &'static str)
    requires
        d < 10,
    ensures
        r@ == seq![digit(d as nat)],
{
    proof {
        reveal_strlit("0");
        reveal_strlit("1");
        reveal_strlit("2");
        reveal_strlit("3");
        reveal_strlit("4");
        reveal_strlit("5");
        reveal_strlit("6");
        reveal_strlit("7");
        reveal_strlit("8");
        reveal_strlit("9");
    }
    if d == 0 { "0" } else if d == 1 { "1" } else if d == 2 { "2" } else if d == 3 { "3" }
    else if d == 4 { "4" } else if d == 5 { "5" } else if d == 6 { "6" } else if d == 7 { "7" }
    else if d == 8 { "8" } else { "9" }
}

fn decimal_string(n: usize) -> (r: String)
    ensures
        r@ == decimal(n as nat),
{
    let mut s = digit_str(n % 10).to_owned();
    let mut rest: usize = n / 10;
    while rest > 0
        invariant
            rest > 0 ==> decimal(n as nat) == decimal(rest as nat) + s@,
            rest == 0 ==> decimal(n as nat) == s@,
        decreases rest,
    {
        let d = digit_str(rest % 10).to_owned();
        let ghost old_s = s@;
        s = d.concat(s.as_str());
        assert(decimal(rest as nat) + old_s =~= decimal((rest / 10) as nat) + s@ || rest < 10);
        if rest < 10 {
            assert(s@ =~= decimal(rest as nat) + old_s);
        }
        rest = rest / 10;
    }
    s
}

/// The label printed for a section's page in the table of contents.
pub fn toc_page_label(page: Option<usize>) -> (r: String)
    ensures
        r@ == page_label(page),
{
    match page {
        Some(n) => decimal_string(n),
        None => {
            proof {
                reveal_strlit("--");
            }
            "--".to_owned()
        },
    }
}

// ---------------------------------------------------------------------------------------------
// The document configuration.
// ---------------------------------------------------------------------------------------------

pub struct PdfBuilderModel {
    pub paper_size: Option<PaperSize>,
    pub margins: Option<Margins>,
    pub show_header: bool,
    pub show_footer: bool,
    pub enable_hyphenation: bool,
    pub cover: Option<CoverModel>,
    pub sections: Seq<SectionModel>,
    pub include_toc: bool,
    pub toc_title: Option<Seq<char>>,
    pub default_alignment: HorizontalAlignment,
    pub render_section_headings: bool,
    pub collect_section_pages: bool,
}

/// Everything a document is made of and how it is to be rendered.
#[derive(Debug)]
pub struct PdfBuilder {
    paper_size: Option<PaperSize>,
    margins: Option<Margins>,
    show_header: bool,
    show_footer: bool,
    enable_hyphenation: bool,
    cover: Option<Cover>,
    sections: Vec<Section>,
    include_toc: bool,
    toc_title: Option<String>,
    default_alignment: HorizontalAlignment,
    render_section_headings: bool,
    collect_section_pages: bool,
}

pub open spec fn cover_model(c: Option<Cover>) -> Option<CoverModel> {
    match c {
        Some(c) => Some(c@),
        None => None,
    }
}

pub open spec fn opt_chars(o: Option<String>) -> Option<Seq<char>> {
    match o {
        Some(t) => Some(t@),
        None => None,
    }
}

impl View for PdfBuilder {
    type V = PdfBuilderModel;

    closed spec fn view(&self) -> PdfBuilderModel {
        PdfBuilderModel {
            paper_size: self.paper_size,
            margins: self.margins,
            show_header: self.show_header,
            show_footer: self.show_footer,
            enable_hyphenation: self.enable_hyphenation,
            cover: cover_model(self.cover),
            sections: sections_model(self.sections@),
            include_toc: self.include_toc,
            toc_title: opt_chars(self.toc_title),
            default_alignment: self.default_alignment,
            render_section_headings: self.render_section_headings,
            collect_section_pages: self.collect_section_pages,
        }
    }
}

pub open spec fn default_builder() -> PdfBuilderModel {
    PdfBuilderModel {
        paper_size: None,
        margins: None,
        show_header: false,
        show_footer: false,
        enable_hyphenation: false,
        cover: None,
        sections: Seq::empty(),
        include_toc: false,
        toc_title: None,
        default_alignment: HorizontalAlignment::Left,
        render_section_headings: true,
        collect_section_pages: false,
    }
}

/// The layout engine's alignment for a requested one: justified text is laid out left.
pub open spec fn engine_alignment(a: HorizontalAlignment) -> Alignment {
    match a {
        HorizontalAlignment::Left | HorizontalAlignment::Justified => Alignment::Left,
        HorizontalAlignment::Center => Alignment::Center,
        HorizontalAlignment::Right => Alignment::Right,
    }
}

/// The heading of the table of contents.
pub open spec fn toc_heading(m: PdfBuilderModel) -> Seq<char> {
    match m.toc_title {
        Some(t) => t,
        None => "Table of Contents"@,
    }
}

impl Default for PdfBuilder {
    fn default() -> (r: PdfBuilder)
        ensures
            r@ == default_builder(),
    {
        let r = PdfBuilder {
            paper_size: None,
            margins: None,
            show_header: false,
            show_footer: false,
            enable_hyphenation: false,
            cover: None,
            sections: Vec::new(),
            include_toc: false,
            toc_title: None,
            default_alignment: HorizontalAlignment::Left,
            render_section_headings: true,
            collect_section_pages: false,
        };
        assert(sections_model(r.sections@) =~= Seq::empty());
        r
    }
}

impl PdfBuilder {
    /// A builder with no content: no header, footer, cover or table of contents, left
    /// alignment, and section headings rendered.
    pub fn new() -> (r: PdfBuilder)
        ensures
            r@ == default_builder(),
    {
        PdfBuilder::default()
    }

    /// Overrides the paper size.
    pub fn with_paper_size(self, paper_size: PaperSize) -> (r: PdfBuilder)
        ensures
            r@ == (PdfBuilderModel { paper_size: Some(paper_size), ..self@ }),
    {
        PdfBuilder { paper_size: Some(paper_size), ..self }
    }

    /// Overrides the page margins.
    pub fn with_margins(self, margins: Margins) -> (r: PdfBuilder)
        ensures
            r@ == (PdfBuilderModel { margins: Some(margins), ..self@ }),
    {
        PdfBuilder { margins: Some(margins), ..self }
    }

    /// Controls whether the cover title is printed as a header on every page.
    pub fn show_header(self, show: bool) -> (r: PdfBuilder)
        ensures
            r@ == (PdfBuilderModel { show_header: show, ..self@ }),
    {
        PdfBuilder { show_header: show, ..self }
    }

    /// Controls whether a footer with the page number is printed.
    pub fn show_footer(self, show: bool) -> (r: PdfBuilder)
        ensures
            r@ == (PdfBuilderModel { show_footer: show, ..self@ }),
    {
        PdfBuilder { show_footer: show, ..self }
    }

    /// Requests hyphenation.
    pub fn enable_hyphenation(self, enable: bool) -> (r: PdfBuilder)
        ensures
            r@ == (PdfBuilderModel { enable_hyphenation: enable, ..self@ }),
    {
        PdfBuilder { enable_hyphenation: enable, ..self }
    }

    /// Sets the cover, rendered before everything else.
    pub fn with_cover(self, cover: Option<Cover>) -> (r: PdfBuilder)
        ensures
            r@ == (PdfBuilderModel { cover: cover_model(cover), ..self@ }),
    {
        PdfBuilder { cover, ..self }
    }

    /// Appends a section.
    pub fn add_section(self, section: Section) -> (r: PdfBuilder)
        ensures
            r@ == (PdfBuilderModel { sections: self@.sections.push(section@), ..self@ }),
    {
        let mut sections = self.sections;
        let ghost before = sections@;
        sections.push(section);
        assert(sections_model(sections@) =~= sections_model(before).push(section@));
        PdfBuilder { sections, ..self }
    }

    /// Replaces the sections.
    pub fn with_sections(self, sections: Vec<Section>) -> (r: PdfBuilder)
        ensures
            r@ == (PdfBuilderModel { sections: sections_model(sections@), ..self@ }),
    {
        PdfBuilder { sections, ..self }
    }

    /// Requests a printed table of contents before the sections.
    pub fn include_printed_toc(self, wanted: bool) -> (r: PdfBuilder)
        ensures
            r@ == (PdfBuilderModel { include_toc: wanted, ..self@ }),
    {
        PdfBuilder { include_toc: wanted, ..self }
    }

    /// Sets the heading of the table of contents.
    pub fn with_toc_title(self, title: Option<String>) -> (r: PdfBuilder)
        ensures
            r@ == (PdfBuilderModel { toc_title: opt_chars(title), ..self@ }),
    {
        PdfBuilder { toc_title: title, ..self }
    }

    /// Sets the alignment that left-aligned paragraphs, images and headings take.
    pub fn with_default_alignment(self, alignment: HorizontalAlignment) -> (r: PdfBuilder)
        ensures
            r@ == (PdfBuilderModel { default_alignment: alignment, ..self@ }),
    {
        PdfBuilder { default_alignment: alignment, ..self }
    }

    /// Controls whether each section's title is rendered as its heading.
    pub fn render_section_headings(self, enabled: bool) -> (r: PdfBuilder)
        ensures
            r@ == (PdfBuilderModel { render_section_headings: enabled, ..self@ }),
    {
        PdfBuilder { render_section_headings: enabled, ..self }
    }

    /// Controls whether section start pages are recorded during the final pass.
    pub fn collect_section_pages(self, collect: bool) -> (r: PdfBuilder)
        ensures
            r@ == (PdfBuilderModel { collect_section_pages: collect, ..self@ }),
    {
        PdfBuilder { collect_section_pages: collect, ..self }
    }

    /// The paper size, if one was set.
    pub fn paper_size(&self) -> (r: Option<PaperSize>)
        ensures
            r == self@.paper_size,
    {
        self.paper_size
    }

    /// The page margins, if they were set.
    pub fn margins(&self) -> (r: Option<Margins>)
        ensures
            r == self@.margins,
    {
        self.margins
    }

    /// Whether a header is printed.
    pub fn header_shown(&self) -> (r: bool)
        ensures
            r == self@.show_header,
    {
        self.show_header
    }

    /// Whether a footer is printed.
    pub fn footer_shown(&self) -> (r: bool)
        ensures
            r == self@.show_footer,
    {
        self.show_footer
    }

    /// Whether hyphenation was requested.
    pub fn hyphenation_requested(&self) -> (r: bool)
        ensures
            r == self@.enable_hyphenation,
    {
        self.enable_hyphenation
    }

    /// The cover, if any.
    pub fn cover(&self) -> (r: Option<&Cover>)
        ensures
            match r {
                Some(c) => self@.cover == Some(c@),
                None => self@.cover is None,
            },
    {
        match &self.cover {
            Some(c) => Some(c),
            None => None,
        }
    }

    /// The sections, in document order.
    pub fn sections(&self) -> (r: &[Section])
        ensures
            sections_model(r@) == self@.sections,
    {
        self.sections.as_slice()
    }

    /// The text printed as the header of every page: the cover's title when a header is
    /// shown and there is a cover.
    pub fn page_header(&self) -> (r: Option<&str>)
        ensures
            match r {
                Some(t) => self@.show_header && self@.cover is Some && t@ == self@.cover->0.title,
                None => !self@.show_header || self@.cover is None,
            },
    {
        if !self.show_header {
            return None;
        }
        match &self.cover {
            Some(c) => Some(c.title()),
            None => None,
        }
    }

    /// The heading of the table of contents: the title set, or "Table of Contents".
    pub fn toc_title(&self) -> (r: &str)
        ensures
            r@ == toc_heading(self@),
    {
        match &self.toc_title {
            Some(t) => t.as_str(),
            None => {
                proof {
                    reveal_strlit("Table of Contents");
                }
                "Table of Contents"
            },
        }
    }

    /// The layout engine's alignment for content that asks for `requested`: left takes the
    /// document's default alignment.
    pub fn resolve_alignment(&self, requested: HorizontalAlignment) -> (r: Alignment)
        ensures
            r == engine_alignment(
                match requested {
                    HorizontalAlignment::Left => self@.default_alignment,
                    other => other,
                },
            ),
    {
        map_alignment(
            match requested {
                HorizontalAlignment::Left => self.default_alignment,
                other => other,
            },
        )
    }
}

fn map_alignment(alignment: HorizontalAlignment) -> (r: Alignment)
    ensures
        r == engine_alignment(alignment),
{
    match alignment {
        HorizontalAlignment::Left | HorizontalAlignment::Justified => Alignment::Left,
        HorizontalAlignment::Center => Alignment::Center,
        HorizontalAlignment::Right => Alignment::Right,
    }
}

// ---------------------------------------------------------------------------------------------
// Passes.
// ---------------------------------------------------------------------------------------------

/// A table of contents is printed: it was requested and there is a section to list.
pub open spec fn needs_toc(m: PdfBuilderModel) -> bool {
    m.include_toc && m.sections.len() > 0
}

/// Section start pages are recorded in the final pass.
pub open spec fn tracks_final(m: PdfBuilderModel) -> bool {
    needs_toc(m) || (m.collect_section_pages && m.sections.len() > 0)
}

/// What a layout pass is handed.
#[derive(Debug)]
pub struct PassRequest {
    /// Whether section markers record start pages during the pass.
    pub track_sections: bool,
    /// The page of each section for the table of contents; `None` prints every entry with
    /// the placeholder, which takes the same room as a number of one or two digits.
    pub toc_pages: Option<Vec<Option<usize>>>,
}

/// What a layout pass produced, as the caller sees it.
#[derive(Debug)]
pub struct PdfRenderResult {
    /// Bytes containing the rendered document.
    pub bytes: Vec<u8>,
    /// Recorded start page (1-indexed) for each section, in section order.
    pub section_start_pages: Vec<Option<usize>>,
}

pub struct SessionModel {
    pub section_count: usize,
    pub track_final: bool,
    pub discovering: bool,
}

/// The state of one render between its passes.
///
/// With a table of contents, a discovery pass lays the document out with placeholder page
/// numbers and records where each section starts; the final pass prints those numbers.
/// Without one, the final pass is the only pass.
#[derive(Debug)]
pub struct RenderSession {
    section_count: usize,
    track_final: bool,
    discovering: bool,
}

impl View for RenderSession {
    type V = SessionModel;

    closed spec fn view(&self) -> SessionModel {
        SessionModel {
            section_count: self.section_count,
            track_final: self.track_final,
            discovering: self.discovering,
        }
    }
}

/// What to do after a pass.
#[derive(Debug)]
pub enum RenderStep {
    /// Run another pass, then report it to the session.
    Layout(RenderSession, PassRequest),
    /// The render is complete.
    Finished(PdfRenderResult),
}

impl PdfBuilder {
    /// Starts a render: the session and the first pass to run.
    pub fn begin_render(&self) -> (r: (RenderSession, PassRequest))
        ensures
            r.0@ == (SessionModel {
                section_count: self@.sections.len() as usize,
                track_final: tracks_final(self@),
                discovering: needs_toc(self@),
            }),
            r.1.track_sections == tracks_final(self@),
            r.1.toc_pages is None,
            self@.sections.len() <= usize::MAX,
    {
        let n = self.sections.len();
        let need_toc = self.include_toc && n > 0;
        let track_final = need_toc || (self.collect_section_pages && n > 0);
        (
            RenderSession { section_count: n, track_final, discovering: need_toc },
            PassRequest { track_sections: track_final, toc_pages: None },
        )
    }
}

impl RenderSession {
    /// A pass has produced `bytes` and recorded `pages`.
    ///
    /// After the discovery pass the final pass is run with the recorded pages in the table
    /// of contents; its bytes and pages are discarded.  After the final pass the render
    /// finishes with its bytes, and with its recorded pages if it tracked sections (else
    /// with no page for any section).
    pub fn pass_finished(self, bytes: Vec<u8>, pages: Vec<Option<usize>>) -> (r: RenderStep)
        requires
            pages@.len() == self@.section_count,
        ensures
            self@.discovering ==> match r {
                RenderStep::Layout(next, req) => next@ == (SessionModel { discovering: false, ..self@ })
                    && req.track_sections && req.toc_pages == Some(pages),
                RenderStep::Finished(_) => false,
            },
            !self@.discovering ==> match r {
                RenderStep::Finished(res) => res.bytes@ == bytes@ && res.section_start_pages@.len() == self@.section_count
                    && res.section_start_pages@ == if self@.track_final {
                    pages@
                } else {
                    no_pages(self@.section_count as nat)
                },
                RenderStep::Layout(_, _) => false,
            },
    {
        if self.discovering {
            RenderStep::Layout(
                RenderSession { discovering: false, ..self },
                PassRequest { track_sections: true, toc_pages: Some(pages) },
            )
        } else if self.track_final {
            RenderStep::Finished(PdfRenderResult { bytes, section_start_pages: pages })
        } else {
            RenderStep::Finished(PdfRenderResult { bytes, section_start_pages: empty_pages(self.section_count) })
        }
    }
}

// ---------------------------------------------------------------------------------------------
// What a pass lays out.
// ---------------------------------------------------------------------------------------------

/// One element of the content stream of a pass, in the order the layout engine receives it.
#[derive(Debug)]
pub enum LayoutItem {
    /// The cover's title.
    CoverTitle(String),
    /// The cover's subtitle.
    CoverSubtitle(String),
    /// The cover's identifier.
    CoverIdentifier(String),
    /// The cover's block of this index.
    CoverBlock(usize),
    /// A forced page break.
    PageBreak,
    /// The heading of the table of contents.
    TocTitle(String),
    /// A row of the table of contents: a section's title and its page label.
    TocRow(String, String),
    /// The zero-size marker that records the start page of the section of this index.
    SectionMarker(usize),
    /// A section's title, rendered as its heading.
    SectionHeading(String),
    /// The block of the given index of the section of the given index.
    SectionBlock(usize, usize),
}

pub enum ItemModel {
    CoverTitle(Seq<char>),
    CoverSubtitle(Seq<char>),
    CoverIdentifier(Seq<char>),
    CoverBlock(int),
    PageBreak,
    TocTitle(Seq<char>),
    TocRow(Seq<char>, Seq<char>),
    SectionMarker(int),
    SectionHeading(Seq<char>),
    SectionBlock(int, int),
}

impl View for LayoutItem {
    type V = ItemModel;

    open spec fn view(&self) -> ItemModel {
        match self {
            LayoutItem::CoverTitle(t) => ItemModel::CoverTitle(t@),
            LayoutItem::CoverSubtitle(t) => ItemModel::CoverSubtitle(t@),
            LayoutItem::CoverIdentifier(t) => ItemModel::CoverIdentifier(t@),
            LayoutItem::CoverBlock(j) => ItemModel::CoverBlock(*j as int),
            LayoutItem::PageBreak => ItemModel::PageBreak,
            LayoutItem::TocTitle(t) => ItemModel::TocTitle(t@),
            LayoutItem::TocRow(t, p) => ItemModel::TocRow(t@, p@),
            LayoutItem::SectionMarker(i) => ItemModel::SectionMarker(*i as int),
            LayoutItem::SectionHeading(t) => ItemModel::SectionHeading(t@),
            LayoutItem::SectionBlock(i, j) => ItemModel::SectionBlock(*i as int, *j as int),
        }
    }
}

pub open spec fn items_model(items: Seq<LayoutItem>) -> Seq<ItemModel> {
    items.map_values(|it: LayoutItem| it@)
}

pub open spec fn opt_item(o: Option<Seq<char>>, f: spec_fn(Seq<char>) -> ItemModel) -> Seq<ItemModel> {
    match o {
        Some(t) => seq![f(t)],
        None => Seq::empty(),
    }
}

/// The cover: title, subtitle and identifier where present, then its blocks.
pub open spec fn cover_items(c: CoverModel) -> Seq<ItemModel> {
    seq![ItemModel::CoverTitle(c.title)]
        + opt_item(c.subtitle, |t: Seq<char>| ItemModel::CoverSubtitle(t))
        + opt_item(c.identifier, |t: Seq<char>| ItemModel::CoverIdentifier(t))
        + Seq::new(c.blocks.len(), |j: int| ItemModel::CoverBlock(j))
}

/// The page printed for section `i`, from the pages handed to the pass.
pub open spec fn toc_page(toc: Option<Seq<Option<usize>>>, i: int) -> Option<usize> {
    match toc {
        Some(p) => if 0 <= i < p.len() { p[i] } else { None },
        None => None,
    }
}

/// The table of contents: its heading, one row per section, and a page break.
pub open spec fn toc_items(m: PdfBuilderModel, toc: Option<Seq<Option<usize>>>) -> Seq<ItemModel> {
    seq![ItemModel::TocTitle(toc_heading(m))]
        + Seq::new(m.sections.len(), |i: int| ItemModel::TocRow(m.sections[i].title, page_label(toc_page(toc, i))))
        + seq![ItemModel::PageBreak]
}

/// Section `i`: its marker when tracking, its heading unless suppressed, then its blocks.
pub open spec fn section_items(m: PdfBuilderModel, i: int, track: bool) -> Seq<ItemModel> {
    (if track { seq![ItemModel::SectionMarker(i)] } else { Seq::empty() })
        + (if m.render_section_headings { seq![ItemModel::SectionHeading(m.sections[i].title)] } else { Seq::empty() })
        + Seq::new(m.sections[i].blocks.len(), |j: int| ItemModel::SectionBlock(i, j))
}

/// The first `k` sections, in order.
pub open spec fn sections_items(m: PdfBuilderModel, k: int, track: bool) -> Seq<ItemModel>
    decreases k,
{
    if k <= 0 {
        Seq::empty()
    } else {
        sections_items(m, k - 1, track) + section_items(m, k - 1, track)
    }
}

/// The cover part: the cover, then a page break when a table of contents or a section
/// follows; a table of contents is only printed when there are sections.
pub open spec fn cover_part(m: PdfBuilderModel) -> Seq<ItemModel> {
    match m.cover {
        Some(c) => cover_items(c) + if m.sections.len() > 0 {
            seq![ItemModel::PageBreak]
        } else {
            Seq::empty()
        },
        None => Seq::empty(),
    }
}

/// Everything a pass lays out: the cover part, the table of contents when one is printed,
/// then every section in order.
pub open spec fn pass_items(m: PdfBuilderModel, track: bool, toc: Option<Seq<Option<usize>>>) -> Seq<ItemModel> {
    cover_part(m)
        + (if needs_toc(m) { toc_items(m, toc) } else { Seq::empty() })
        + sections_items(m, m.sections.len() as int, track)
}

pub open spec fn pages_view(p: Option<Vec<Option<usize>>>) -> Option<Seq<Option<usize>>> {
    match p {
        Some(v) => Some(v@),
        None => None,
    }
}

fn push_item(items: &mut Vec<LayoutItem>, item: LayoutItem)
    ensures
        items_model(final(items)@) == items_model(old(items)@).push(item@),
{
    let ghost before = items@;
    items.push(item);
    assert(items_model(items@) =~= items_model(before).push(item@));
}

impl PdfBuilder {
    fn push_cover(&self, cover: &Cover, items: &mut Vec<LayoutItem>)
        ensures
            items_model(final(items)@) == items_model(old(items)@) + cover_items(cover@),
    {
        let ghost start = items_model(items@);
        push_item(items, LayoutItem::CoverTitle(cover.title().to_owned()));
        if let Some(t) = cover.subtitle() {
            push_item(items, LayoutItem::CoverSubtitle(t.to_owned()));
        }
        if let Some(t) = cover.identifier() {
            push_item(items, LayoutItem::CoverIdentifier(t.to_owned()));
        }
        let ghost head = items_model(items@);
        assert(head =~= start + seq![ItemModel::CoverTitle(cover@.title)]
            + opt_item(cover@.subtitle, |t: Seq<char>| ItemModel::CoverSubtitle(t))
            + opt_item(cover@.identifier, |t: Seq<char>| ItemModel::CoverIdentifier(t)));
        let n = cover.blocks().len();
        let mut j: usize = 0;
        while j < n
            invariant
                j <= n,
                n == cover@.blocks.len(),
                items_model(items@) =~= head + Seq::new(j as nat, |k: int| ItemModel::CoverBlock(k)),
            decreases n - j,
        {
            push_item(items, LayoutItem::CoverBlock(j));
            j = j + 1;
        }
        assert(items_model(items@) =~= start + cover_items(cover@));
    }

    fn push_toc(&self, toc_pages: &Option<Vec<Option<usize>>>, items: &mut Vec<LayoutItem>)
        ensures
            items_model(final(items)@) == items_model(old(items)@) + toc_items(self@, pages_view(*toc_pages)),
    {
        let ghost start = items_model(items@);
        let ghost toc = pages_view(*toc_pages);
        push_item(items, LayoutItem::TocTitle(self.toc_title().to_owned()));
        let n = self.sections.len();
        let mut i: usize = 0;
        while i < n
            invariant
                i <= n,
                n == self@.sections.len(),
                toc == pages_view(*toc_pages),
                items_model(items@) =~= start + seq![ItemModel::TocTitle(toc_heading(self@))] + Seq::new(
                    i as nat,
                    |k: int| ItemModel::TocRow(self@.sections[k].title, page_label(toc_page(toc, k))),
                ),
            decreases n - i,
        {
            let page = match toc_pages {
                Some(p) => if i < p.len() {
                    p[i]
                } else {
                    None
                },
                None => None,
            };
            assert(self@.sections[i as int] == self.sections@[i as int]@);
            let title = self.sections[i].title().to_owned();
            push_item(items, LayoutItem::TocRow(title, toc_page_label(page)));
            i = i + 1;
        }
        push_item(items, LayoutItem::PageBreak);
        assert(items_model(items@) =~= start + toc_items(self@, toc));
    }

    fn push_section(&self, i: usize, track: bool, items: &mut Vec<LayoutItem>)
        requires
            i < self@.sections.len(),
        ensures
            items_model(final(items)@) == items_model(old(items)@) + section_items(self@, i as int, track),
    {
        let ghost start = items_model(items@);
        assert(self@.sections[i as int] == self.sections@[i as int]@);
        let section = &self.sections[i];
        if track {
            push_item(items, LayoutItem::SectionMarker(i));
        }
        if self.render_section_headings {
            push_item(items, LayoutItem::SectionHeading(section.title().to_owned()));
        }
        let ghost head = items_model(items@);
        assert(head =~= start + (if track { seq![ItemModel::SectionMarker(i as int)] } else { Seq::empty() })
            + (if self@.render_section_headings { seq![ItemModel::SectionHeading(self@.sections[i as int].title)] } else { Seq::empty() }));
        let n = section.blocks().len();
        let mut j: usize = 0;
        while j < n
            invariant
                j <= n,
                n == self@.sections[i as int].blocks.len(),
                items_model(items@) =~= head + Seq::new(j as nat, |k: int| ItemModel::SectionBlock(i as int, k)),
            decreases n - j,
        {
            push_item(items, LayoutItem::SectionBlock(i, j));
            j = j + 1;
        }
        assert(items_model(items@) =~= start + section_items(self@, i as int, track));
    }

    /// The content stream of a pass, in order: the cover (if any) and a page break when a
    /// table of contents or a section follows; the table of contents when one is printed;
    /// then each section with its marker when the pass tracks sections, its heading unless
    /// suppressed, and its blocks.
    pub fn layout_items(&self, request: &PassRequest) -> (r: Vec<LayoutItem>)
        ensures
            items_model(r@) == pass_items(self@, request.track_sections, pages_view(request.toc_pages)),
    {
        let mut items: Vec<LayoutItem> = Vec::new();
        assert(items_model(items@) =~= Seq::empty());
        let n = self.sections.len();
        if let Some(cover) = &self.cover {
            self.push_cover(cover, &mut items);
            if n > 0 {
                push_item(&mut items, LayoutItem::PageBreak);
            }
        }
        assert(items_model(items@) =~= cover_part(self@));
        if self.include_toc && n > 0 {
            self.push_toc(&request.toc_pages, &mut items);
        }
        let ghost head = items_model(items@);
        assert(head =~= cover_part(self@) + (if needs_toc(self@) {
            toc_items(self@, pages_view(request.toc_pages))
        } else {
            Seq::empty()
        }));
        let mut i: usize = 0;
        assert(head + sections_items(self@, 0, request.track_sections) =~= head);
        while i < n
            invariant
                i <= n,
                n == self@.sections.len(),
                items_model(items@) =~= head + sections_items(self@, i as int, request.track_sections),
            decreases n - i,
        {
            self.push_section(i, request.track_sections, &mut items);
            i = i + 1;
        }
        items
    }
}

// ---------------------------------------------------------------------------------------------
// Page tracking over a pass.
// ---------------------------------------------------------------------------------------------

/// What a tracker is told during a pass.
pub enum TrackerEvent {
    /// The layout engine started the page of this number.
    PageStarted(usize),
    /// The marker of the section of this index fired.
    SectionStarted(usize),
}

pub open spec fn apply_event(t: TrackerModel, e: TrackerEvent) -> TrackerModel {
    match e {
        TrackerEvent::PageStarted(p) => TrackerModel { current_page: p, ..t },
        TrackerEvent::SectionStarted(i) => mark(t, i as int),
    }
}

/// The tracker after the events, in order.
pub open spec fn replay(t: TrackerModel, events: Seq<TrackerEvent>) -> TrackerModel
    decreases events.len(),
{
    if events.len() == 0 {
        t
    } else {
        apply_event(replay(t, events.drop_last()), events.last())
    }
}

/// Pages are started in increasing order, none before `first`.
pub open spec fn pages_advance(events: Seq<TrackerEvent>, first: usize) -> bool {
    &&& forall|p: int| 0 <= p < events.len() ==> (#[trigger] events[p] matches TrackerEvent::PageStarted(a) ==> first <= a)
    &&& forall|p: int, q: int| 0 <= p < q < events.len() ==> (#[trigger] events[p] matches TrackerEvent::PageStarted(a)
        ==> (#[trigger] events[q] matches TrackerEvent::PageStarted(b) ==> a <= b))
}

/// Section markers fire in section order.
pub open spec fn sections_advance(events: Seq<TrackerEvent>) -> bool {
    forall|p: int, q: int| 0 <= p < q < events.len() ==> (#[trigger] events[p] matches TrackerEvent::SectionStarted(i)
        ==> (#[trigger] events[q] matches TrackerEvent::SectionStarted(j) ==> i < j))
}

pub open spec fn recorded_in_order(pages: Seq<Option<usize>>) -> bool {
    forall|i: int, j: int| 0 <= i < j < pages.len() && #[trigger] pages[i] is Some && #[trigger] pages[j] is Some
        ==> pages[i]->0 <= pages[j]->0
}

pub open spec fn recorded_between(pages: Seq<Option<usize>>, low: usize, high: usize) -> bool {
    forall|k: int| 0 <= k < pages.len() && #[trigger] pages[k] is Some ==> low <= pages[k]->0 <= high
}

proof fn lemma_replay_invariant(t0: TrackerModel, events: Seq<TrackerEvent>)
    requires
        t0.section_pages.len() <= usize::MAX,
        forall|k: int| 0 <= k < t0.section_pages.len() ==> #[trigger] t0.section_pages[k] is None,
        pages_advance(events, t0.current_page),
        sections_advance(events),
    ensures
        ({
            let t = replay(t0, events);
            &&& t.section_pages.len() == t0.section_pages.len()
            &&& t.current_page >= t0.current_page
            &&& (t.current_page == t0.current_page || exists|p: int| 0 <= p < events.len()
                && #[trigger] events[p] == TrackerEvent::PageStarted(t.current_page))
            &&& recorded_between(t.section_pages, t0.current_page, t.current_page)
            &&& forall|k: int| 0 <= k < t.section_pages.len() && #[trigger] t.section_pages[k] is Some
                ==> exists|p: int| 0 <= p < events.len() && #[trigger] events[p] == TrackerEvent::SectionStarted(k as usize)
            &&& recorded_in_order(t.section_pages)
        }),
    decreases events.len(),
{
    if events.len() > 0 {
        let prefix = events.drop_last();
        let m = events.len() - 1;
        assert forall|p: int| 0 <= p < prefix.len() implies #[trigger] prefix[p] == events[p] by {}
        assert(pages_advance(prefix, t0.current_page)) by {
            assert forall|p: int, q: int| 0 <= p < q < prefix.len() implies (#[trigger] prefix[p] matches TrackerEvent::PageStarted(a)
                ==> (#[trigger] prefix[q] matches TrackerEvent::PageStarted(b) ==> a <= b)) by {
                assert(prefix[p] == events[p] && prefix[q] == events[q]);
            }
            assert forall|p: int| 0 <= p < prefix.len() implies (#[trigger] prefix[p] matches TrackerEvent::PageStarted(a) ==> t0.current_page <= a) by {
                assert(prefix[p] == events[p]);
            }
        }
        assert(sections_advance(prefix)) by {
            assert forall|p: int, q: int| 0 <= p < q < prefix.len() implies (#[trigger] prefix[p] matches TrackerEvent::SectionStarted(i)
                ==> (#[trigger] prefix[q] matches TrackerEvent::SectionStarted(j) ==> i < j)) by {
                assert(prefix[p] == events[p] && prefix[q] == events[q]);
            }
        }
        lemma_replay_invariant(t0, prefix);
        let t = replay(t0, prefix);
        let e = events[m];
        assert(events.last() == e);
        let u = replay(t0, events);
        assert(u == apply_event(t, e));
        match e {
            TrackerEvent::PageStarted(a) => {
                assert(t0.current_page <= a);
                if t.current_page != t0.current_page {
                    let p = choose|p: int| 0 <= p < prefix.len() && #[trigger] prefix[p] == TrackerEvent::PageStarted(t.current_page);
                    assert(events[p] == prefix[p]);
                }
                assert(t.current_page <= a);
                assert(events[m] == TrackerEvent::PageStarted(u.current_page));
                assert forall|k: int| 0 <= k < u.section_pages.len() && #[trigger] u.section_pages[k] is Some
                    implies exists|p: int| 0 <= p < events.len() && #[trigger] events[p] == TrackerEvent::SectionStarted(k as usize) by {
                    let p = choose|p: int| 0 <= p < prefix.len() && #[trigger] prefix[p] == TrackerEvent::SectionStarted(k as usize);
                    assert(events[p] == prefix[p]);
                }
            },
            TrackerEvent::SectionStarted(j) => {
                if t.current_page != t0.current_page {
                    let p = choose|p: int| 0 <= p < prefix.len() && #[trigger] prefix[p] == TrackerEvent::PageStarted(t.current_page);
                    assert(events[p] == prefix[p]);
                }
                assert forall|k: int| 0 <= k < u.section_pages.len() && #[trigger] u.section_pages[k] is Some
                    implies exists|p: int| 0 <= p < events.len() && #[trigger] events[p] == TrackerEvent::SectionStarted(k as usize) by {
                    if k == j as int && t.section_pages[k] is None {
                        assert(events[m] == TrackerEvent::SectionStarted(k as usize));
                    } else {
                        let p = choose|p: int| 0 <= p < prefix.len() && #[trigger] prefix[p] == TrackerEvent::SectionStarted(k as usize);
                        assert(events[p] == prefix[p]);
                    }
                }
                if 0 <= j < t.section_pages.len() && t.section_pages[j as int] is None {
                    assert forall|i: int, k: int| 0 <= i < k < u.section_pages.len() && #[trigger] u.section_pages[i] is Some
                        && #[trigger] u.section_pages[k] is Some implies u.section_pages[i]->0 <= u.section_pages[k]->0 by {
                        if k == j as int {
                            assert(u.section_pages[i] == t.section_pages[i]);
                            assert(t.section_pages[i] is Some);
                            assert(t.section_pages[i]->0 <= t.current_page);
                            assert(u.section_pages[k] == Some(t.current_page));
                        } else if i == j as int {
                            assert(t.section_pages[k] is Some);
                            let p = choose|p: int| 0 <= p < prefix.len() && #[trigger] prefix[p] == TrackerEvent::SectionStarted(k as usize);
                            assert(events[p] == prefix[p]);
                            assert(p < m);
                            assert(events[p] == TrackerEvent::SectionStarted(k as usize));
                            assert(events[m] == TrackerEvent::SectionStarted(j));
                            assert((k as usize) < j);
                        } else {
                            assert(u.section_pages[i] == t.section_pages[i]);
                            assert(u.section_pages[k] == t.section_pages[k]);
                            assert(t.section_pages[i] is Some && t.section_pages[k] is Some);
                        }
                    }
                }
            },
        }
    }
}

/// During a pass whose pages are started in increasing order from `t0`'s current page (the
/// page on which the table of contents is laid out) and whose section markers fire in
/// section order, the start pages recorded for the sections never decrease in document
/// order, and none is below that first page.
pub proof fn lemma_recorded_pages_follow_document_order(t0: TrackerModel, events: Seq<TrackerEvent>)
    requires
        t0.section_pages.len() <= usize::MAX,
        forall|k: int| 0 <= k < t0.section_pages.len() ==> #[trigger] t0.section_pages[k] is None,
        pages_advance(events, t0.current_page),
        sections_advance(events),
    ensures
        recorded_in_order(replay(t0, events).section_pages),
        forall|k: int| 0 <= k < replay(t0, events).section_pages.len()
            && #[trigger] replay(t0, events).section_pages[k] is Some
            ==> t0.current_page <= replay(t0, events).section_pages[k]->0,
{
    lemma_replay_invariant(t0, events);
}

/// The section markers of `items` come in increasing section order.
pub open spec fn markers_ordered(items: Seq<ItemModel>) -> bool {
    forall|p: int, q: int| 0 <= p < q < items.len() ==> (#[trigger] items[p] matches ItemModel::SectionMarker(i)
        ==> (#[trigger] items[q] matches ItemModel::SectionMarker(j) ==> i < j))
}

pub open spec fn markers_below(items: Seq<ItemModel>, k: int) -> bool {
    forall|p: int| 0 <= p < items.len() ==> (#[trigger] items[p] matches ItemModel::SectionMarker(i) ==> i < k)
}

pub open spec fn no_markers(items: Seq<ItemModel>) -> bool {
    forall|p: int| 0 <= p < items.len() ==> !(#[trigger] items[p] is SectionMarker)
}

proof fn lemma_sections_markers(m: PdfBuilderModel, k: int, track: bool)
    requires
        0 <= k <= m.sections.len(),
    ensures
        markers_ordered(sections_items(m, k, track)),
        markers_below(sections_items(m, k, track), k),
    decreases k,
{
    if k > 0 {
        lemma_sections_markers(m, k - 1, track);
        let a = sections_items(m, k - 1, track);
        let b = section_items(m, k - 1, track);
        let all = sections_items(m, k, track);
        assert(all == a + b);
        assert forall|p: int| 0 <= p < b.len() && #[trigger] b[p] is SectionMarker implies p == 0 && b[p] == ItemModel::SectionMarker(k - 1) by {
            let head = if track { seq![ItemModel::SectionMarker(k - 1)] } else { Seq::<ItemModel>::empty() };
            let mid = if m.render_section_headings { seq![ItemModel::SectionHeading(m.sections[k - 1].title)] } else { Seq::<ItemModel>::empty() };
            let tail = Seq::new(m.sections[k - 1].blocks.len(), |j: int| ItemModel::SectionBlock(k - 1, j));
            assert(b == head + mid + tail);
            if p >= head.len() + mid.len() {
                assert(b[p] == tail[p - head.len() - mid.len()]);
            } else if p >= head.len() {
                assert(b[p] == mid[p - head.len()]);
            }
        }
        assert forall|p: int| 0 <= p < all.len() implies (#[trigger] all[p] matches ItemModel::SectionMarker(i) ==> i < k) by {
            if p < a.len() {
                assert(all[p] == a[p]);
            } else {
                assert(all[p] == b[p - a.len()]);
            }
        }
        assert forall|p: int, q: int| 0 <= p < q < all.len() implies (#[trigger] all[p] matches ItemModel::SectionMarker(i)
            ==> (#[trigger] all[q] matches ItemModel::SectionMarker(j) ==> i < j)) by {
            if all[p] is SectionMarker && all[q] is SectionMarker {
                if q < a.len() {
                    assert(all[p] == a[p] && all[q] == a[q]);
                } else if p < a.len() {
                    assert(all[p] == a[p]);
                    assert(all[q] == b[q - a.len()]);
                } else {
                    assert(all[p] == b[p - a.len()] && all[q] == b[q - a.len()]);
                }
            }
        }
    }
}

/// The section markers of every pass come in section order, so a tracker fed by a pass
/// sees its sections start in document order.
pub proof fn lemma_pass_markers_in_section_order(m: PdfBuilderModel, track: bool, toc: Option<Seq<Option<usize>>>)
    ensures
        markers_ordered(pass_items(m, track, toc)),
{
    let n = m.sections.len() as int;
    lemma_sections_markers(m, n, track);
    let c = cover_part(m);
    let t = if needs_toc(m) { toc_items(m, toc) } else { Seq::<ItemModel>::empty() };
    let s = sections_items(m, n, track);
    let head = c + t;
    assert(no_markers(c)) by {
        if let Some(cv) = m.cover {
            let title = seq![ItemModel::CoverTitle(cv.title)];
            let sub = opt_item(cv.subtitle, |x: Seq<char>| ItemModel::CoverSubtitle(x));
            let id = opt_item(cv.identifier, |x: Seq<char>| ItemModel::CoverIdentifier(x));
            let blocks = Seq::new(cv.blocks.len(), |j: int| ItemModel::CoverBlock(j));
            let brk = if m.sections.len() > 0 { seq![ItemModel::PageBreak] } else { Seq::<ItemModel>::empty() };
            assert(c == title + sub + id + blocks + brk);
            assert forall|p: int| 0 <= p < c.len() implies !(#[trigger] c[p] is SectionMarker) by {
                let l1 = title.len() as int;
                let l2 = l1 + sub.len();
                let l3 = l2 + id.len();
                let l4 = l3 + blocks.len();
                if p >= l4 {
                    assert(c[p] == brk[p - l4]);
                } else if p >= l3 {
                    assert(c[p] == blocks[p - l3]);
                } else if p >= l2 {
                    assert(c[p] == id[p - l2]);
                } else if p >= l1 {
                    assert(c[p] == sub[p - l1]);
                } else {
                    assert(c[p] == title[p]);
                }
            }
        }
    }
    assert(no_markers(t)) by {
        if needs_toc(m) {
            let title = seq![ItemModel::TocTitle(toc_heading(m))];
            let rows = Seq::new(m.sections.len(), |i: int| ItemModel::TocRow(m.sections[i].title, page_label(toc_page(toc, i))));
            let brk = seq![ItemModel::PageBreak];
            assert(t == title + rows + brk);
            assert forall|p: int| 0 <= p < t.len() implies !(#[trigger] t[p] is SectionMarker) by {
                if p >= 1 + rows.len() {
                    assert(t[p] == brk[p - 1 - rows.len()]);
                } else if p >= 1 {
                    assert(t[p] == rows[p - 1]);
                } else {
                    assert(t[p] == title[p]);
                }
            }
        }
    }
    let all = pass_items(m, track, toc);
    assert(all == head + s);
    assert forall|p: int| 0 <= p < head.len() implies !(#[trigger] head[p] is SectionMarker) by {
        if p < c.len() {
            assert(head[p] == c[p]);
        } else {
            assert(head[p] == t[p - c.len()]);
        }
    }
    assert forall|p: int, q: int| 0 <= p < q < all.len() implies (#[trigger] all[p] matches ItemModel::SectionMarker(i)
        ==> (#[trigger] all[q] matches ItemModel::SectionMarker(j) ==> i < j)) by {
        if all[p] is SectionMarker && all[q] is SectionMarker {
            if p < head.len() {
                assert(all[p] == head[p]);
            } else if q < head.len() {
                assert(all[q] == head[q]);
            } else {
                assert(all[p] == s[p - head.len()] && all[q] == s[q - head.len()]);
            }
        }
    }
}

} // verus!
