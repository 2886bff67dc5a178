//! A flat outline (bookmarks) written into an already rendered document.
//!
//! The document's object graph is loaded and saved by `lopdf`.  What is decided here is
//! which sections get an outline entry, the page object each one targets, the identifiers
//! of the new objects, and the dictionaries that link the entries into a doubly linked
//! list under one outline root.
use std::collections::BTreeMap;
use vstd::prelude::*;
use vstd::string::*;
use crate::model::{Section, SectionModel, sections_model};

verus! {

broadcast use vstd::std_specs::btree::group_btree_axioms;

/// An outside error of `lopdf`.
#[verifier::external_type_specification]
#[verifier::external_body]
pub struct ExLopdfError(lopdf::Error);

/// An outside document of `lopdf`: an editable object graph.
#[verifier::external_type_specification]
#[verifier::external_body]
pub struct ExLopdfDocument(lopdf::Document);

/// An outside object of `lopdf`.
#[verifier::external_type_specification]
#[verifier::external_body]
pub struct ExLopdfObject(lopdf::Object);

/// The identifier of an object of the graph: its number and generation.
#[derive(Clone, Copy, Debug, PartialEq, Eq, Structural)]
pub struct ObjectRef {
    pub number: u32,
    pub generation: u16,
}

/// Errors while adding an outline to a rendered document.
#[derive(Debug)]
pub enum BookmarkError {
    /// The bytes could not be parsed, or the graph could not be saved.
    Parse(lopdf::Error),
    /// The trailer names no catalog, or the catalog object is absent.
    MissingCatalog,
    /// The catalog object is not a dictionary.
    InvalidCatalog,
    /// A section's recorded page does not exist in the document.
    MissingPage {
        /// Index of the section whose page is missing.
        section_index: usize,
        /// The requested (1-indexed) page number.
        page_number: usize,
    },
    /// The document has no object numbers left for the new objects.
    ObjectIdsExhausted,
}

/// A value stored in an outline dictionary.
#[derive(Clone, Debug, PartialEq, Eq)]
pub enum PdfValue {
    /// A reference to another object.
    Reference(ObjectRef),
    /// A name.
    Name(String),
    /// A literal string.
    Text(String),
    /// An integer.
    Integer(i64),
    /// An array of a page reference and the name of how the page is fitted.
    PageDestination(ObjectRef, String),
}

pub enum ValueModel {
    Reference(ObjectRef),
    Name(Seq<char>),
    Text(Seq<char>),
    Integer(int),
    PageDestination(ObjectRef, Seq<char>),
}

impl View for PdfValue {
    type V = ValueModel;

    open spec fn view(&self) -> ValueModel {
        match self {
            PdfValue::Reference(r) => ValueModel::Reference(*r),
            PdfValue::Name(n) => ValueModel::Name(n@),
            PdfValue::Text(t) => ValueModel::Text(t@),
            PdfValue::Integer(i) => ValueModel::Integer(*i as int),
            PdfValue::PageDestination(r, f) => ValueModel::PageDestination(*r, f@),
        }
    }
}

/// The entries of a dictionary, in the order they are set.
pub open spec fn dict_model(d: Seq<(String, PdfValue)>) -> Seq<(Seq<char>, ValueModel)> {
    d.map_values(|e: (String, PdfValue)| (e.0@, e.1@))
}

/// One outline entry: its new object, the section's title and identifier, and the page
/// object it targets.
#[derive(Clone, Debug)]
pub struct OutlineEntry {
    pub object_id: ObjectRef,
    pub page_ref: ObjectRef,
    pub title: String,
    pub name: Option<String>,
}

pub struct EntryModel {
    pub object_id: ObjectRef,
    pub page_ref: ObjectRef,
    pub title: Seq<char>,
    pub name: Option<Seq<char>>,
}

impl View for OutlineEntry {
    type V = EntryModel;

    open spec fn view(&self) -> EntryModel {
        EntryModel {
            object_id: self.object_id,
            page_ref: self.page_ref,
            title: self.title@,
            name: match self.name {
                Some(n) => Some(n@),
                None => None,
            },
        }
    }
}

pub open spec fn entries_model(e: Seq<OutlineEntry>) -> Seq<EntryModel> {
    e.map_values(|x: OutlineEntry| x@)
}

/// Why no outline can be planned.
pub enum PlanError {
    MissingPage(int, usize),
    Exhausted,
    MissingCatalog,
    InvalidCatalog,
}

/// The page object for a 1-indexed page number, if the document has that page.
pub open spec fn page_object(pages: Map<u32, (u32, u16)>, page: usize) -> Option<ObjectRef> {
    if page <= u32::MAX && pages.contains_key(page as u32) {
        Some(ObjectRef { number: pages[page as u32].0, generation: pages[page as u32].1 })
    } else {
        None
    }
}

/// The sections among the first `k` that have a recorded page, in order, each with the page
/// object of that page; or the first section whose page the document does not have.
pub open spec fn outline_targets(
    section_pages: Seq<Option<usize>>,
    pages: Map<u32, (u32, u16)>,
    k: int,
) -> Result<Seq<(usize, ObjectRef)>, PlanError>
    decreases k,
{
    if k <= 0 {
        Ok(Seq::empty())
    } else {
        match outline_targets(section_pages, pages, k - 1) {
            Err(e) => Err(e),
            Ok(ts) => match section_pages[k - 1] {
                None => Ok(ts),
                Some(p) => match page_object(pages, p) {
                    None => Err(PlanError::MissingPage(k - 1, p)),
                    Some(page_ref) => Ok(ts.push(((k - 1) as usize, page_ref))),
                },
            },
        }
    }
}

/// The entries for `targets`, numbered from `max_id + 1`.
pub open spec fn numbered(sections: Seq<SectionModel>, targets: Seq<(usize, ObjectRef)>, max_id: u32) -> Seq<EntryModel> {
    Seq::new(
        targets.len(),
        |j: int|
            EntryModel {
                object_id: ObjectRef { number: (max_id + 1 + j) as u32, generation: 0 },
                page_ref: targets[j].1,
                title: sections[targets[j].0 as int].title,
                name: sections[targets[j].0 as int].identifier,
            },
    )
}

/// The outline entries of the first `k` sections: one per section with a recorded page,
/// in order, numbered from `max_id + 1`.  Every recorded page is resolved first, so the
/// first section whose page is missing is reported even when object numbers would run out.
pub open spec fn outline_entries(
    sections: Seq<SectionModel>,
    section_pages: Seq<Option<usize>>,
    pages: Map<u32, (u32, u16)>,
    max_id: u32,
    k: int,
) -> Result<Seq<EntryModel>, PlanError> {
    match outline_targets(section_pages, pages, k) {
        Err(e) => Err(e),
        Ok(ts) => if max_id + ts.len() > u32::MAX {
            Err(PlanError::Exhausted)
        } else {
            Ok(numbered(sections, ts, max_id))
        },
    }
}

proof fn lemma_targets_error_stays(section_pages: Seq<Option<usize>>, pages: Map<u32, (u32, u16)>, k: int, n: int)
    requires
        k <= n,
        outline_targets(section_pages, pages, k) is Err,
    ensures
        outline_targets(section_pages, pages, n) == outline_targets(section_pages, pages, k),
    decreases n - k,
{
    if k < n {
        lemma_targets_error_stays(section_pages, pages, k, n - 1);
    }
}

/// The number of sections that have both a title and a recorded page slot.
pub open spec fn paired(sections: Seq<SectionModel>, section_pages: Seq<Option<usize>>) -> int {
    if sections.len() < section_pages.len() {
        sections.len() as int
    } else {
        section_pages.len() as int
    }
}

/// `b` is the error that reports `e`.
pub open spec fn error_for(b: BookmarkError, e: PlanError) -> bool {
    match e {
        PlanError::MissingPage(i, p) => b == BookmarkError::MissingPage { section_index: i as usize, page_number: p },
        PlanError::Exhausted => b is ObjectIdsExhausted,
        PlanError::MissingCatalog => b is MissingCatalog,
        PlanError::InvalidCatalog => b is InvalidCatalog,
    }
}

/// The outline entries for the sections that have a recorded page, with object numbers
/// from `max_id + 1` on; or the first section whose page the document does not have.
pub fn collect_outline_entries(
    sections: &[Section],
    section_pages: &[Option<usize>],
    pages: &BTreeMap<u32, (u32, u16)>,
    max_id: u32,
) -> (r: Result<Vec<OutlineEntry>, BookmarkError>)
    ensures
        match outline_entries(sections_model(sections@), section_pages@, pages@, max_id,
            paired(sections_model(sections@), section_pages@)) {
            Ok(es) => r is Ok && entries_model(r->Ok_0@) == es,
            Err(e) => r is Err && error_for(r->Err_0, e),
        },
{
    let n = if sections.len() < section_pages.len() {
        sections.len()
    } else {
        section_pages.len()
    };
    let ghost secs = sections_model(sections@);
    let mut targets: Vec<(usize, ObjectRef)> = Vec::new();
    let mut k: usize = 0;
    while k < n
        invariant
            k <= n,
            n == paired(secs, section_pages@),
            n <= sections.len(),
            secs == sections_model(sections@),
            outline_targets(section_pages@, pages@, k as int) == Ok::<Seq<(usize, ObjectRef)>, PlanError>(targets@),
            forall|j: int| 0 <= j < targets@.len() ==> (#[trigger] targets@[j]).0 < k,
            targets@.len() <= k,
        decreases n - k,
    {
        if let Some(p) = section_pages[k] {
            let found = if p <= u32::MAX as usize {
                pages.get(&(p as u32))
            } else {
                None
            };
            match found {
                None => {
                    proof {
                        lemma_targets_error_stays(section_pages@, pages@, k + 1, n as int);
                    }
                    return Err(BookmarkError::MissingPage { section_index: k, page_number: p });
                },
                Some(id) => {
                    targets.push((k, ObjectRef { number: id.0, generation: id.1 }));
                },
            }
        }
        k = k + 1;
    }
    let count = targets.len();
    if count as u64 > (u32::MAX - max_id) as u64 {
        return Err(BookmarkError::ObjectIdsExhausted);
    }
    let ghost ts = targets@;
    let mut entries: Vec<OutlineEntry> = Vec::new();
    let mut j: usize = 0;
    while j < count
        invariant
            j <= count,
            count == ts.len(),
            ts == targets@,
            max_id + count <= u32::MAX,
            n <= sections.len(),
            secs == sections_model(sections@),
            forall|x: int| 0 <= x < ts.len() ==> (#[trigger] ts[x]).0 < n,
            entries_model(entries@) =~= numbered(secs, ts, max_id).subrange(0, j as int),
        decreases count - j,
    {
        let (idx, page_ref) = targets[j];
        assert(ts[j as int].0 < n);
        let section = &sections[idx];
        assert(secs[idx as int] == section@);
        let title = section.title().to_owned();
        let name = match section.identifier() {
            Some(t) => Some(t.to_owned()),
            None => None,
        };
        let entry = OutlineEntry {
            object_id: ObjectRef { number: max_id + 1 + j as u32, generation: 0 },
            page_ref,
            title,
            name,
        };
        let ghost before = entries@;
        entries.push(entry);
        assert(entries_model(entries@) =~= entries_model(before).push(entry@));
        j = j + 1;
    }
    assert(numbered(secs, ts, max_id).subrange(0, count as int) =~= numbered(secs, ts, max_id));
    Ok(entries)
}

/// The dictionary of entry `k` of `entries`: its title, its destination (the whole target
/// page), its parent the outline root, its name when the section has an identifier, and its
/// neighbours in section order.
pub open spec fn entry_dict(entries: Seq<EntryModel>, k: int, root: ObjectRef) -> Seq<(Seq<char>, ValueModel)> {
    let e = entries[k];
    seq![
        ("Title"@, ValueModel::Text(e.title)),
        ("Dest"@, ValueModel::PageDestination(e.page_ref, "Fit"@)),
        ("Parent"@, ValueModel::Reference(root)),
    ] + match e.name {
        Some(n) => seq![("NM"@, ValueModel::Text(n))],
        None => Seq::empty(),
    } + if k > 0 {
        seq![("Prev"@, ValueModel::Reference(entries[k - 1].object_id))]
    } else {
        Seq::empty()
    } + if k + 1 < entries.len() {
        seq![("Next"@, ValueModel::Reference(entries[k + 1].object_id))]
    } else {
        Seq::empty()
    }
}

/// The dictionary of the outline root of `entries` (at least one).
pub open spec fn root_dict(entries: Seq<EntryModel>) -> Seq<(Seq<char>, ValueModel)> {
    seq![
        ("Type"@, ValueModel::Name("Outlines"@)),
        ("Count"@, ValueModel::Integer(entries.len() as int)),
        ("First"@, ValueModel::Reference(entries[0].object_id)),
        ("Last"@, ValueModel::Reference(entries.last().object_id)),
    ]
}

fn key(k: &str) -> (r: String)
    ensures
        r@ == k@,
{
    k.to_owned()
}

fn push_entry(d: &mut Vec<(String, PdfValue)>, k: String, v: PdfValue)
    ensures
        dict_model(final(d)@) == dict_model(old(d)@).push((k@, v@)),
{
    let ghost before = d@;
    d.push((k, v));
    assert(dict_model(d@) =~= dict_model(before).push((k@, v@)));
}

/// The dictionary of outline entry `k`, linked to its neighbours and to `root`.
pub fn outline_entry_dictionary(entries: &Vec<OutlineEntry>, k: usize, root: ObjectRef) -> (r: Vec<(String, PdfValue)>)
    requires
        k < entries.len(),
    ensures
        dict_model(r@) == entry_dict(entries_model(entries@), k as int, root),
{
    proof {
        reveal_strlit("Title");
        reveal_strlit("Dest");
        reveal_strlit("Fit");
        reveal_strlit("Parent");
        reveal_strlit("NM");
        reveal_strlit("Prev");
        reveal_strlit("Next");
    }
    let ghost es = entries_model(entries@);
    let e = &entries[k];
    let mut d: Vec<(String, PdfValue)> = Vec::new();
    assert(dict_model(d@) =~= Seq::empty());
    push_entry(&mut d, key("Title"), PdfValue::Text(e.title.clone()));
    push_entry(&mut d, key("Dest"), PdfValue::PageDestination(e.page_ref, key("Fit")));
    push_entry(&mut d, key("Parent"), PdfValue::Reference(root));
    let ghost head = dict_model(d@);
    if let Some(n) = &e.name {
        push_entry(&mut d, key("NM"), PdfValue::Text(n.clone()));
    }
    let ghost with_name = dict_model(d@);
    if k > 0 {
        push_entry(&mut d, key("Prev"), PdfValue::Reference(entries[k - 1].object_id));
    }
    let ghost with_prev = dict_model(d@);
    if k + 1 < entries.len() {
        push_entry(&mut d, key("Next"), PdfValue::Reference(entries[k + 1].object_id));
    }
    assert(es[k as int] == e@);
    assert(k > 0 ==> es[k - 1] == entries@[k - 1]@);
    assert(k + 1 < entries.len() ==> es[k + 1] == entries@[k + 1]@);
    assert(dict_model(d@) =~= entry_dict(es, k as int, root));
    d
}

/// The dictionary of the outline root: its type, the number of entries, the first and the
/// last.
pub fn outline_root_dictionary(entries: &Vec<OutlineEntry>) -> (r: Vec<(String, PdfValue)>)
    requires
        0 < entries.len() <= u32::MAX,
    ensures
        dict_model(r@) == root_dict(entries_model(entries@)),
{
    proof {
        reveal_strlit("Type");
        reveal_strlit("Outlines");
        reveal_strlit("Count");
        reveal_strlit("First");
        reveal_strlit("Last");
    }
    let ghost es = entries_model(entries@);
    let mut d: Vec<(String, PdfValue)> = Vec::new();
    assert(dict_model(d@) =~= Seq::empty());
    push_entry(&mut d, key("Type"), PdfValue::Name(key("Outlines")));
    push_entry(&mut d, key("Count"), PdfValue::Integer(entries.len() as i64));
    push_entry(&mut d, key("First"), PdfValue::Reference(entries[0].object_id));
    push_entry(&mut d, key("Last"), PdfValue::Reference(entries[entries.len() - 1].object_id));
    assert(es[0] == entries@[0]@);
    assert(es.last() == entries@[entries.len() - 1]@);
    assert(dict_model(d@) =~= root_dict(es));
    d
}

// ---------------------------------------------------------------------------------------------
// The whole outline.
// ---------------------------------------------------------------------------------------------

/// What the loaded document says of its catalog, the object that the trailer's `Root`
/// entry refers to.
#[derive(Clone, Copy, Debug, PartialEq, Eq, Structural)]
pub enum CatalogState {
    /// The trailer has no `Root` reference, or no object has that identifier.
    Missing,
    /// The catalog object is not a dictionary.
    NotDictionary,
    /// The catalog is the dictionary object of this identifier.
    Dictionary(ObjectRef),
}

pub struct PlanModel {
    pub entries: Seq<EntryModel>,
    pub root: ObjectRef,
    pub catalog: ObjectRef,
    pub objects: Seq<(ObjectRef, Seq<(Seq<char>, ValueModel)>)>,
}

/// The objects to store: each entry's dictionary under its identifier, then the root's.
pub open spec fn plan_objects(es: Seq<EntryModel>, root: ObjectRef) -> Seq<(ObjectRef, Seq<(Seq<char>, ValueModel)>)> {
    Seq::new(es.len(), |k: int| (es[k].object_id, entry_dict(es, k, root))).push((root, root_dict(es)))
}

/// The outline that a document with the page objects `pages`, the largest object number
/// `max_id` and the catalog `catalog` gets: `None` when no section has a recorded page.
///
/// Entries are numbered from `max_id + 1` and the root follows them; the numbers must stay
/// below `u32::MAX`, which saving the document still adds one to.  A missing page comes
/// before running out of numbers, which comes before a bad catalog.
pub open spec fn outline_plan(
    sections: Seq<SectionModel>,
    section_pages: Seq<Option<usize>>,
    pages: Map<u32, (u32, u16)>,
    max_id: u32,
    catalog: CatalogState,
) -> Result<Option<PlanModel>, PlanError> {
    match outline_entries(sections, section_pages, pages, max_id, paired(sections, section_pages)) {
        Err(e) => Err(e),
        Ok(es) => if es.len() == 0 {
            Ok(None)
        } else if max_id + es.len() + 1 >= u32::MAX {
            Err(PlanError::Exhausted)
        } else {
            let root = ObjectRef { number: (max_id + es.len() + 1) as u32, generation: 0 };
            match catalog {
                CatalogState::Missing => Err(PlanError::MissingCatalog),
                CatalogState::NotDictionary => Err(PlanError::InvalidCatalog),
                CatalogState::Dictionary(c) => Ok(Some(PlanModel { entries: es, root, catalog: c, objects: plan_objects(es, root) })),
            }
        },
    }
}

/// The objects an outline adds to a document, and where it hangs.
#[derive(Debug)]
pub struct OutlinePlan {
    /// The entries, in section order.
    pub entries: Vec<OutlineEntry>,
    /// The outline root.
    pub root: ObjectRef,
    /// The catalog, which gets an `Outlines` entry referring to the root.
    pub catalog: ObjectRef,
    /// The dictionaries to store, with their identifiers: the entries', then the root's.
    pub objects: Vec<(ObjectRef, Vec<(String, PdfValue)>)>,
}

pub open spec fn objects_model(o: Seq<(ObjectRef, Vec<(String, PdfValue)>)>) -> Seq<(ObjectRef, Seq<(Seq<char>, ValueModel)>)> {
    o.map_values(|x: (ObjectRef, Vec<(String, PdfValue)>)| (x.0, dict_model(x.1@)))
}

pub open spec fn plan_model(p: OutlinePlan) -> PlanModel {
    PlanModel { entries: entries_model(p.entries@), root: p.root, catalog: p.catalog, objects: objects_model(p.objects@) }
}

/// Plans the outline of a document given what was read from it: see [`outline_plan`].
pub fn plan_outline(
    sections: &[Section],
    section_pages: &[Option<usize>],
    pages: &BTreeMap<u32, (u32, u16)>,
    max_id: u32,
    catalog: CatalogState,
) -> (r: Result<Option<OutlinePlan>, BookmarkError>)
    ensures
        match outline_plan(sections_model(sections@), section_pages@, pages@, max_id, catalog) {
            Ok(None) => r is Ok && r->Ok_0 is None,
            Ok(Some(m)) => r is Ok && r->Ok_0 is Some && plan_model(r->Ok_0->Some_0) == m,
            Err(e) => r is Err && error_for(r->Err_0, e),
        },
{
    let ghost secs = sections_model(sections@);
    let entries = match collect_outline_entries(sections, section_pages, pages, max_id) {
        Ok(es) => es,
        Err(e) => return Err(e),
    };
    let n = entries.len();
    if n == 0 {
        return Ok(None);
    }
    if (u32::MAX - max_id) as usize - n <= 1 {
        return Err(BookmarkError::ObjectIdsExhausted);
    }
    let root = ObjectRef { number: max_id + n as u32 + 1, generation: 0 };
    let catalog_ref = match catalog {
        CatalogState::Missing => return Err(BookmarkError::MissingCatalog),
        CatalogState::NotDictionary => return Err(BookmarkError::InvalidCatalog),
        CatalogState::Dictionary(c) => c,
    };
    let ghost es = entries_model(entries@);
    let mut objects: Vec<(ObjectRef, Vec<(String, PdfValue)>)> = Vec::new();
    let mut k: usize = 0;
    while k < n
        invariant
            k <= n,
            n == entries.len(),
            0 < n <= u32::MAX,
            es == entries_model(entries@),
            objects_model(objects@) =~= Seq::new(k as nat, |j: int| (es[j].object_id, entry_dict(es, j, root))),
        decreases n - k,
    {
        let dict = outline_entry_dictionary(&entries, k, root);
        let ghost before = objects@;
        objects.push((entries[k].object_id, dict));
        assert(objects_model(objects@) =~= objects_model(before).push((es[k as int].object_id, entry_dict(es, k as int, root))));
        k = k + 1;
    }
    let root_entries = outline_root_dictionary(&entries);
    let ghost before = objects@;
    objects.push((root, root_entries));
    assert(objects_model(objects@) =~= objects_model(before).push((root, root_dict(es))));
    assert(objects_model(objects@) =~= plan_objects(es, root));
    Ok(Some(OutlinePlan { entries, root, catalog: catalog_ref, objects }))
}

// ---------------------------------------------------------------------------------------------
// The object graph, through lopdf.
// ---------------------------------------------------------------------------------------------

/// `lopdf` parses these bytes into a document.
pub uninterp spec fn parses(b: Seq<u8>) -> bool;

/// The page objects, by 1-indexed page number, of the document these bytes hold.
pub uninterp spec fn pages_of(b: Seq<u8>) -> Map<u32, (u32, u16)>;

/// The largest object number in use in the document these bytes hold.
pub uninterp spec fn max_id_of(b: Seq<u8>) -> u32;

/// The object that the trailer's `Root` entry of the document these bytes hold refers to,
/// if it has such a reference.
pub uninterp spec fn root_of(b: Seq<u8>) -> Option<ObjectRef>;

/// Whether the document these bytes hold has an object under its `Root` reference, and if
/// so whether that object is a dictionary.
pub uninterp spec fn root_object_of(b: Seq<u8>) -> Option<bool>;

/// A document loaded by `lopdf`, with what was read from it.
pub struct LoadedPdf {
    document: lopdf::Document,
    pages: BTreeMap<u32, (u32, u16)>,
    max_id: u32,
    root: Option<ObjectRef>,
    root_is_dictionary: Option<bool>,
}

/// Relies on `lopdf::Document::load_mem`, and on what the loaded document reports:
/// `get_pages`, the `max_id` field, the trailer's `Root` reference (`Dictionary::get`,
/// `Object::as_reference`), and whether the `objects` map holds a dictionary there
/// (`Object::as_dict`).  Without its parallel loader, `lopdf` loads the same bytes into the
/// same document every time.
#[verifier::external_body]
fn load_document(bytes: &[u8]) -> (r: Result<LoadedPdf, lopdf::Error>)
    ensures
        r is Ok <==> parses(bytes@),
        r is Ok ==> r->Ok_0.pages@ == pages_of(bytes@) && r->Ok_0.max_id == max_id_of(bytes@)
            && r->Ok_0.root == root_of(bytes@) && r->Ok_0.root_is_dictionary == root_object_of(bytes@),
{
    let document = lopdf::Document::load_mem(bytes)?;
    let root = document.trailer.get(b"Root").and_then(lopdf::Object::as_reference).ok();
    let root_is_dictionary = root.and_then(|id| document.objects.get(&id)).map(|o| o.as_dict().is_ok());
    Ok(LoadedPdf {
        pages: document.get_pages(),
        max_id: document.max_id,
        root: root.map(|(number, generation)| ObjectRef { number, generation }),
        root_is_dictionary,
        document,
    })
}

/// The catalog's state: missing when there is no `Root` reference or no object under it,
/// else whether that object is a dictionary.
pub open spec fn catalog_state(root: Option<ObjectRef>, root_is_dictionary: Option<bool>) -> CatalogState {
    match (root, root_is_dictionary) {
        (Some(c), Some(true)) => CatalogState::Dictionary(c),
        (Some(_), Some(false)) => CatalogState::NotDictionary,
        _ => CatalogState::Missing,
    }
}

/// Classifies the catalog from what was read of the trailer and the objects.
pub fn classify_catalog(root: Option<ObjectRef>, root_is_dictionary: Option<bool>) -> (r: CatalogState)
    ensures
        r == catalog_state(root, root_is_dictionary),
{
    match root {
        None => CatalogState::Missing,
        Some(c) => match root_is_dictionary {
            None => CatalogState::Missing,
            Some(true) => CatalogState::Dictionary(c),
            Some(false) => CatalogState::NotDictionary,
        },
    }
}

/// Relies on the constructors of `lopdf::Object`: each value becomes the object of the same
/// kind, a page destination an array of its reference and its name.
#[verifier::external_body]
fn to_object(value: &PdfValue) -> lopdf::Object {
    match value {
        PdfValue::Reference(r) => lopdf::Object::Reference((r.number, r.generation)),
        PdfValue::Name(n) => lopdf::Object::Name(n.as_bytes().to_vec()),
        PdfValue::Text(t) => lopdf::Object::string_literal(t.as_str()),
        PdfValue::Integer(i) => lopdf::Object::Integer(*i),
        PdfValue::PageDestination(r, fit) => lopdf::Object::Array(
            vec![lopdf::Object::Reference((r.number, r.generation)), lopdf::Object::Name(fit.as_bytes().to_vec())],
        ),
    }
}

/// Relies on `FromIterator` for `lopdf::Dictionary`: a dictionary with the entries set in order.
#[verifier::external_body]
fn dictionary_object(entries: Vec<(String, lopdf::Object)>) -> lopdf::Object {
    lopdf::Object::Dictionary(entries.into_iter().collect())
}

/// Relies on the `objects` map of `lopdf::Document`: stores `object` under `id`.
#[verifier::external_body]
fn insert_object(doc: &mut lopdf::Document, id: ObjectRef, object: lopdf::Object) {
    doc.objects.insert((id.number, id.generation), object);
}

/// Relies on `lopdf::Object::as_dict_mut` and `lopdf::Dictionary::set`: sets `key` in the
/// dictionary object `id`, if there is one.
#[verifier::external_body]
fn set_dictionary_entry(doc: &mut lopdf::Document, id: ObjectRef, key: &str, value: lopdf::Object) {
    if let Some(Ok(dict)) = doc.objects.get_mut(&(id.number, id.generation)).map(lopdf::Object::as_dict_mut) {
        dict.set(key, value);
    }
}

/// Relies on the `max_id` field of `lopdf::Document` and on `Document::save_to`: records
/// `max_id` as the largest object number in use, then serialises the graph, or fails with
/// an I/O error, which `lopdf::Error` wraps.  Saving computes `max_id + 1`.
#[verifier::external_body]
fn save_document(doc: &mut lopdf::Document, max_id: u32) -> Result<Vec<u8>, lopdf::Error>
    requires
        max_id < u32::MAX,
{
    doc.max_id = max_id;
    let mut buffer = Vec::new();
    doc.save_to(&mut buffer).map(|_| buffer).map_err(lopdf::Error::from)
}

fn dictionary_of(entries: &Vec<(String, PdfValue)>) -> lopdf::Object {
    let mut objects: Vec<(String, lopdf::Object)> = Vec::new();
    let mut k: usize = 0;
    while k < entries.len()
        decreases entries.len() - k,
    {
        objects.push((entries[k].0.clone(), to_object(&entries[k].1)));
        k = k + 1;
    }
    dictionary_object(objects)
}

/// The outline `apply_section_bookmarks` plans for `pdf_bytes`.
pub open spec fn planned_for(pdf_bytes: Seq<u8>, sections: Seq<SectionModel>, section_pages: Seq<Option<usize>>) -> Result<
    Option<PlanModel>,
    PlanError,
> {
    outline_plan(
        sections,
        section_pages,
        pages_of(pdf_bytes),
        max_id_of(pdf_bytes),
        catalog_state(root_of(pdf_bytes), root_object_of(pdf_bytes)),
    )
}

/// Adds a flat outline to the rendered document `pdf_bytes`: one entry per section with a
/// recorded page, in section order, each pointing at the first page of its section, linked
/// to its neighbours and to one outline root that the catalog's `Outlines` entry refers to.
///
/// Bytes that do not parse are a `Parse` error.  Otherwise the result follows
/// [`outline_plan`] of what the document holds: its error, if any; the bytes unchanged when
/// no section has a recorded page; else the planned dictionaries (see [`plan_outline`]) are
/// stored and the document saved, which fails only with a `Parse` error.
pub fn apply_section_bookmarks(
    pdf_bytes: &[u8],
    sections: &[Section],
    section_pages: &[Option<usize>],
) -> (r: Result<Vec<u8>, BookmarkError>)
    ensures
        !parses(pdf_bytes@) ==> r is Err && r->Err_0 is Parse,
        parses(pdf_bytes@) ==> match planned_for(pdf_bytes@, sections_model(sections@), section_pages@) {
            Err(e) => r is Err && error_for(r->Err_0, e),
            Ok(None) => r is Ok && r->Ok_0@ == pdf_bytes@,
            Ok(Some(_)) => r is Ok || r->Err_0 is Parse,
        },
{
    let loaded = match load_document(pdf_bytes) {
        Ok(d) => d,
        Err(e) => return Err(BookmarkError::Parse(e)),
    };
    let LoadedPdf { mut document, pages, max_id, root, root_is_dictionary } = loaded;
    let catalog = classify_catalog(root, root_is_dictionary);
    let plan = match plan_outline(sections, section_pages, &pages, max_id, catalog) {
        Ok(Some(p)) => p,
        Ok(None) => return Ok(vstd::slice::slice_to_vec(pdf_bytes)),
        Err(e) => return Err(e),
    };
    let mut k: usize = 0;
    while k < plan.objects.len()
        decreases plan.objects.len() - k,
    {
        insert_object(&mut document, plan.objects[k].0, dictionary_of(&plan.objects[k].1));
        k = k + 1;
    }
    proof {
        reveal_strlit("Outlines");
    }
    set_dictionary_entry(&mut document, plan.catalog, "Outlines", to_object(&PdfValue::Reference(plan.root)));
    match save_document(&mut document, plan.root.number) {
        Ok(bytes) => Ok(bytes),
        Err(e) => Err(BookmarkError::Parse(e)),
    }
}

} // verus!
