use std::collections::BTreeMap;

use lopdf::{Dictionary, Document, Object};
use pdf_helper::bookmarks::{
    apply_section_bookmarks, classify_catalog, collect_outline_entries, outline_entry_dictionary,
    outline_root_dictionary, plan_outline, BookmarkError, CatalogState, ObjectRef, PdfValue,
};
use pdf_helper::model::Section;

fn two_page_pdf() -> Vec<u8> {
    let mut doc = Document::with_version("1.5");
    let pages_id = doc.new_object_id();
    let mut kids = Vec::new();
    for _ in 0..2 {
        let mut page = Dictionary::new();
        page.set("Type", Object::Name(b"Page".to_vec()));
        page.set("Parent", Object::Reference(pages_id));
        page.set(
            "MediaBox",
            Object::Array(vec![0.into(), 0.into(), 595.into(), 842.into()]),
        );
        let id = doc.add_object(Object::Dictionary(page));
        kids.push(Object::Reference(id));
    }
    let mut pages = Dictionary::new();
    pages.set("Type", Object::Name(b"Pages".to_vec()));
    pages.set("Kids", Object::Array(kids));
    pages.set("Count", Object::Integer(2));
    doc.objects.insert(pages_id, Object::Dictionary(pages));
    let mut catalog = Dictionary::new();
    catalog.set("Type", Object::Name(b"Catalog".to_vec()));
    catalog.set("Pages", Object::Reference(pages_id));
    let catalog_id = doc.add_object(Object::Dictionary(catalog));
    doc.trailer.set("Root", Object::Reference(catalog_id));
    let mut bytes = Vec::new();
    doc.save_to(&mut bytes).unwrap();
    bytes
}

fn sections() -> Vec<Section> {
    vec![
        Section::new("First").with_identifier(Some("first".to_string())),
        Section::new("Second"),
        Section::new("Third"),
    ]
}

#[test]
fn missing_page_names_section_and_page() {
    let mut pages = BTreeMap::new();
    pages.insert(1u32, (10u32, 0u16));
    pages.insert(2u32, (11u32, 0u16));
    let result = collect_outline_entries(&sections(), &[Some(1), None, Some(9)], &pages, 20);
    assert!(matches!(
        result,
        Err(BookmarkError::MissingPage { section_index: 2, page_number: 9 })
    ));
}

#[test]
fn entries_skip_sections_without_pages() {
    let mut pages = BTreeMap::new();
    pages.insert(1u32, (10u32, 0u16));
    pages.insert(2u32, (11u32, 0u16));
    let entries = collect_outline_entries(&sections(), &[Some(2), None, Some(1)], &pages, 20).unwrap();
    assert_eq!(entries.len(), 2);
    assert_eq!(entries[0].object_id, ObjectRef { number: 21, generation: 0 });
    assert_eq!(entries[0].page_ref, ObjectRef { number: 11, generation: 0 });
    assert_eq!(entries[0].title, "First");
    assert_eq!(entries[0].name, Some("first".to_string()));
    assert_eq!(entries[1].object_id, ObjectRef { number: 22, generation: 0 });
    assert_eq!(entries[1].title, "Third");
    assert_eq!(entries[1].name, None);

    let root = ObjectRef { number: 23, generation: 0 };
    let first = outline_entry_dictionary(&entries, 0, root);
    assert_eq!(
        first,
        vec![
            ("Title".to_string(), PdfValue::Text("First".to_string())),
            (
                "Dest".to_string(),
                PdfValue::PageDestination(ObjectRef { number: 11, generation: 0 }, "Fit".to_string())
            ),
            ("Parent".to_string(), PdfValue::Reference(root)),
            ("NM".to_string(), PdfValue::Text("first".to_string())),
            ("Next".to_string(), PdfValue::Reference(ObjectRef { number: 22, generation: 0 })),
        ]
    );
    let last = outline_entry_dictionary(&entries, 1, root);
    assert_eq!(last[3], ("Prev".to_string(), PdfValue::Reference(ObjectRef { number: 21, generation: 0 })));
    assert_eq!(last.len(), 4);
    assert_eq!(
        outline_root_dictionary(&entries),
        vec![
            ("Type".to_string(), PdfValue::Name("Outlines".to_string())),
            ("Count".to_string(), PdfValue::Integer(2)),
            ("First".to_string(), PdfValue::Reference(ObjectRef { number: 21, generation: 0 })),
            ("Last".to_string(), PdfValue::Reference(ObjectRef { number: 22, generation: 0 })),
        ]
    );
}

#[test]
fn object_numbers_can_run_out() {
    let mut pages = BTreeMap::new();
    pages.insert(1u32, (10u32, 0u16));
    let result = collect_outline_entries(&sections(), &[Some(1)], &pages, u32::MAX);
    assert!(matches!(result, Err(BookmarkError::ObjectIdsExhausted)));
}

#[test]
fn bookmarks_for_missing_page_fail_and_leave_bytes() {
    let bytes = two_page_pdf();
    let before = bytes.clone();
    let result = apply_section_bookmarks(&bytes, &sections(), &[Some(1), Some(5), None]);
    assert!(matches!(
        result,
        Err(BookmarkError::MissingPage { section_index: 1, page_number: 5 })
    ));
    assert_eq!(bytes, before);
}

#[test]
fn no_recorded_page_returns_bytes_unchanged() {
    let bytes = two_page_pdf();
    let result = apply_section_bookmarks(&bytes, &sections(), &[None, None, None]).unwrap();
    assert_eq!(result, bytes);
}

#[test]
fn bookmarks_are_linked_under_the_catalog() {
    let bytes = two_page_pdf();
    let result = apply_section_bookmarks(&bytes, &sections(), &[Some(1), None, Some(2)]).unwrap();
    assert_ne!(result, bytes);
    let doc = Document::load_mem(&result).unwrap();
    let catalog = doc.catalog().unwrap();
    let outlines_id = catalog.get(b"Outlines").unwrap().as_reference().unwrap();
    let outlines = doc.get_dictionary(outlines_id).unwrap();
    assert_eq!(outlines.get(b"Count").unwrap().as_i64().unwrap(), 2);
    let first_id = outlines.get(b"First").unwrap().as_reference().unwrap();
    let last_id = outlines.get(b"Last").unwrap().as_reference().unwrap();
    let first = doc.get_dictionary(first_id).unwrap();
    assert_eq!(first.get(b"Next").unwrap().as_reference().unwrap(), last_id);
    assert_eq!(first.get(b"Parent").unwrap().as_reference().unwrap(), outlines_id);
    let last = doc.get_dictionary(last_id).unwrap();
    assert_eq!(last.get(b"Prev").unwrap().as_reference().unwrap(), first_id);
    assert!(last.get(b"Next").is_err());
}

#[test]
fn unparsable_bytes_are_reported() {
    let result = apply_section_bookmarks(b"not a document", &sections(), &[Some(1)]);
    assert!(matches!(result, Err(BookmarkError::Parse(_))));
}

fn one_page() -> BTreeMap<u32, (u32, u16)> {
    let mut pages = BTreeMap::new();
    pages.insert(1u32, (3u32, 0u16));
    pages
}

#[test]
fn plan_reports_catalog_errors() {
    let catalog = ObjectRef { number: 1, generation: 0 };
    let missing = plan_outline(&sections(), &[Some(1)], &one_page(), 5, CatalogState::Missing);
    assert!(matches!(missing, Err(BookmarkError::MissingCatalog)));
    let invalid = plan_outline(&sections(), &[Some(1)], &one_page(), 5, CatalogState::NotDictionary);
    assert!(matches!(invalid, Err(BookmarkError::InvalidCatalog)));
    let none = plan_outline(&sections(), &[None], &one_page(), 5, CatalogState::Missing).unwrap();
    assert!(none.is_none());
    let missing_page = plan_outline(&sections(), &[Some(2)], &one_page(), 5, CatalogState::Dictionary(catalog));
    assert!(matches!(missing_page, Err(BookmarkError::MissingPage { section_index: 0, page_number: 2 })));
}

#[test]
fn plan_lists_entries_then_root() {
    let catalog = ObjectRef { number: 1, generation: 0 };
    let plan = plan_outline(&sections(), &[Some(1), Some(1)], &one_page(), 5, CatalogState::Dictionary(catalog))
        .unwrap()
        .unwrap();
    assert_eq!(plan.catalog, catalog);
    assert_eq!(plan.root, ObjectRef { number: 8, generation: 0 });
    let ids: Vec<ObjectRef> = plan.objects.iter().map(|o| o.0).collect();
    assert_eq!(
        ids,
        vec![
            ObjectRef { number: 6, generation: 0 },
            ObjectRef { number: 7, generation: 0 },
            ObjectRef { number: 8, generation: 0 },
        ]
    );
    assert_eq!(plan.objects[2].1[1], ("Count".to_string(), PdfValue::Integer(2)));
}

#[test]
fn root_number_leaves_room_for_saving() {
    let catalog = CatalogState::Dictionary(ObjectRef { number: 1, generation: 0 });
    let near = plan_outline(&sections(), &[Some(1)], &one_page(), u32::MAX - 2, catalog);
    assert!(matches!(near, Err(BookmarkError::ObjectIdsExhausted)));
    let fits = plan_outline(&sections(), &[Some(1)], &one_page(), u32::MAX - 3, catalog).unwrap().unwrap();
    assert_eq!(fits.root.number, u32::MAX - 1);
}

#[test]
fn missing_page_wins_over_running_out_of_numbers() {
    let result = collect_outline_entries(&sections(), &[Some(1), Some(1), Some(2)], &one_page(), u32::MAX - 1);
    assert!(matches!(
        result,
        Err(BookmarkError::MissingPage { section_index: 2, page_number: 2 })
    ));
    let catalog = CatalogState::Dictionary(ObjectRef { number: 1, generation: 0 });
    let planned = plan_outline(&sections(), &[Some(1), Some(1), Some(2)], &one_page(), u32::MAX - 1, catalog);
    assert!(matches!(
        planned,
        Err(BookmarkError::MissingPage { section_index: 2, page_number: 2 })
    ));
}

#[test]
fn catalog_classification() {
    let c = ObjectRef { number: 4, generation: 0 };
    assert_eq!(classify_catalog(None, None), CatalogState::Missing);
    assert_eq!(classify_catalog(Some(c), None), CatalogState::Missing);
    assert_eq!(classify_catalog(Some(c), Some(false)), CatalogState::NotDictionary);
    assert_eq!(classify_catalog(Some(c), Some(true)), CatalogState::Dictionary(c));
}
