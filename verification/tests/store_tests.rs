use dmp_rating::essay::Essay;
use dmp_rating::essay::EssayMetadata;
use dmp_rating::essay::EssaySection;
use dmp_rating::essay::EssayStore;
use dmp_rating::model::DataManagementPlan;
use dmp_rating::model::Identifier;
use dmp_rating::model::RelatedDataset;
use dmp_rating::model::Section;
use dmp_rating::store::DmpStore;
use dmp_rating::store::EntityKind;
use dmp_rating::store::StoreError;

fn section(title: &str, rating: Option<u8>, tags: &[&str], comments: Option<&str>) -> Section {
    Section {
        title: title.to_string(),
        rating,
        tags: tags.iter().map(|t| t.to_string()).collect(),
        comments: comments.map(|c| c.to_string()),
        subsections: Vec::new(),
        cross_references: None,
    }
}

fn dmp(title: &str, ident: &str, id_type: &str, sections: Vec<Section>) -> DataManagementPlan {
    DataManagementPlan {
        id: None,
        title: title.to_string(),
        dmp_id: Identifier { identifier: ident.to_string(), id_type: id_type.to_string() },
        authors: Vec::new(),
        project_info: None,
        created_date: 1_000,
        last_modified: 1_000,
        version: "1.0".to_string(),
        overall_rating: None,
        sections,
        machine_actionable: None,
        history: None,
        metrics: None,
        related_dmps: None,
        related_datasets: None,
        related_publications: None,
        related_software: None,
    }
}

fn essay(title: &str, author: &str, sections: Vec<EssaySection>) -> Essay {
    Essay {
        id: None,
        title: title.to_string(),
        author: author.to_string(),
        date: 500,
        sections,
        metadata: EssayMetadata { word_count: None, categories: Vec::new() },
    }
}

fn essay_section(title: &str, tags: &[&str], rating: Option<u8>) -> EssaySection {
    EssaySection {
        title: title.to_string(),
        content: String::new(),
        tags: tags.iter().map(|t| t.to_string()).collect(),
        usefulness_rating: rating,
    }
}

#[test]
fn insert_mints_sequential_identities() {
    let mut store = DmpStore::new();
    let a = store.add_dmp(dmp("A", "10.1/a", "doi", vec![]));
    let b = store.add_dmp(dmp("B", "10.1/b", "doi", vec![]));
    assert_eq!(a, 0);
    assert_eq!(b, 1);
    assert_eq!(store.len(), 2);
    let exported = store.export_all_dmps();
    assert_eq!(exported[0].id, Some(0));
    assert_eq!(exported[1].id, Some(1));
}

#[test]
fn essay_scenario_tag_and_threshold() {
    let mut store = EssayStore::new();
    store.add_essay(essay("A", "B", vec![essay_section("Intro", &["x", "y"], Some(4))]));
    let by_tag = store.find_essays_by_section_tag("Intro", "x");
    assert_eq!(by_tag.len(), 1);
    assert_eq!(by_tag[0].title, "A");
    let at_five = store.find_essays_by_rating("Intro", 5);
    assert_eq!(at_five.len(), 0);
    let at_four = store.find_essays_by_rating("Intro", 4);
    assert_eq!(at_four.len(), 1);
    assert_eq!(at_four[0].title, "A");
}

#[test]
fn tag_query_is_exact_and_case_sensitive() {
    let mut store = DmpStore::new();
    store.add_dmp(dmp("A", "10.1/a", "doi", vec![section("Intro", None, &["x"], None)]));
    assert_eq!(store.find_dmps_by_section_tag("Intro", "x").len(), 1);
    assert_eq!(store.find_dmps_by_section_tag("Intro", "X").len(), 0);
    assert_eq!(store.find_dmps_by_section_tag("intro", "x").len(), 0);
    assert_eq!(store.find_dmps_by_section_tag("Intro", "y").len(), 0);
}

#[test]
fn tag_query_idempotent() {
    let mut store = DmpStore::new();
    store.add_dmp(dmp("A", "10.1/a", "doi", vec![section("Intro", None, &["x"], None)]));
    store.add_dmp(dmp("B", "10.1/b", "doi", vec![section("Intro", None, &["x"], None)]));
    let r1 = store.find_dmps_by_section_tag("Intro", "x");
    let r2 = store.find_dmps_by_section_tag("Intro", "x");
    let ids1: Vec<Option<u64>> = r1.iter().map(|d| d.id).collect();
    let ids2: Vec<Option<u64>> = r2.iter().map(|d| d.id).collect();
    assert_eq!(ids1, ids2);
}

#[test]
fn threshold_is_inclusive_and_monotone() {
    let mut store = DmpStore::new();
    store.add_dmp(dmp("A", "10.1/a", "doi", vec![section("Quality", Some(3), &[], None)]));
    store.add_dmp(dmp("B", "10.1/b", "doi", vec![section("Quality", Some(5), &[], None)]));
    store.add_dmp(dmp("C", "10.1/c", "doi", vec![section("Quality", None, &[], None)]));
    let at_three = store.find_dmps_by_rating("Quality", 3);
    let at_five = store.find_dmps_by_rating("Quality", 5);
    assert_eq!(at_three.len(), 2);
    assert_eq!(at_five.len(), 1);
    assert_eq!(at_five[0].title, "B");
    for d in &at_five {
        assert!(at_three.iter().any(|e| e.id == d.id));
    }
}

#[test]
fn find_by_id_returns_first_match() {
    let mut store = DmpStore::new();
    store.add_dmp(dmp("First", "10.1/x", "doi", vec![]));
    store.add_dmp(dmp("Second", "10.1/x", "doi", vec![]));
    let found = store.find_dmp_by_id("10.1/x", "doi").expect("should find a record");
    assert_eq!(found.title, "First");
    assert!(store.find_dmp_by_id("10.1/x", "url").is_none());
    assert!(store.find_dmp_by_id("10.1/y", "doi").is_none());
}

#[test]
fn update_effect_visible_in_lookup() {
    let mut store = DmpStore::new();
    store.add_dmp(dmp(
        "A",
        "10.1/a",
        "doi",
        vec![
            section("Intro", Some(2), &[], Some("old")),
            section("Quality", Some(3), &[], None),
        ],
    ));
    let before = store.find_dmp_by_id("10.1/a", "doi").unwrap();
    let modified = store.update_dmp_rating("10.1/a", "doi", "Intro", 4, "ok", 9_999);
    assert!(modified);
    let after = store.find_dmp_by_id("10.1/a", "doi").unwrap();
    assert_eq!(after.sections[0].rating, Some(4));
    assert_eq!(after.sections[0].comments.as_deref(), Some("ok"));
    assert_eq!(after.last_modified, 9_999);
    assert!(after.last_modified > before.last_modified);
    // The untouched section and the creation date stand as they were.
    assert_eq!(after.sections[1].rating, Some(3));
    assert_eq!(after.created_date, before.created_date);
}

#[test]
fn update_touches_only_first_matching_section() {
    let mut store = DmpStore::new();
    store.add_dmp(dmp(
        "A",
        "10.1/a",
        "doi",
        vec![
            section("Intro", Some(1), &[], None),
            section("Intro", Some(2), &[], None),
        ],
    ));
    assert!(store.update_dmp_rating("10.1/a", "doi", "Intro", 5, "first only", 2_000));
    let after = store.find_dmp_by_id("10.1/a", "doi").unwrap();
    assert_eq!(after.sections[0].rating, Some(5));
    assert_eq!(after.sections[1].rating, Some(2));
}

#[test]
fn update_miss_returns_false_not_error() {
    let mut store = DmpStore::new();
    store.add_dmp(dmp("A", "10.1/a", "doi", vec![section("Intro", Some(2), &[], None)]));
    // No record with the pair.
    assert!(!store.update_dmp_rating("10.1/z", "doi", "Intro", 4, "ok", 2_000));
    // The record exists but has no such section.
    assert!(!store.update_dmp_rating("10.1/a", "doi", "Missing", 4, "ok", 2_000));
    // Nothing changed.
    let after = store.find_dmp_by_id("10.1/a", "doi").unwrap();
    assert_eq!(after.sections[0].rating, Some(2));
    assert_eq!(after.last_modified, 1_000);
}

#[test]
fn related_entity_query_and_invalid_kind() {
    let mut store = DmpStore::new();
    let mut a = dmp("A", "10.1/a", "doi", vec![]);
    a.related_datasets = Some(vec![RelatedDataset {
        dataset_id: Identifier { identifier: "10.1/abc".to_string(), id_type: "doi".to_string() },
        relationship_type: "references".to_string(),
        title: "Data".to_string(),
        repository: None,
        url: None,
    }]);
    store.add_dmp(a);
    store.add_dmp(dmp("B", "10.1/b", "doi", vec![]));
    let hits = store.find_dmps_by_related_entity("dataset", "10.1/abc").unwrap();
    assert_eq!(hits.len(), 1);
    assert_eq!(hits[0].title, "A");
    let none = store.find_dmps_by_related_entity("publication", "10.1/abc").unwrap();
    assert_eq!(none.len(), 0);
    match store.find_dmps_by_related_entity("notakind", "10.1/abc") {
        Err(e) => assert_eq!(e, StoreError::InvalidArgument),
        Ok(_) => panic!("an unknown entity kind must be refused"),
    }
}

#[test]
fn related_entity_import_scenario() {
    let make = |title: &str, ident: &str| {
        let mut d = dmp(title, ident, "doi", vec![]);
        d.related_datasets = Some(vec![RelatedDataset {
            dataset_id: Identifier {
                identifier: "10.1/abc".to_string(),
                id_type: "doi".to_string(),
            },
            relationship_type: "references".to_string(),
            title: "Data".to_string(),
            repository: None,
            url: None,
        }]);
        d
    };
    let mut store = DmpStore::new();
    let count = store.import_records(vec![make("A", "10.1/a"), make("B", "10.1/b")]);
    assert_eq!(count, 2);
    let hits = store.find_dmps_by_related_entity("dataset", "10.1/abc").unwrap();
    assert_eq!(hits.len(), 2);
}

#[test]
fn parse_entity_kind_is_exact() {
    assert_eq!(dmp_rating::store::parse_entity_kind("dataset"), Some(EntityKind::Dataset));
    assert_eq!(dmp_rating::store::parse_entity_kind("publication"), Some(EntityKind::Publication));
    assert_eq!(dmp_rating::store::parse_entity_kind("software"), Some(EntityKind::Software));
    assert_eq!(dmp_rating::store::parse_entity_kind("dmp"), Some(EntityKind::Dmp));
    assert_eq!(dmp_rating::store::parse_entity_kind("Dataset"), None);
    assert_eq!(dmp_rating::store::parse_entity_kind(""), None);
}

#[test]
fn empty_import_inserts_nothing() {
    let mut store = DmpStore::new();
    assert_eq!(store.import_records(Vec::new()), 0);
    assert_eq!(store.len(), 0);
    let mut essays = EssayStore::new();
    assert_eq!(essays.import_records(Vec::new()), 0);
    assert_eq!(essays.len(), 0);
}

#[test]
fn round_trip_preserves_content_and_mints_fresh_ids() {
    let mut src = DmpStore::new();
    src.add_dmp(dmp("A", "10.1/a", "doi", vec![section("Intro", Some(4), &["x"], None)]));
    src.add_dmp(dmp("B", "10.1/b", "url", vec![]));
    let exported = src.export_all_dmps();
    assert_eq!(exported.len(), 2);

    let mut dst = DmpStore::new();
    let count = dst.import_records(exported);
    assert_eq!(count, 2);
    assert_eq!(dst.len(), src.len());
    let reimported = dst.export_all_dmps();
    let originals = src.export_all_dmps();
    for (orig, copy) in originals.iter().zip(reimported.iter()) {
        assert_eq!(orig.title, copy.title);
        assert_eq!(orig.dmp_id.identifier, copy.dmp_id.identifier);
        assert_eq!(orig.dmp_id.id_type, copy.dmp_id.id_type);
        assert_eq!(orig.sections.len(), copy.sections.len());
        assert_eq!(orig.created_date, copy.created_date);
        assert!(copy.id.is_some());
    }
    // The destination minted its own identities, pairwise distinct and
    // distinct from every identity the source records carried.
    assert_ne!(reimported[0].id, reimported[1].id);
    for orig in &originals {
        for copy in &reimported {
            assert_ne!(copy.id, orig.id);
        }
    }
    assert_eq!(reimported[0].id, Some(2));
    assert_eq!(reimported[1].id, Some(3));
    // Re-importing the same file never collides: it duplicates instead.
    let again = dst.import_records(src.export_all_dmps());
    assert_eq!(again, 2);
    assert_eq!(dst.len(), 4);
    let all = dst.export_all_dmps();
    assert_eq!(all[2].id, Some(4));
    assert_eq!(all[3].id, Some(5));
}

#[test]
fn essay_round_trip() {
    let mut src = EssayStore::new();
    src.add_essay(essay("A", "B", vec![essay_section("Intro", &["x"], Some(4))]));
    let exported = src.export_all_essays();
    let mut dst = EssayStore::new();
    assert_eq!(dst.import_records(exported), 1);
    let copies = dst.export_all_essays();
    assert_eq!(copies.len(), 1);
    assert_eq!(copies[0].title, "A");
    assert_eq!(copies[0].author, "B");
    // Minted above the carried identity, so distinct from the original's.
    assert_eq!(copies[0].id, Some(1));
    assert_ne!(copies[0].id, src.export_all_essays()[0].id);
}
