use dmp_rating::editor::build_author;
use dmp_rating::editor::build_dmp_sections;
use dmp_rating::editor::build_overall_rating;
use dmp_rating::editor::build_section;
use dmp_rating::editor::build_subsection;
use dmp_rating::editor::dmp_section_titles;
use dmp_rating::editor::new_dmp;
use dmp_rating::editor::normalize_min_rating;
use dmp_rating::editor::normalize_optional;
use dmp_rating::editor::normalize_overall_score;
use dmp_rating::editor::parse_author_id_type;
use dmp_rating::editor::parse_rating;
use dmp_rating::editor::validate_update_rating;
use dmp_rating::model::AuthorIdType;
use dmp_rating::text::parse_u8;
use dmp_rating::text::split_and_trim;
use dmp_rating::text::str_equal;
use dmp_rating::text::trim_str;

#[test]
fn trim_strips_surrounding_whitespace() {
    assert_eq!(trim_str("  a b \t"), "a b");
    assert_eq!(trim_str("\r\n x \n"), "x");
    assert_eq!(trim_str("nothing"), "nothing");
    assert_eq!(trim_str("   "), "");
    assert_eq!(trim_str(""), "");
}

#[test]
fn split_and_trim_pieces() {
    assert_eq!(split_and_trim("a, b , c"), vec!["a", "b", "c"]);
    assert_eq!(split_and_trim("one"), vec!["one"]);
    assert_eq!(split_and_trim(" x ,"), vec!["x", ""]);
    assert_eq!(split_and_trim(",y"), vec!["", "y"]);
    // An entirely empty input yields one empty piece, not an empty list.
    assert_eq!(split_and_trim(""), vec![""]);
}

#[test]
fn parse_u8_accepts_what_str_parse_accepts() {
    assert_eq!(parse_u8("42"), Some(42));
    assert_eq!(parse_u8("+7"), Some(7));
    assert_eq!(parse_u8("0005"), Some(5));
    assert_eq!(parse_u8("255"), Some(255));
    assert_eq!(parse_u8("256"), None);
    assert_eq!(parse_u8("999999999999999999999"), None);
    assert_eq!(parse_u8(""), None);
    assert_eq!(parse_u8("+"), None);
    assert_eq!(parse_u8("four"), None);
    assert_eq!(parse_u8("4 "), None);
    assert_eq!(parse_u8("-1"), None);
}

#[test]
fn rating_fields_fall_back_to_absent() {
    assert_eq!(parse_rating(" 4 "), Some(4));
    assert_eq!(parse_rating("1"), Some(1));
    assert_eq!(parse_rating("5"), Some(5));
    assert_eq!(parse_rating("0"), None);
    assert_eq!(parse_rating("9"), None);
    assert_eq!(parse_rating("four"), None);
    assert_eq!(parse_rating(""), None);
}

#[test]
fn min_rating_defaults_to_three() {
    assert_eq!(normalize_min_rating("2"), 2);
    assert_eq!(normalize_min_rating(" 5 "), 5);
    assert_eq!(normalize_min_rating("7"), 3);
    assert_eq!(normalize_min_rating("abc"), 3);
    assert_eq!(normalize_min_rating(""), 3);
}

#[test]
fn update_rating_is_validated_outright() {
    assert_eq!(validate_update_rating("5"), Some(5));
    assert_eq!(validate_update_rating(" 1 "), Some(1));
    assert_eq!(validate_update_rating("6"), None);
    assert_eq!(validate_update_rating("0"), None);
    assert_eq!(validate_update_rating("x"), None);
}

#[test]
fn author_id_type_parses_case_insensitively() {
    assert_eq!(parse_author_id_type("orcid"), Some(AuthorIdType::Orcid));
    assert_eq!(parse_author_id_type("ORCID"), Some(AuthorIdType::Orcid));
    assert_eq!(parse_author_id_type("OrCiD"), Some(AuthorIdType::Orcid));
    assert_eq!(parse_author_id_type("isni"), Some(AuthorIdType::Isni));
    assert_eq!(parse_author_id_type("OPENID"), Some(AuthorIdType::OpenId));
    assert_eq!(parse_author_id_type("other"), Some(AuthorIdType::Other));
    assert_eq!(parse_author_id_type("doi"), None);
    assert_eq!(parse_author_id_type(""), None);
}

#[test]
fn optional_fields_normalise_empty_to_absent() {
    assert_eq!(normalize_optional("   "), None);
    assert_eq!(normalize_optional(" x "), Some("x".to_string()));
    assert_eq!(normalize_optional(""), None);
}

#[test]
fn overall_score_clamps_to_default() {
    assert_eq!(normalize_overall_score(Some(450)), 450);
    assert_eq!(normalize_overall_score(Some(100)), 100);
    assert_eq!(normalize_overall_score(Some(500)), 500);
    assert_eq!(normalize_overall_score(Some(99)), 300);
    assert_eq!(normalize_overall_score(Some(501)), 300);
    assert_eq!(normalize_overall_score(None), 300);
}

#[test]
fn build_author_applies_defaults() {
    let a = build_author(" Ada ", "", "", "  ", "ada@example.org ");
    assert_eq!(a.name, "Ada");
    assert_eq!(a.identifier, None);
    assert_eq!(a.id_type, Some(AuthorIdType::Other));
    assert_eq!(a.affiliation, None);
    assert_eq!(a.email.as_deref(), Some("ada@example.org"));

    let b = build_author("Grace", " 0000-1 ", "ISNI", "Navy", "");
    assert_eq!(b.identifier.as_deref(), Some("0000-1"));
    assert_eq!(b.id_type, Some(AuthorIdType::Isni));

    let c = build_author("Alan", "x", "badtype", "", "");
    assert_eq!(c.id_type, Some(AuthorIdType::Other));
}

#[test]
fn build_section_and_subsection() {
    let sub = build_subsection(" Part ", "bad", "a,b", " note ");
    assert_eq!(sub.title, "Part");
    assert_eq!(sub.rating, None);
    assert_eq!(sub.tags, vec!["a", "b"]);
    assert_eq!(sub.comments.as_deref(), Some("note"));

    let s = build_section("FAIR Principles", "4", " x , y ", "", vec![sub]);
    assert_eq!(s.title, "FAIR Principles");
    assert_eq!(s.rating, Some(4));
    assert_eq!(s.tags, vec!["x", "y"]);
    assert_eq!(s.comments, None);
    assert_eq!(s.subsections.len(), 1);
    assert!(s.cross_references.is_none());
}

#[test]
fn new_dmp_sets_header_and_stamps() {
    let overall = build_overall_rating(Some(350), " R ", " fine ", "t1,t2", 77);
    assert_eq!(overall.score_hundredths, 350);
    assert_eq!(overall.reviewer, "R");
    assert_eq!(overall.comments, "fine");
    assert_eq!(overall.overall_tags, vec!["t1", "t2"]);
    assert_eq!(overall.review_date, 77);

    let d = new_dmp(" My Plan ", " 10.1/x ", " doi ", Vec::new(), None, Vec::new(), overall, 123);
    assert_eq!(d.id, None);
    assert_eq!(d.title, "My Plan");
    assert_eq!(d.dmp_id.identifier, "10.1/x");
    assert_eq!(d.dmp_id.id_type, "doi");
    assert_eq!(d.version, "1.0");
    assert_eq!(d.created_date, 123);
    assert_eq!(d.last_modified, 123);
    assert!(d.related_datasets.is_none());
    assert!(d.history.is_none());
}

#[test]
fn sections_are_assembled_under_the_seven_fixed_titles() {
    let drafts: Vec<dmp_rating::editor::SectionDraft> = (1..=7)
        .map(|i| dmp_rating::editor::SectionDraft {
            rating_input: i.to_string(),
            tags_input: format!("tag{}", i),
            comments: String::new(),
            subsections: Vec::new(),
        })
        .collect();
    let sections = build_dmp_sections(drafts);
    let titles = dmp_section_titles();
    assert_eq!(sections.len(), 7);
    for (i, s) in sections.iter().enumerate() {
        assert_eq!(s.title, titles[i]);
        if i < 5 {
            assert_eq!(s.rating, Some((i + 1) as u8));
        } else {
            // 6 and 7 lie outside the 1-to-5 range and become absent.
            assert_eq!(s.rating, None);
        }
        assert_eq!(s.tags, vec![format!("tag{}", i + 1)]);
        assert_eq!(s.comments, None);
        assert!(s.cross_references.is_none());
    }
}

#[test]
fn the_seven_fixed_section_titles() {
    let titles = dmp_section_titles();
    assert_eq!(titles.len(), 7);
    assert_eq!(titles[0], "Data Description & Collection");
    assert_eq!(titles[1], "Documentation & Metadata");
    assert_eq!(titles[2], "Ethical & Legal Compliance");
    assert_eq!(titles[3], "Storage & Backup During the Project");
    assert_eq!(titles[4], "Data Sharing & Long-Term Preservation");
    assert_eq!(titles[5], "Responsibilities & Resources");
    assert_eq!(titles[6], "FAIR Principles");
}

#[test]
fn str_equal_compares_content() {
    assert!(str_equal("abc", "abc"));
    assert!(!str_equal("abc", "abd"));
    assert!(!str_equal("abc", "ABC"));
    assert!(str_equal("", ""));
}
