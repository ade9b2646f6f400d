//! The interactive editor's construction rules, free of any input plumbing.
//!
//! Each builder takes the raw text a prompt collected and assembles one
//! piece of a validated record: free-text fields are trimmed and, where
//! optional, an empty field becomes absent; comma-separated lists are split
//! and trimmed piecewise; rating fields parse to a small integer or fall
//! back to absent; the author identifier scheme parses case-insensitively
//! with an explicit fallback; the overall score is kept only within its
//! range, else replaced by the middle value.

use vstd::prelude::*;
use vstd::string::StrSliceExecFns;

use crate::model::Author;
use crate::model::AuthorIdType;
use crate::model::DataManagementPlan;
use crate::model::Identifier;
use crate::model::OverallRating;
use crate::model::ProjectInfo;
use crate::model::Section;
use crate::model::Subsection;
use crate::model::dmp_wf;
use crate::model::overall_rating_wf;
use crate::model::rating_wf;
use crate::model::section_wf;
use crate::model::subsection_wf;
use crate::text::parse_u8;
use crate::text::parse_u8_spec;
use crate::text::split_and_trim;
use crate::text::split_trim;
use crate::text::trim_spec;
use crate::text::trim_str;

verus! {

/// `a` equals `b` up to ASCII case, where `b` is a lower-case letter or
/// matches exactly.
pub open spec fn char_eq_ci(a: char, b: char) -> bool {
    a == b || (97 <= b as u32 <= 122 && a as u32 + 32 == b as u32)
}

/// `s` equals the lower-case keyword `kw` up to ASCII case.
pub open spec fn matches_keyword_ci(s: Seq<char>, kw: Seq<char>) -> bool {
    s.len() == kw.len() && forall|i: int| 0 <= i < s.len() ==> char_eq_ci(#[trigger] s[i], kw[i])
}

/// Compares a string against a lower-case keyword, ignoring ASCII case.
#[verifier::loop_isolation(false)]
fn keyword_matches_ci(s: &str, kw: &str) -> (b: bool)
    ensures
        b == matches_keyword_ci(s@, kw@),
{
    let n = s.unicode_len();
    if n != kw.unicode_len() {
        return false;
    }
    let mut i: usize = 0;
    while i < n
        invariant
            0 <= i <= n,
            forall|j: int| 0 <= j < i ==> char_eq_ci(#[trigger] s@[j], kw@[j]),
        decreases n - i,
    {
        let a = s.get_char(i);
        let b = kw.get_char(i);
        let bu = b as u32;
        let au = a as u32;
        if !(a == b || (97 <= bu && bu <= 122 && au + 32 == bu)) {
            return false;
        }
        i += 1;
    }
    true
}

/// The author identifier scheme the text names, ignoring ASCII case;
/// nothing for any other text.
pub open spec fn author_id_type_of(s: Seq<char>) -> Option<AuthorIdType> {
    if matches_keyword_ci(s, "orcid"@) {
        Some(AuthorIdType::Orcid)
    } else if matches_keyword_ci(s, "isni"@) {
        Some(AuthorIdType::Isni)
    } else if matches_keyword_ci(s, "openid"@) {
        Some(AuthorIdType::OpenId)
    } else if matches_keyword_ci(s, "other"@) {
        Some(AuthorIdType::Other)
    } else {
        None
    }
}

/// The explicit, fallible parse of an author identifier scheme. Callers
/// choose whether to propagate the failure or fall back to
/// `AuthorIdType::Other`.
pub fn parse_author_id_type(s: &str) -> (r: Option<AuthorIdType>)
    ensures
        r == author_id_type_of(s@),
{
    if keyword_matches_ci(s, "orcid") {
        Some(AuthorIdType::Orcid)
    } else if keyword_matches_ci(s, "isni") {
        Some(AuthorIdType::Isni)
    } else if keyword_matches_ci(s, "openid") {
        Some(AuthorIdType::OpenId)
    } else if keyword_matches_ci(s, "other") {
        Some(AuthorIdType::Other)
    } else {
        None
    }
}

/// An optional free-text field: trimmed, and absent when nothing is left.
pub open spec fn optional_field(s: Seq<char>) -> Option<Seq<char>> {
    if trim_spec(s).len() == 0 {
        None
    } else {
        Some(trim_spec(s))
    }
}

/// Trims a free-text field and normalises an empty result to absent.
pub fn normalize_optional(s: &str) -> (r: Option<String>)
    ensures
        r.deep_view() == optional_field(s@),
{
    let t = trim_str(s);
    if t.as_str().is_empty() {
        None
    } else {
        Some(t)
    }
}

/// A rating field: the trimmed text parsed as an integer, kept only in the
/// range 1 to 5; anything else is stored as absent, never rejected.
pub open spec fn rating_field(s: Seq<char>) -> Option<u8> {
    match parse_u8_spec(trim_spec(s)) {
        Some(v) => if 1 <= v <= 5 {
            Some(v)
        } else {
            None
        },
        None => None,
    }
}

/// Parses a rating field; an unparsable or out-of-range value becomes
/// absent.
pub fn parse_rating(s: &str) -> (r: Option<u8>)
    ensures
        r == rating_field(s@),
        rating_wf(r),
{
    let t = trim_str(s);
    match parse_u8(t.as_str()) {
        Some(v) => if 1 <= v && v <= 5 {
            Some(v)
        } else {
            None
        },
        None => None,
    }
}

/// The search threshold the text names: parsed and kept in range 1 to 5,
/// with 3 as the default for anything else.
pub open spec fn min_rating_field(s: Seq<char>) -> u8 {
    match parse_u8_spec(trim_spec(s)) {
        Some(v) => if 1 <= v <= 5 {
            v
        } else {
            3
        },
        None => 3,
    }
}

/// Coerces a search threshold: an unparsable or out-of-range value becomes
/// the middle rating 3.
pub fn normalize_min_rating(s: &str) -> (r: u8)
    ensures
        r == min_rating_field(s@),
        1 <= r <= 5,
{
    let t = trim_str(s);
    match parse_u8(t.as_str()) {
        Some(v) => if 1 <= v && v <= 5 {
            v
        } else {
            3
        },
        None => 3,
    }
}

/// Validates a new rating for the update path: accepted only in the range
/// 1 to 5, else refused outright.
pub fn validate_update_rating(s: &str) -> (r: Option<u8>)
    ensures
        match r {
            Some(v) => parse_u8_spec(trim_spec(s@)) == Some(v) && 1 <= v <= 5,
            None => match parse_u8_spec(trim_spec(s@)) {
                Some(v) => !(1 <= v <= 5),
                None => true,
            },
        },
{
    let t = trim_str(s);
    match parse_u8(t.as_str()) {
        Some(v) => if 1 <= v && v <= 5 {
            Some(v)
        } else {
            None
        },
        None => None,
    }
}

/// The overall score, in hundredths, kept only within 1.0 to 5.0; any
/// other parse silently becomes the middle value 3.0.
pub open spec fn overall_score_field(parsed: Option<u16>) -> u16 {
    match parsed {
        Some(v) => if 100 <= v <= 500 {
            v
        } else {
            300
        },
        None => 300,
    }
}

/// Coerces a parsed overall score (in hundredths) into its range.
pub fn normalize_overall_score(parsed: Option<u16>) -> (r: u16)
    ensures
        r == overall_score_field(parsed),
        100 <= r <= 500,
{
    match parsed {
        Some(v) => if 100 <= v && v <= 500 {
            v
        } else {
            300
        },
        None => 300,
    }
}

/// Builds one author from the prompted fields: the name trimmed, the
/// optional fields normalised to absent when empty, and the identifier
/// scheme falling back to `Other` when empty or unparsable.
pub fn build_author(
    name: &str,
    identifier: &str,
    id_type: &str,
    affiliation: &str,
    email: &str,
) -> (r: Author)
    ensures
        r.deep_view().name == trim_spec(name@),
        r.deep_view().identifier == optional_field(identifier@),
        r.deep_view().id_type == Some(
            match author_id_type_of(trim_spec(id_type@)) {
                Some(t) => t,
                None => AuthorIdType::Other,
            },
        ),
        r.deep_view().affiliation == optional_field(affiliation@),
        r.deep_view().email == optional_field(email@),
{
    let t = trim_str(id_type);
    let parsed = match parse_author_id_type(t.as_str()) {
        Some(p) => p,
        None => AuthorIdType::Other,
    };
    Author {
        name: trim_str(name),
        identifier: normalize_optional(identifier),
        id_type: Some(parsed),
        affiliation: normalize_optional(affiliation),
        email: normalize_optional(email),
    }
}

/// Builds one subsection: title trimmed, rating parsed with absent
/// fallback, tags split and trimmed, comments normalised.
pub fn build_subsection(title: &str, rating_input: &str, tags_input: &str, comments: &str) -> (r:
    Subsection)
    ensures
        r.deep_view().title == trim_spec(title@),
        r.deep_view().rating == rating_field(rating_input@),
        r.deep_view().tags == split_trim(trim_spec(tags_input@)),
        r.deep_view().comments == optional_field(comments@),
        subsection_wf(r.deep_view()),
{
    let tags_trimmed = trim_str(tags_input);
    Subsection {
        title: trim_str(title),
        rating: parse_rating(rating_input),
        tags: split_and_trim(tags_trimmed.as_str()),
        comments: normalize_optional(comments),
    }
}

/// Builds one section under its fixed title: rating parsed with absent
/// fallback, tags split and trimmed, comments normalised, subsections as
/// collected, and no cross-references.
#[verifier::loop_isolation(false)]
pub fn build_section(
    title: &str,
    rating_input: &str,
    tags_input: &str,
    comments: &str,
    subsections: Vec<Subsection>,
) -> (r: Section)
    ensures
        r.deep_view().title == title@,
        r.deep_view().rating == rating_field(rating_input@),
        r.deep_view().tags == split_trim(trim_spec(tags_input@)),
        r.deep_view().comments == optional_field(comments@),
        r.deep_view().subsections == subsections.deep_view(),
        r.deep_view().cross_references is None,
        (forall|i: int|
            0 <= i < subsections.deep_view().len() ==> subsection_wf(
                #[trigger] subsections.deep_view()[i],
            )) ==> section_wf(r.deep_view()),
{
    let tags_trimmed = trim_str(tags_input);
    Section {
        title: title.to_owned(),
        rating: parse_rating(rating_input),
        tags: split_and_trim(tags_trimmed.as_str()),
        comments: normalize_optional(comments),
        subsections,
        cross_references: None,
    }
}

/// Builds the optional project information block; every field but the
/// title is normalised to absent when empty, and no dates are collected.
pub fn build_project_info(
    project_title: &str,
    grant_id: &str,
    funder: &str,
    institution: &str,
) -> (r: ProjectInfo)
    ensures
        r.deep_view().project_title == trim_spec(project_title@),
        r.deep_view().grant_id == optional_field(grant_id@),
        r.deep_view().funder == optional_field(funder@),
        r.deep_view().institution == optional_field(institution@),
        r.deep_view().start_date is None,
        r.deep_view().end_date is None,
{
    ProjectInfo {
        project_title: trim_str(project_title),
        grant_id: normalize_optional(grant_id),
        funder: normalize_optional(funder),
        institution: normalize_optional(institution),
        start_date: None,
        end_date: None,
    }
}

/// Builds the overall rating from a pre-parsed score in hundredths (kept
/// in range or defaulted), the name and comments fields trimmed, and the
/// overall tags split and trimmed.
pub fn build_overall_rating(
    score_parsed: Option<u16>,
    reviewer: &str,
    comments: &str,
    tags_input: &str,
    review_date: i64,
) -> (r: OverallRating)
    ensures
        r.deep_view().score_hundredths == overall_score_field(score_parsed),
        r.deep_view().reviewer == trim_spec(reviewer@),
        r.deep_view().comments == trim_spec(comments@),
        r.deep_view().overall_tags == split_trim(trim_spec(tags_input@)),
        r.deep_view().review_date == review_date,
        overall_rating_wf(r.deep_view()),
{
    let tags_trimmed = trim_str(tags_input);
    OverallRating {
        score_hundredths: normalize_overall_score(score_parsed),
        reviewer: trim_str(reviewer),
        review_date,
        comments: trim_str(comments),
        overall_tags: split_and_trim(tags_trimmed.as_str()),
    }
}

/// Assembles a whole DMP record ready for its first persistence: no
/// identity yet, header fields trimmed, version 1.0, both date stamps set
/// to `now`, and every optional block the editor does not collect absent.
#[verifier::loop_isolation(false)]
pub fn new_dmp(
    title: &str,
    identifier: &str,
    id_type: &str,
    authors: Vec<Author>,
    project_info: Option<ProjectInfo>,
    sections: Vec<Section>,
    overall_rating: OverallRating,
    now: i64,
) -> (r: DataManagementPlan)
    ensures
        r.deep_view().id is None,
        r.deep_view().title == trim_spec(title@),
        r.deep_view().dmp_id.identifier == trim_spec(identifier@),
        r.deep_view().dmp_id.id_type == trim_spec(id_type@),
        r.deep_view().authors == authors.deep_view(),
        r.deep_view().project_info == project_info.deep_view(),
        r.deep_view().created_date == now,
        r.deep_view().last_modified == now,
        r.deep_view().version == "1.0"@,
        r.deep_view().overall_rating == Some(overall_rating.deep_view()),
        r.deep_view().sections == sections.deep_view(),
        r.deep_view().machine_actionable is None,
        r.deep_view().history is None,
        r.deep_view().metrics is None,
        r.deep_view().related_dmps is None,
        r.deep_view().related_datasets is None,
        r.deep_view().related_publications is None,
        r.deep_view().related_software is None,
        (forall|i: int|
            0 <= i < sections.deep_view().len() ==> section_wf(
                #[trigger] sections.deep_view()[i],
            )) && overall_rating_wf(overall_rating.deep_view()) ==> dmp_wf(r.deep_view()),
{
    DataManagementPlan {
        id: None,
        title: trim_str(title),
        dmp_id: Identifier { identifier: trim_str(identifier), id_type: trim_str(id_type) },
        authors,
        project_info,
        created_date: now,
        last_modified: now,
        version: "1.0".to_owned(),
        overall_rating: Some(overall_rating),
        sections,
        machine_actionable: None,
        history: None,
        metrics: None,
        related_dmps: None,
        related_datasets: None,
        related_publications: None,
        related_software: None,
    }
}

/// The title of the `i`-th of the seven fixed DMP sections.
pub open spec fn fixed_section_title(i: int) -> Seq<char> {
    if i == 0 {
        "Data Description & Collection"@
    } else if i == 1 {
        "Documentation & Metadata"@
    } else if i == 2 {
        "Ethical & Legal Compliance"@
    } else if i == 3 {
        "Storage & Backup During the Project"@
    } else if i == 4 {
        "Data Sharing & Long-Term Preservation"@
    } else if i == 5 {
        "Responsibilities & Resources"@
    } else {
        "FAIR Principles"@
    }
}

/// The fixed, exhaustive list of the seven DMP section titles, in the
/// order the editor always creates them.
pub fn dmp_section_titles() -> (r: Vec<String>)
    ensures
        r.deep_view().len() == 7,
        forall|i: int| 0 <= i < 7 ==> #[trigger] r.deep_view()[i] == fixed_section_title(i),
{
    let mut r: Vec<String> = Vec::new();
    r.push("Data Description & Collection".to_owned());
    r.push("Documentation & Metadata".to_owned());
    r.push("Ethical & Legal Compliance".to_owned());
    r.push("Storage & Backup During the Project".to_owned());
    r.push("Data Sharing & Long-Term Preservation".to_owned());
    r.push("Responsibilities & Resources".to_owned());
    r.push("FAIR Principles".to_owned());
    proof {
        assert forall|i: int| 0 <= i < 7 implies #[trigger] r.deep_view()[i]
            == fixed_section_title(i) by {
            assert(r.deep_view()[i] == r@[i].deep_view());
        }
    }
    r
}

/// The raw text one section's prompts collected, before construction.
pub struct SectionDraft {
    pub rating_input: String,
    pub tags_input: String,
    pub comments: String,
    pub subsections: Vec<Subsection>,
}

pub ghost struct SectionDraftV {
    pub rating_input: Seq<char>,
    pub tags_input: Seq<char>,
    pub comments: Seq<char>,
    pub subsections: Seq<crate::model::SubsectionV>,
}

impl DeepView for SectionDraft {
    type V = SectionDraftV;

    open spec fn deep_view(&self) -> SectionDraftV {
        SectionDraftV {
            rating_input: self.rating_input@,
            tags_input: self.tags_input@,
            comments: self.comments@,
            subsections: self.subsections.deep_view(),
        }
    }
}

/// Assembles the record's whole section list from the seven drafts: the
/// DMP section set is fixed and exhaustive, so the result always holds
/// exactly the seven predefined titles, in their fixed order, each built
/// by the section construction rules from its draft.
#[verifier::loop_isolation(false)]
pub fn build_dmp_sections(drafts: Vec<SectionDraft>) -> (r: Vec<Section>)
    requires
        drafts.deep_view().len() == 7,
    ensures
        r.deep_view().len() == 7,
        forall|i: int|
            0 <= i < 7 ==> (#[trigger] r.deep_view()[i]).title == fixed_section_title(i),
        forall|i: int|
            0 <= i < 7 ==> (#[trigger] r.deep_view()[i]).rating == rating_field(
                drafts.deep_view()[i].rating_input,
            ),
        forall|i: int|
            0 <= i < 7 ==> (#[trigger] r.deep_view()[i]).tags == split_trim(
                trim_spec(drafts.deep_view()[i].tags_input),
            ),
        forall|i: int|
            0 <= i < 7 ==> (#[trigger] r.deep_view()[i]).comments == optional_field(
                drafts.deep_view()[i].comments,
            ),
        forall|i: int|
            0 <= i < 7 ==> (#[trigger] r.deep_view()[i]).subsections == drafts.deep_view()[i].subsections,
        forall|i: int| 0 <= i < 7 ==> (#[trigger] r.deep_view()[i]).cross_references is None,
{
    let ghost d0 = drafts.deep_view();
    let titles = dmp_section_titles();
    let mut drafts = drafts;
    let mut r: Vec<Section> = Vec::new();
    let mut i: usize = 0;
    while i < 7
        invariant
            i <= 7,
            drafts.deep_view() =~= d0.skip(i as int),
            r.deep_view().len() == i,
            forall|k: int|
                0 <= k < i ==> (#[trigger] r.deep_view()[k]).title == fixed_section_title(k),
            forall|k: int|
                0 <= k < i ==> (#[trigger] r.deep_view()[k]).rating == rating_field(
                    d0[k].rating_input,
                ),
            forall|k: int|
                0 <= k < i ==> (#[trigger] r.deep_view()[k]).tags == split_trim(
                    trim_spec(d0[k].tags_input),
                ),
            forall|k: int|
                0 <= k < i ==> (#[trigger] r.deep_view()[k]).comments == optional_field(
                    d0[k].comments,
                ),
            forall|k: int|
                0 <= k < i ==> (#[trigger] r.deep_view()[k]).subsections == d0[k].subsections,
            forall|k: int|
                0 <= k < i ==> (#[trigger] r.deep_view()[k]).cross_references is None,
        decreases 7 - i,
    {
        let ghost dpre = drafts;
        let draft = drafts.remove(0);
        proof {
            assert(draft == dpre@[0]);
            assert(dpre.deep_view()[0] == dpre@[0].deep_view());
            assert(draft.deep_view() == d0[i as int]);
            assert(drafts@ =~= dpre@.drop_first());
            assert(drafts.deep_view() =~= d0.skip(i as int + 1)) by {
                assert forall|k: int|
                    0 <= k < drafts.deep_view().len() implies drafts.deep_view()[k] == d0.skip(
                    i as int + 1,
                )[k] by {
                    assert(drafts.deep_view()[k] == drafts@[k].deep_view());
                    assert(drafts@[k] == dpre@[k + 1]);
                    assert(dpre.deep_view()[k + 1] == dpre@[k + 1].deep_view());
                    assert(dpre.deep_view()[k + 1] == d0.skip(i as int)[k + 1]);
                }
            }
            assert(titles.deep_view()[i as int] == titles@[i as int].deep_view());
        }
        let ghost r_before = r;
        let sec = build_section(
            titles[i].as_str(),
            draft.rating_input.as_str(),
            draft.tags_input.as_str(),
            draft.comments.as_str(),
            draft.subsections,
        );
        let ghost secg = sec;
        r.push(sec);
        proof {
            assert forall|k: int|
                0 <= k < r.deep_view().len() implies #[trigger] r.deep_view()[k] == (if k
                < i as int {
                r_before.deep_view()[k]
            } else {
                secg.deep_view()
            }) by {
                if k < i as int {
                    assert(r@[k] == r_before@[k]);
                } else {
                    assert(r@[k] == secg);
                }
            }
        }
        i += 1;
    }
    r
}

} // verus!
