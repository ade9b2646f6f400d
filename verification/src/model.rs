//! The data model for data-management-plan (DMP) review records.
//!
//! Each executable type has a ghost view (`...V`) holding the same data as
//! mathematical values (`Seq<char>` for strings, `Seq` for lists), reached
//! through `DeepView`. Contracts elsewhere in the crate are stated over these
//! views. Dates are carried as milliseconds since the Unix epoch; record
//! identities are integers minted by the store; the overall review score is
//! carried in hundredths, so a score of 3.5 is 350.

use vstd::prelude::*;

verus! {

/// An external-system reference: the identifier text and its type tag
/// (for example a DOI, handle, ARK, URL or ORCID).
pub struct Identifier {
    pub identifier: String,
    pub id_type: String,
}

pub ghost struct IdentifierV {
    pub identifier: Seq<char>,
    pub id_type: Seq<char>,
}

impl DeepView for Identifier {
    type V = IdentifierV;

    open spec fn deep_view(&self) -> IdentifierV {
        IdentifierV { identifier: self.identifier@, id_type: self.id_type@ }
    }
}

/// The closed set of author identifier schemes.
#[derive(Clone, Copy, PartialEq, Eq, Structural, Debug)]
pub enum AuthorIdType {
    Orcid,
    Isni,
    OpenId,
    Other,
}

impl DeepView for AuthorIdType {
    type V = AuthorIdType;

    open spec fn deep_view(&self) -> AuthorIdType {
        *self
    }
}

pub struct Author {
    pub name: String,
    pub affiliation: Option<String>,
    pub identifier: Option<String>,
    pub id_type: Option<AuthorIdType>,
    pub email: Option<String>,
}

pub ghost struct AuthorV {
    pub name: Seq<char>,
    pub affiliation: Option<Seq<char>>,
    pub identifier: Option<Seq<char>>,
    pub id_type: Option<AuthorIdType>,
    pub email: Option<Seq<char>>,
}

impl DeepView for Author {
    type V = AuthorV;

    open spec fn deep_view(&self) -> AuthorV {
        AuthorV {
            name: self.name@,
            affiliation: self.affiliation.deep_view(),
            identifier: self.identifier.deep_view(),
            id_type: self.id_type,
            email: self.email.deep_view(),
        }
    }
}

pub struct ProjectInfo {
    pub project_title: String,
    pub grant_id: Option<String>,
    pub funder: Option<String>,
    pub institution: Option<String>,
    pub start_date: Option<i64>,
    pub end_date: Option<i64>,
}

pub ghost struct ProjectInfoV {
    pub project_title: Seq<char>,
    pub grant_id: Option<Seq<char>>,
    pub funder: Option<Seq<char>>,
    pub institution: Option<Seq<char>>,
    pub start_date: Option<i64>,
    pub end_date: Option<i64>,
}

impl DeepView for ProjectInfo {
    type V = ProjectInfoV;

    open spec fn deep_view(&self) -> ProjectInfoV {
        ProjectInfoV {
            project_title: self.project_title@,
            grant_id: self.grant_id.deep_view(),
            funder: self.funder.deep_view(),
            institution: self.institution.deep_view(),
            start_date: self.start_date,
            end_date: self.end_date,
        }
    }
}

pub struct RelatedDMP {
    pub dmp_id: Identifier,
    pub relationship_type: String,
    pub title: String,
    pub relationship_notes: Option<String>,
}

pub ghost struct RelatedDMPV {
    pub dmp_id: IdentifierV,
    pub relationship_type: Seq<char>,
    pub title: Seq<char>,
    pub relationship_notes: Option<Seq<char>>,
}

impl DeepView for RelatedDMP {
    type V = RelatedDMPV;

    open spec fn deep_view(&self) -> RelatedDMPV {
        RelatedDMPV {
            dmp_id: self.dmp_id.deep_view(),
            relationship_type: self.relationship_type@,
            title: self.title@,
            relationship_notes: self.relationship_notes.deep_view(),
        }
    }
}

pub struct RelatedDataset {
    pub dataset_id: Identifier,
    pub relationship_type: String,
    pub title: String,
    pub repository: Option<String>,
    pub url: Option<String>,
}

pub ghost struct RelatedDatasetV {
    pub dataset_id: IdentifierV,
    pub relationship_type: Seq<char>,
    pub title: Seq<char>,
    pub repository: Option<Seq<char>>,
    pub url: Option<Seq<char>>,
}

impl DeepView for RelatedDataset {
    type V = RelatedDatasetV;

    open spec fn deep_view(&self) -> RelatedDatasetV {
        RelatedDatasetV {
            dataset_id: self.dataset_id.deep_view(),
            relationship_type: self.relationship_type@,
            title: self.title@,
            repository: self.repository.deep_view(),
            url: self.url.deep_view(),
        }
    }
}

pub struct RelatedPublication {
    pub publication_id: Identifier,
    pub relationship_type: String,
    pub title: String,
    pub authors: Vec<String>,
    pub journal: Option<String>,
    pub publication_date: Option<i64>,
    pub url: Option<String>,
}

pub ghost struct RelatedPublicationV {
    pub publication_id: IdentifierV,
    pub relationship_type: Seq<char>,
    pub title: Seq<char>,
    pub authors: Seq<Seq<char>>,
    pub journal: Option<Seq<char>>,
    pub publication_date: Option<i64>,
    pub url: Option<Seq<char>>,
}

impl DeepView for RelatedPublication {
    type V = RelatedPublicationV;

    open spec fn deep_view(&self) -> RelatedPublicationV {
        RelatedPublicationV {
            publication_id: self.publication_id.deep_view(),
            relationship_type: self.relationship_type@,
            title: self.title@,
            authors: self.authors.deep_view(),
            journal: self.journal.deep_view(),
            publication_date: self.publication_date,
            url: self.url.deep_view(),
        }
    }
}

pub struct RelatedSoftware {
    pub software_id: Identifier,
    pub name: String,
    pub version: Option<String>,
    pub relationship: String,
    pub url: Option<String>,
}

pub ghost struct RelatedSoftwareV {
    pub software_id: IdentifierV,
    pub name: Seq<char>,
    pub version: Option<Seq<char>>,
    pub relationship: Seq<char>,
    pub url: Option<Seq<char>>,
}

impl DeepView for RelatedSoftware {
    type V = RelatedSoftwareV;

    open spec fn deep_view(&self) -> RelatedSoftwareV {
        RelatedSoftwareV {
            software_id: self.software_id.deep_view(),
            name: self.name@,
            version: self.version.deep_view(),
            relationship: self.relationship@,
            url: self.url.deep_view(),
        }
    }
}

/// A pointer from one section of a record to another, with a note.
pub struct SectionCrossReference {
    pub section_title: String,
    pub reference_note: String,
}

pub ghost struct SectionCrossReferenceV {
    pub section_title: Seq<char>,
    pub reference_note: Seq<char>,
}

impl DeepView for SectionCrossReference {
    type V = SectionCrossReferenceV;

    open spec fn deep_view(&self) -> SectionCrossReferenceV {
        SectionCrossReferenceV {
            section_title: self.section_title@,
            reference_note: self.reference_note@,
        }
    }
}

/// One level of nesting below a section: rated and tagged like a section,
/// but with no further nesting.
pub struct Subsection {
    pub title: String,
    pub rating: Option<u8>,
    pub tags: Vec<String>,
    pub comments: Option<String>,
}

pub ghost struct SubsectionV {
    pub title: Seq<char>,
    pub rating: Option<u8>,
    pub tags: Seq<Seq<char>>,
    pub comments: Option<Seq<char>>,
}

impl DeepView for Subsection {
    type V = SubsectionV;

    open spec fn deep_view(&self) -> SubsectionV {
        SubsectionV {
            title: self.title@,
            rating: self.rating,
            tags: self.tags.deep_view(),
            comments: self.comments.deep_view(),
        }
    }
}

/// A named, taggable, ratable sub-unit of a DMP record. The title is the
/// lookup key for searches and updates; the tag list is set-like, its order
/// playing no part in queries.
pub struct Section {
    pub title: String,
    pub rating: Option<u8>,
    pub tags: Vec<String>,
    pub comments: Option<String>,
    pub subsections: Vec<Subsection>,
    pub cross_references: Option<Vec<SectionCrossReference>>,
}

pub ghost struct SectionV {
    pub title: Seq<char>,
    pub rating: Option<u8>,
    pub tags: Seq<Seq<char>>,
    pub comments: Option<Seq<char>>,
    pub subsections: Seq<SubsectionV>,
    pub cross_references: Option<Seq<SectionCrossReferenceV>>,
}

impl DeepView for Section {
    type V = SectionV;

    open spec fn deep_view(&self) -> SectionV {
        SectionV {
            title: self.title@,
            rating: self.rating,
            tags: self.tags.deep_view(),
            comments: self.comments.deep_view(),
            subsections: self.subsections.deep_view(),
            cross_references: self.cross_references.deep_view(),
        }
    }
}

/// The whole-record score, in hundredths: 100 stands for 1.0 and 500 for 5.0.
pub struct OverallRating {
    pub score_hundredths: u16,
    pub reviewer: String,
    pub review_date: i64,
    pub comments: String,
    pub overall_tags: Vec<String>,
}

pub ghost struct OverallRatingV {
    pub score_hundredths: u16,
    pub reviewer: Seq<char>,
    pub review_date: i64,
    pub comments: Seq<char>,
    pub overall_tags: Seq<Seq<char>>,
}

impl DeepView for OverallRating {
    type V = OverallRatingV;

    open spec fn deep_view(&self) -> OverallRatingV {
        OverallRatingV {
            score_hundredths: self.score_hundredths,
            reviewer: self.reviewer@,
            review_date: self.review_date,
            comments: self.comments@,
            overall_tags: self.overall_tags.deep_view(),
        }
    }
}

pub struct MachineActionable {
    pub is_machine_actionable: bool,
    pub format: Option<String>,
    pub validation_date: Option<i64>,
}

pub ghost struct MachineActionableV {
    pub is_machine_actionable: bool,
    pub format: Option<Seq<char>>,
    pub validation_date: Option<i64>,
}

impl DeepView for MachineActionable {
    type V = MachineActionableV;

    open spec fn deep_view(&self) -> MachineActionableV {
        MachineActionableV {
            is_machine_actionable: self.is_machine_actionable,
            format: self.format.deep_view(),
            validation_date: self.validation_date,
        }
    }
}

pub struct VersionHistory {
    pub version: String,
    pub date: i64,
    pub reviewer: String,
    pub changes: String,
}

pub ghost struct VersionHistoryV {
    pub version: Seq<char>,
    pub date: i64,
    pub reviewer: Seq<char>,
    pub changes: Seq<char>,
}

impl DeepView for VersionHistory {
    type V = VersionHistoryV;

    open spec fn deep_view(&self) -> VersionHistoryV {
        VersionHistoryV {
            version: self.version@,
            date: self.date,
            reviewer: self.reviewer@,
            changes: self.changes@,
        }
    }
}

pub struct Metrics {
    pub completeness_score: Option<u8>,
    pub fair_readiness_level: Option<String>,
    pub reusability_score: Option<u8>,
}

pub ghost struct MetricsV {
    pub completeness_score: Option<u8>,
    pub fair_readiness_level: Option<Seq<char>>,
    pub reusability_score: Option<u8>,
}

impl DeepView for Metrics {
    type V = MetricsV;

    open spec fn deep_view(&self) -> MetricsV {
        MetricsV {
            completeness_score: self.completeness_score,
            fair_readiness_level: self.fair_readiness_level.deep_view(),
            reusability_score: self.reusability_score,
        }
    }
}

/// One DMP review record. `id` is `None` until the store first persists the
/// record, and is never reassigned after that; `dmp_id` is the stable
/// external key by which point lookups and updates resolve the record.
pub struct DataManagementPlan {
    pub id: Option<u64>,
    pub title: String,
    pub dmp_id: Identifier,
    pub authors: Vec<Author>,
    pub project_info: Option<ProjectInfo>,
    pub created_date: i64,
    pub last_modified: i64,
    pub version: String,
    pub overall_rating: Option<OverallRating>,
    pub sections: Vec<Section>,
    pub machine_actionable: Option<MachineActionable>,
    pub history: Option<Vec<VersionHistory>>,
    pub metrics: Option<Metrics>,
    pub related_dmps: Option<Vec<RelatedDMP>>,
    pub related_datasets: Option<Vec<RelatedDataset>>,
    pub related_publications: Option<Vec<RelatedPublication>>,
    pub related_software: Option<Vec<RelatedSoftware>>,
}

pub ghost struct DataManagementPlanV {
    pub id: Option<u64>,
    pub title: Seq<char>,
    pub dmp_id: IdentifierV,
    pub authors: Seq<AuthorV>,
    pub project_info: Option<ProjectInfoV>,
    pub created_date: i64,
    pub last_modified: i64,
    pub version: Seq<char>,
    pub overall_rating: Option<OverallRatingV>,
    pub sections: Seq<SectionV>,
    pub machine_actionable: Option<MachineActionableV>,
    pub history: Option<Seq<VersionHistoryV>>,
    pub metrics: Option<MetricsV>,
    pub related_dmps: Option<Seq<RelatedDMPV>>,
    pub related_datasets: Option<Seq<RelatedDatasetV>>,
    pub related_publications: Option<Seq<RelatedPublicationV>>,
    pub related_software: Option<Seq<RelatedSoftwareV>>,
}

impl DeepView for DataManagementPlan {
    type V = DataManagementPlanV;

    open spec fn deep_view(&self) -> DataManagementPlanV {
        DataManagementPlanV {
            id: self.id,
            title: self.title@,
            dmp_id: self.dmp_id.deep_view(),
            authors: self.authors.deep_view(),
            project_info: self.project_info.deep_view(),
            created_date: self.created_date,
            last_modified: self.last_modified,
            version: self.version@,
            overall_rating: self.overall_rating.deep_view(),
            sections: self.sections.deep_view(),
            machine_actionable: self.machine_actionable.deep_view(),
            history: self.history.deep_view(),
            metrics: self.metrics.deep_view(),
            related_dmps: self.related_dmps.deep_view(),
            related_datasets: self.related_datasets.deep_view(),
            related_publications: self.related_publications.deep_view(),
            related_software: self.related_software.deep_view(),
        }
    }
}

/// After pushing a copy of `v`'s element `i` onto `r_old`, the deep view of
/// the grown vector is one element more of `v`'s deep view.
pub(crate) proof fn lemma_clone_push_take<T: DeepView>(v: Vec<T>, r_old: Vec<T>, r_new: Vec<T>, c: T, i: int)
    requires
        0 <= i < v@.len(),
        r_new@ == r_old@.push(c),
        c.deep_view() == v.deep_view()[i],
        r_old.deep_view() == v.deep_view().take(i),
    ensures
        r_new.deep_view() == v.deep_view().take(i + 1),
{
    assert(r_old.deep_view().len() == i);
    assert(r_old@.len() == r_old.deep_view().len());
    assert(r_new@.len() == r_old@.len() + 1);
    assert(r_new.deep_view().len() == i + 1);
    assert forall|j: int| 0 <= j < i + 1 implies r_new.deep_view()[j] == v.deep_view().take(i + 1)[j] by {
        if j < i {
            assert(r_new@[j] == r_old@[j]);
            assert(r_old.deep_view()[j] == r_old@[j].deep_view());
            assert(r_old.deep_view()[j] == v.deep_view().take(i)[j]);
        } else {
            assert(r_new@[j] == c);
        }
    }
    assert(r_new.deep_view() =~= v.deep_view().take(i + 1));
}

fn clone_opt_string(o: &Option<String>) -> (r: Option<String>)
    ensures
        r.deep_view() == o.deep_view(),
{
    match o {
        Some(s) => Some(s.clone()),
        None => None,
    }
}

fn clone_strings(v: &Vec<String>) -> (r: Vec<String>)
    ensures
        r.deep_view() == v.deep_view(),
{
    let mut r: Vec<String> = Vec::new();
    let mut i: usize = 0;
    while i < v.len()
        invariant
            i <= v.len(),
            r.deep_view() == v.deep_view().take(i as int),
        decreases v.len() - i,
    {
        let ghost r_old = r;
        let c = v[i].clone();
        let ghost cg = c;
        r.push(c);
        proof {
            lemma_clone_push_take(*v, r_old, r, cg, i as int);
        }
        i += 1;
    }
    proof {
        assert(v.deep_view().take(v@.len() as int) =~= v.deep_view());
    }
    r
}

impl Clone for Identifier {
    fn clone(&self) -> (r: Identifier)
        ensures
            r.deep_view() == self.deep_view(),
    {
        Identifier { identifier: self.identifier.clone(), id_type: self.id_type.clone() }
    }
}

impl Clone for Author {
    fn clone(&self) -> (r: Author)
        ensures
            r.deep_view() == self.deep_view(),
    {
        Author {
            name: self.name.clone(),
            affiliation: clone_opt_string(&self.affiliation),
            identifier: clone_opt_string(&self.identifier),
            id_type: self.id_type,
            email: clone_opt_string(&self.email),
        }
    }
}

fn clone_authors(v: &Vec<Author>) -> (r: Vec<Author>)
    ensures
        r.deep_view() == v.deep_view(),
{
    let mut r: Vec<Author> = Vec::new();
    let mut i: usize = 0;
    while i < v.len()
        invariant
            i <= v.len(),
            r.deep_view() == v.deep_view().take(i as int),
        decreases v.len() - i,
    {
        let ghost r_old = r;
        let c = v[i].clone();
        let ghost cg = c;
        r.push(c);
        proof {
            lemma_clone_push_take(*v, r_old, r, cg, i as int);
        }
        i += 1;
    }
    proof {
        assert(v.deep_view().take(v@.len() as int) =~= v.deep_view());
    }
    r
}

impl Clone for ProjectInfo {
    fn clone(&self) -> (r: ProjectInfo)
        ensures
            r.deep_view() == self.deep_view(),
    {
        ProjectInfo {
            project_title: self.project_title.clone(),
            grant_id: clone_opt_string(&self.grant_id),
            funder: clone_opt_string(&self.funder),
            institution: clone_opt_string(&self.institution),
            start_date: self.start_date,
            end_date: self.end_date,
        }
    }
}

impl Clone for RelatedDMP {
    fn clone(&self) -> (r: RelatedDMP)
        ensures
            r.deep_view() == self.deep_view(),
    {
        RelatedDMP {
            dmp_id: self.dmp_id.clone(),
            relationship_type: self.relationship_type.clone(),
            title: self.title.clone(),
            relationship_notes: clone_opt_string(&self.relationship_notes),
        }
    }
}

impl Clone for RelatedDataset {
    fn clone(&self) -> (r: RelatedDataset)
        ensures
            r.deep_view() == self.deep_view(),
    {
        RelatedDataset {
            dataset_id: self.dataset_id.clone(),
            relationship_type: self.relationship_type.clone(),
            title: self.title.clone(),
            repository: clone_opt_string(&self.repository),
            url: clone_opt_string(&self.url),
        }
    }
}

impl Clone for RelatedPublication {
    fn clone(&self) -> (r: RelatedPublication)
        ensures
            r.deep_view() == self.deep_view(),
    {
        RelatedPublication {
            publication_id: self.publication_id.clone(),
            relationship_type: self.relationship_type.clone(),
            title: self.title.clone(),
            authors: clone_strings(&self.authors),
            journal: clone_opt_string(&self.journal),
            publication_date: self.publication_date,
            url: clone_opt_string(&self.url),
        }
    }
}

impl Clone for RelatedSoftware {
    fn clone(&self) -> (r: RelatedSoftware)
        ensures
            r.deep_view() == self.deep_view(),
    {
        RelatedSoftware {
            software_id: self.software_id.clone(),
            name: self.name.clone(),
            version: clone_opt_string(&self.version),
            relationship: self.relationship.clone(),
            url: clone_opt_string(&self.url),
        }
    }
}

impl Clone for SectionCrossReference {
    fn clone(&self) -> (r: SectionCrossReference)
        ensures
            r.deep_view() == self.deep_view(),
    {
        SectionCrossReference {
            section_title: self.section_title.clone(),
            reference_note: self.reference_note.clone(),
        }
    }
}

impl Clone for Subsection {
    fn clone(&self) -> (r: Subsection)
        ensures
            r.deep_view() == self.deep_view(),
    {
        Subsection {
            title: self.title.clone(),
            rating: self.rating,
            tags: clone_strings(&self.tags),
            comments: clone_opt_string(&self.comments),
        }
    }
}

fn clone_subsections(v: &Vec<Subsection>) -> (r: Vec<Subsection>)
    ensures
        r.deep_view() == v.deep_view(),
{
    let mut r: Vec<Subsection> = Vec::new();
    let mut i: usize = 0;
    while i < v.len()
        invariant
            i <= v.len(),
            r.deep_view() == v.deep_view().take(i as int),
        decreases v.len() - i,
    {
        let ghost r_old = r;
        let c = v[i].clone();
        let ghost cg = c;
        r.push(c);
        proof {
            lemma_clone_push_take(*v, r_old, r, cg, i as int);
        }
        i += 1;
    }
    proof {
        assert(v.deep_view().take(v@.len() as int) =~= v.deep_view());
    }
    r
}

fn clone_cross_references(v: &Vec<SectionCrossReference>) -> (r: Vec<SectionCrossReference>)
    ensures
        r.deep_view() == v.deep_view(),
{
    let mut r: Vec<SectionCrossReference> = Vec::new();
    let mut i: usize = 0;
    while i < v.len()
        invariant
            i <= v.len(),
            r.deep_view() == v.deep_view().take(i as int),
        decreases v.len() - i,
    {
        let ghost r_old = r;
        let c = v[i].clone();
        let ghost cg = c;
        r.push(c);
        proof {
            lemma_clone_push_take(*v, r_old, r, cg, i as int);
        }
        i += 1;
    }
    proof {
        assert(v.deep_view().take(v@.len() as int) =~= v.deep_view());
    }
    r
}

impl Clone for Section {
    fn clone(&self) -> (r: Section)
        ensures
            r.deep_view() == self.deep_view(),
    {
        Section {
            title: self.title.clone(),
            rating: self.rating,
            tags: clone_strings(&self.tags),
            comments: clone_opt_string(&self.comments),
            subsections: clone_subsections(&self.subsections),
            cross_references: match &self.cross_references {
                Some(v) => Some(clone_cross_references(v)),
                None => None,
            },
        }
    }
}

fn clone_sections(v: &Vec<Section>) -> (r: Vec<Section>)
    ensures
        r.deep_view() == v.deep_view(),
{
    let mut r: Vec<Section> = Vec::new();
    let mut i: usize = 0;
    while i < v.len()
        invariant
            i <= v.len(),
            r.deep_view() == v.deep_view().take(i as int),
        decreases v.len() - i,
    {
        let ghost r_old = r;
        let c = v[i].clone();
        let ghost cg = c;
        r.push(c);
        proof {
            lemma_clone_push_take(*v, r_old, r, cg, i as int);
        }
        i += 1;
    }
    proof {
        assert(v.deep_view().take(v@.len() as int) =~= v.deep_view());
    }
    r
}

impl Clone for OverallRating {
    fn clone(&self) -> (r: OverallRating)
        ensures
            r.deep_view() == self.deep_view(),
    {
        OverallRating {
            score_hundredths: self.score_hundredths,
            reviewer: self.reviewer.clone(),
            review_date: self.review_date,
            comments: self.comments.clone(),
            overall_tags: clone_strings(&self.overall_tags),
        }
    }
}

impl Clone for MachineActionable {
    fn clone(&self) -> (r: MachineActionable)
        ensures
            r.deep_view() == self.deep_view(),
    {
        MachineActionable {
            is_machine_actionable: self.is_machine_actionable,
            format: clone_opt_string(&self.format),
            validation_date: self.validation_date,
        }
    }
}

impl Clone for VersionHistory {
    fn clone(&self) -> (r: VersionHistory)
        ensures
            r.deep_view() == self.deep_view(),
    {
        VersionHistory {
            version: self.version.clone(),
            date: self.date,
            reviewer: self.reviewer.clone(),
            changes: self.changes.clone(),
        }
    }
}

fn clone_history(v: &Vec<VersionHistory>) -> (r: Vec<VersionHistory>)
    ensures
        r.deep_view() == v.deep_view(),
{
    let mut r: Vec<VersionHistory> = Vec::new();
    let mut i: usize = 0;
    while i < v.len()
        invariant
            i <= v.len(),
            r.deep_view() == v.deep_view().take(i as int),
        decreases v.len() - i,
    {
        let ghost r_old = r;
        let c = v[i].clone();
        let ghost cg = c;
        r.push(c);
        proof {
            lemma_clone_push_take(*v, r_old, r, cg, i as int);
        }
        i += 1;
    }
    proof {
        assert(v.deep_view().take(v@.len() as int) =~= v.deep_view());
    }
    r
}

impl Clone for Metrics {
    fn clone(&self) -> (r: Metrics)
        ensures
            r.deep_view() == self.deep_view(),
    {
        Metrics {
            completeness_score: self.completeness_score,
            fair_readiness_level: clone_opt_string(&self.fair_readiness_level),
            reusability_score: self.reusability_score,
        }
    }
}

fn clone_related_dmps(v: &Vec<RelatedDMP>) -> (r: Vec<RelatedDMP>)
    ensures
        r.deep_view() == v.deep_view(),
{
    let mut r: Vec<RelatedDMP> = Vec::new();
    let mut i: usize = 0;
    while i < v.len()
        invariant
            i <= v.len(),
            r.deep_view() == v.deep_view().take(i as int),
        decreases v.len() - i,
    {
        let ghost r_old = r;
        let c = v[i].clone();
        let ghost cg = c;
        r.push(c);
        proof {
            lemma_clone_push_take(*v, r_old, r, cg, i as int);
        }
        i += 1;
    }
    proof {
        assert(v.deep_view().take(v@.len() as int) =~= v.deep_view());
    }
    r
}

fn clone_related_datasets(v: &Vec<RelatedDataset>) -> (r: Vec<RelatedDataset>)
    ensures
        r.deep_view() == v.deep_view(),
{
    let mut r: Vec<RelatedDataset> = Vec::new();
    let mut i: usize = 0;
    while i < v.len()
        invariant
            i <= v.len(),
            r.deep_view() == v.deep_view().take(i as int),
        decreases v.len() - i,
    {
        let ghost r_old = r;
        let c = v[i].clone();
        let ghost cg = c;
        r.push(c);
        proof {
            lemma_clone_push_take(*v, r_old, r, cg, i as int);
        }
        i += 1;
    }
    proof {
        assert(v.deep_view().take(v@.len() as int) =~= v.deep_view());
    }
    r
}

fn clone_related_publications(v: &Vec<RelatedPublication>) -> (r: Vec<RelatedPublication>)
    ensures
        r.deep_view() == v.deep_view(),
{
    let mut r: Vec<RelatedPublication> = Vec::new();
    let mut i: usize = 0;
    while i < v.len()
        invariant
            i <= v.len(),
            r.deep_view() == v.deep_view().take(i as int),
        decreases v.len() - i,
    {
        let ghost r_old = r;
        let c = v[i].clone();
        let ghost cg = c;
        r.push(c);
        proof {
            lemma_clone_push_take(*v, r_old, r, cg, i as int);
        }
        i += 1;
    }
    proof {
        assert(v.deep_view().take(v@.len() as int) =~= v.deep_view());
    }
    r
}

fn clone_related_software(v: &Vec<RelatedSoftware>) -> (r: Vec<RelatedSoftware>)
    ensures
        r.deep_view() == v.deep_view(),
{
    let mut r: Vec<RelatedSoftware> = Vec::new();
    let mut i: usize = 0;
    while i < v.len()
        invariant
            i <= v.len(),
            r.deep_view() == v.deep_view().take(i as int),
        decreases v.len() - i,
    {
        let ghost r_old = r;
        let c = v[i].clone();
        let ghost cg = c;
        r.push(c);
        proof {
            lemma_clone_push_take(*v, r_old, r, cg, i as int);
        }
        i += 1;
    }
    proof {
        assert(v.deep_view().take(v@.len() as int) =~= v.deep_view());
    }
    r
}

impl Clone for DataManagementPlan {
    fn clone(&self) -> (r: DataManagementPlan)
        ensures
            r.deep_view() == self.deep_view(),
    {
        DataManagementPlan {
            id: self.id,
            title: self.title.clone(),
            dmp_id: self.dmp_id.clone(),
            authors: clone_authors(&self.authors),
            project_info: match &self.project_info {
                Some(p) => Some(p.clone()),
                None => None,
            },
            created_date: self.created_date,
            last_modified: self.last_modified,
            version: self.version.clone(),
            overall_rating: match &self.overall_rating {
                Some(o) => Some(o.clone()),
                None => None,
            },
            sections: clone_sections(&self.sections),
            machine_actionable: match &self.machine_actionable {
                Some(m) => Some(m.clone()),
                None => None,
            },
            history: match &self.history {
                Some(h) => Some(clone_history(h)),
                None => None,
            },
            metrics: match &self.metrics {
                Some(m) => Some(m.clone()),
                None => None,
            },
            related_dmps: match &self.related_dmps {
                Some(v) => Some(clone_related_dmps(v)),
                None => None,
            },
            related_datasets: match &self.related_datasets {
                Some(v) => Some(clone_related_datasets(v)),
                None => None,
            },
            related_publications: match &self.related_publications {
                Some(v) => Some(clone_related_publications(v)),
                None => None,
            },
            related_software: match &self.related_software {
                Some(v) => Some(clone_related_software(v)),
                None => None,
            },
        }
    }
}

/// A rating is a small integer from 1 to 5 when present.
pub open spec fn rating_wf(r: Option<u8>) -> bool {
    match r {
        Some(v) => 1 <= v <= 5,
        None => true,
    }
}

pub open spec fn subsection_wf(s: SubsectionV) -> bool {
    rating_wf(s.rating)
}

pub open spec fn section_wf(s: SectionV) -> bool {
    &&& rating_wf(s.rating)
    &&& forall|i: int| 0 <= i < s.subsections.len() ==> subsection_wf(#[trigger] s.subsections[i])
}

/// The overall score lies between 1.0 and 5.0, carried in hundredths.
pub open spec fn overall_rating_wf(r: OverallRatingV) -> bool {
    100 <= r.score_hundredths <= 500
}

/// A well-formed DMP record: every rating in range, one level of nesting only.
pub open spec fn dmp_wf(d: DataManagementPlanV) -> bool {
    &&& forall|i: int| 0 <= i < d.sections.len() ==> section_wf(#[trigger] d.sections[i])
    &&& match d.overall_rating {
        Some(r) => overall_rating_wf(r),
        None => true,
    }
}

} // verus!
