//! The DMP record store: an ordered collection of DMP review records with
//! store-minted identities.
//!
//! The store's view is the sequence of record views, in insertion order
//! (the store-natural order). Identities are canonical: the record at
//! position `i` carries identity `i`, so every identity is assigned exactly
//! once and never reassigned, and freshly minted identities are distinct
//! from all earlier ones.

use vstd::prelude::*;

use crate::model::lemma_clone_push_take;
use crate::model::DataManagementPlan;
use crate::model::DataManagementPlanV;
use crate::model::Section;
use crate::model::SectionV;
use crate::text::str_equal;
use vstd::pervasive::VecAdditionalExecFns;

verus! {

/// The error a query surfaces when its arguments name no known entity kind.
#[derive(Clone, Copy, PartialEq, Eq, Structural, Debug)]
pub enum StoreError {
    InvalidArgument,
}

/// The closed set of related-entity kinds a DMP may be queried by.
#[derive(Clone, Copy, PartialEq, Eq, Structural, Debug)]
pub enum EntityKind {
    Dataset,
    Publication,
    Software,
    Dmp,
}

/// The record identified by the `(identifier, id_type)` pair.
pub open spec fn matches_id_pair(d: DataManagementPlanV, ident: Seq<char>, idt: Seq<char>) -> bool {
    d.dmp_id.identifier == ident && d.dmp_id.id_type == idt
}

/// A section whose title equals `title` and whose tag list contains `tag`,
/// both by exact, case-sensitive comparison.
pub open spec fn section_matches_tag(s: SectionV, title: Seq<char>, tag: Seq<char>) -> bool {
    s.title == title && s.tags.contains(tag)
}

pub open spec fn dmp_matches_tag(d: DataManagementPlanV, title: Seq<char>, tag: Seq<char>) -> bool {
    exists|i: int|
        0 <= i < d.sections.len() && section_matches_tag(#[trigger] d.sections[i], title, tag)
}

/// A section whose title equals `title` and whose rating is present and at
/// least `min` (inclusive).
pub open spec fn section_matches_min_rating(s: SectionV, title: Seq<char>, min: u8) -> bool {
    s.title == title && match s.rating {
        Some(r) => r >= min,
        None => false,
    }
}

pub open spec fn dmp_matches_min_rating(d: DataManagementPlanV, title: Seq<char>, min: u8) -> bool {
    exists|i: int|
        0 <= i < d.sections.len() && section_matches_min_rating(
            #[trigger] d.sections[i],
            title,
            min,
        )
}

/// A DMP whose related-entity list of the given kind holds an entry whose
/// nested identifier text equals `ident` (the entry's id type plays no part).
pub open spec fn dmp_matches_related(
    d: DataManagementPlanV,
    kind: EntityKind,
    ident: Seq<char>,
) -> bool {
    match kind {
        EntityKind::Dataset => match d.related_datasets {
            Some(v) => exists|i: int|
                0 <= i < v.len() && (#[trigger] v[i]).dataset_id.identifier == ident,
            None => false,
        },
        EntityKind::Publication => match d.related_publications {
            Some(v) => exists|i: int|
                0 <= i < v.len() && (#[trigger] v[i]).publication_id.identifier == ident,
            None => false,
        },
        EntityKind::Software => match d.related_software {
            Some(v) => exists|i: int|
                0 <= i < v.len() && (#[trigger] v[i]).software_id.identifier == ident,
            None => false,
        },
        EntityKind::Dmp => match d.related_dmps {
            Some(v) => exists|i: int|
                0 <= i < v.len() && (#[trigger] v[i]).dmp_id.identifier == ident,
            None => false,
        },
    }
}

/// The entity kind named by the query string, if any.
pub open spec fn entity_kind_of(s: Seq<char>) -> Option<EntityKind> {
    if s == "dataset"@ {
        Some(EntityKind::Dataset)
    } else if s == "publication"@ {
        Some(EntityKind::Publication)
    } else if s == "software"@ {
        Some(EntityKind::Software)
    } else if s == "dmp"@ {
        Some(EntityKind::Dmp)
    } else {
        None
    }
}

/// The records of `s` with a section titled `title` carrying tag `tag`,
/// in store order.
pub open spec fn dmps_matching_tag(
    s: Seq<DataManagementPlanV>,
    title: Seq<char>,
    tag: Seq<char>,
) -> Seq<DataManagementPlanV>
    decreases s.len(),
{
    if s.len() == 0 {
        Seq::empty()
    } else {
        let rest = dmps_matching_tag(s.drop_last(), title, tag);
        if dmp_matches_tag(s.last(), title, tag) {
            rest.push(s.last())
        } else {
            rest
        }
    }
}

/// The records of `s` with a section titled `title` rated at least `min`,
/// in store order.
pub open spec fn dmps_matching_min_rating(
    s: Seq<DataManagementPlanV>,
    title: Seq<char>,
    min: u8,
) -> Seq<DataManagementPlanV>
    decreases s.len(),
{
    if s.len() == 0 {
        Seq::empty()
    } else {
        let rest = dmps_matching_min_rating(s.drop_last(), title, min);
        if dmp_matches_min_rating(s.last(), title, min) {
            rest.push(s.last())
        } else {
            rest
        }
    }
}

/// The records of `s` related to the given entity, in store order.
pub open spec fn dmps_matching_related(
    s: Seq<DataManagementPlanV>,
    kind: EntityKind,
    ident: Seq<char>,
) -> Seq<DataManagementPlanV>
    decreases s.len(),
{
    if s.len() == 0 {
        Seq::empty()
    } else {
        let rest = dmps_matching_related(s.drop_last(), kind, ident);
        if dmp_matches_related(s.last(), kind, ident) {
            rest.push(s.last())
        } else {
            rest
        }
    }
}

/// The record with its identity replaced, all other content unchanged.
pub open spec fn with_id(d: DataManagementPlanV, id: Option<u64>) -> DataManagementPlanV {
    DataManagementPlanV { id, ..d }
}

/// A well-formed store with mint counter `next`: every record's identity
/// is assigned, lies below the counter, and no two records share one.
pub open spec fn dmp_store_wf(s: Seq<DataManagementPlanV>, next: u64) -> bool {
    &&& forall|i: int| 0 <= i < s.len() ==> (#[trigger] s[i]).id is Some
    &&& forall|i: int| 0 <= i < s.len() ==> (#[trigger] s[i]).id.unwrap() < next
    &&& forall|i: int, j: int| 0 <= i < j < s.len() ==> s[i].id != s[j].id
}

/// The least bound above every identity the records carry; records whose
/// identity field is absent impose none.
pub open spec fn carried_id_bound(s: Seq<DataManagementPlanV>) -> int
    decreases s.len(),
{
    if s.len() == 0 {
        0
    } else {
        let rest = carried_id_bound(s.drop_last());
        let last = match s.last().id {
            Some(v) => v as int + 1,
            None => 0,
        };
        if rest >= last {
            rest
        } else {
            last
        }
    }
}

/// Every carried identity lies below the carried bound.
pub proof fn lemma_carried_id_bound(s: Seq<DataManagementPlanV>, j: int)
    requires
        0 <= j < s.len(),
    ensures
        match s[j].id {
            Some(v) => (v as int) < carried_id_bound(s),
            None => true,
        },
        carried_id_bound(s) >= 0,
    decreases s.len(),
{
    if j < s.len() - 1 {
        lemma_carried_id_bound(s.drop_last(), j);
        assert(s.drop_last()[j] == s[j]);
    }
}

/// The carried bound never shrinks as the batch grows.
pub proof fn lemma_carried_bound_take(s: Seq<DataManagementPlanV>, k: int)
    requires
        0 <= k <= s.len(),
    ensures
        carried_id_bound(s.take(k)) <= carried_id_bound(s),
    decreases s.len() - k,
{
    if k == s.len() {
        assert(s.take(k) =~= s);
    } else {
        lemma_carried_bound_take(s, k + 1);
        assert(s.take(k + 1).drop_last() =~= s.take(k));
    }
}

/// Where an import starts minting: at the store's counter, or above every
/// identity the batch carries, whichever is higher.
pub open spec fn import_base(next: u64, recs: Seq<DataManagementPlanV>) -> int {
    let b = carried_id_bound(recs);
    if next as int >= b {
        next as int
    } else {
        b
    }
}

pub struct DmpStore {
    records: Vec<DataManagementPlan>,
    next_id: u64,
}

impl View for DmpStore {
    type V = Seq<DataManagementPlanV>;

    closed spec fn view(&self) -> Seq<DataManagementPlanV> {
        self.records.deep_view()
    }
}

impl DmpStore {
    /// The identity the store will mint next.
    pub closed spec fn spec_next_id(&self) -> u64 {
        self.next_id
    }

    /// The store's invariant: identities assigned, below the mint counter,
    /// and pairwise distinct.
    pub open spec fn wf(&self) -> bool {
        dmp_store_wf(self@, self.spec_next_id())
    }

    /// An empty store.
    pub fn new() -> (s: DmpStore)
        ensures
            s@ == Seq::<DataManagementPlanV>::empty(),
            s.wf(),
            s.spec_next_id() == 0,
    {
        let s = DmpStore { records: Vec::new(), next_id: 0 };
        proof {
            assert(s@ =~= Seq::<DataManagementPlanV>::empty());
        }
        s
    }

    /// How many records the store holds.
    pub fn len(&self) -> (n: usize)
        ensures
            n == self@.len(),
    {
        self.records.len()
    }

    /// Persists the record under a freshly minted identity and returns that
    /// identity. The identity comes off the store's mint counter, so it
    /// differs from the identity of every record already present; whatever
    /// identity the argument carried is discarded.
    pub fn add_dmp(&mut self, dmp: DataManagementPlan) -> (id: u64)
        requires
            old(self).wf(),
            old(self).spec_next_id() < u64::MAX,
        ensures
            final(self).wf(),
            id == old(self).spec_next_id(),
            final(self).spec_next_id() == id + 1,
            final(self)@ == old(self)@.push(with_id(dmp.deep_view(), Some(id))),
            forall|j: int| 0 <= j < old(self)@.len() ==> (#[trigger] old(self)@[j]).id != Some(id),
    {
        let id: u64 = self.next_id;
        let mut dmp = dmp;
        dmp.id = Some(id);
        self.records.push(dmp);
        self.next_id = id + 1;
        proof {
            assert(final(self)@ =~= old(self)@.push(
                with_id(dmp.deep_view(), Some(id)),
            )) by {
                assert forall|j: int| 0 <= j < old(self)@.len() implies final(self)@[j] == old(
                    self,
                )@[j] by {
                    assert(self.records@[j] == old(self).records@[j]);
                }
            }
            assert forall|i: int, j: int| 0 <= i < j < final(self)@.len() implies
                final(self)@[i].id != final(self)@[j] .id by {
                if j < old(self)@.len() {
                } else {
                    assert(final(self)@[j].id == Some(id));
                    assert(final(self)@[i].id == old(self)@[i].id);
                }
            }
        }
        id
    }

    /// Hands out the whole collection, record for record, in store order.
    pub fn export_all_dmps(&self) -> (r: Vec<DataManagementPlan>)
        ensures
            r.deep_view() == self@,
    {
        let v = &self.records;
        let mut r: Vec<DataManagementPlan> = Vec::new();
        let mut i: usize = 0;
        while i < v.len()
            invariant
                i <= v.len(),
                r.deep_view() == v.deep_view().take(i as int),
            decreases v.len() - i,
        {
            let ghost r_old = r;
            let c = v[i].clone();
            let ghost cg = c;
            r.push(c);
            proof {
                lemma_clone_push_take(*v, r_old, r, cg, i as int);
            }
            i += 1;
        }
        proof {
            assert(v.deep_view().take(v@.len() as int) =~= v.deep_view());
        }
        r
    }

    /// Inserts every given record, in order, each under a freshly minted
    /// identity: the mint counter is first raised above every identity the
    /// batch carries, so whatever identity a record carried on the way in
    /// is discarded and no minted identity equals a carried or an existing
    /// one. Returns how many records were inserted; an empty batch inserts
    /// nothing and returns zero.
    #[verifier::loop_isolation(false)]
    pub fn import_records(&mut self, records: Vec<DataManagementPlan>) -> (count: usize)
        requires
            old(self).wf(),
            import_base(old(self).spec_next_id(), records.deep_view()) + records@.len()
                <= u64::MAX as int,
        ensures
            final(self).wf(),
            count == records@.len(),
            final(self)@.len() == old(self)@.len() + records@.len(),
            final(self).spec_next_id() as int == import_base(
                old(self).spec_next_id(),
                records.deep_view(),
            ) + records@.len(),
            forall|i: int| 0 <= i < old(self)@.len() ==> final(self)@[i] == old(self)@[i],
            forall|i: int|
                0 <= i < records@.len() ==> final(self)@[old(self)@.len() + i] == with_id(
                    records.deep_view()[i],
                    Some(
                        (import_base(old(self).spec_next_id(), records.deep_view()) + i) as u64,
                    ),
                ),
            forall|i: int, j: int|
                #![trigger final(self)@[old(self)@.len() + i], records.deep_view()[j]]
                0 <= i < records@.len() && 0 <= j < records@.len() ==>
                    final(self)@[old(self)@.len() + i].id != records.deep_view()[j].id,
            forall|i: int, j: int|
                #![trigger final(self)@[old(self)@.len() + i], old(self)@[j]]
                0 <= i < records@.len() && 0 <= j < old(self)@.len() ==>
                    final(self)@[old(self)@.len() + i].id != old(self)@[j].id,
    {
        let ghost recs = records.deep_view();
        let ghost base = import_base(old(self).spec_next_id(), recs);
        let mut bound: u64 = self.next_id;
        let mut j: usize = 0;
        while j < records.len()
            invariant
                j <= records@.len(),
                bound as int == import_base(old(self).spec_next_id(), recs.take(j as int)),
                bound as int <= base,
            decreases records@.len() - j,
        {
            proof {
                assert(recs.take(j as int + 1).drop_last() =~= recs.take(j as int));
                assert(recs.take(j as int + 1).last() == recs[j as int]);
                assert(recs[j as int] == records@[j as int].deep_view());
                assert(recs.take(records@.len() as int) =~= recs);
                lemma_carried_bound_take(recs, j as int + 1);
            }
            if let Some(v) = records[j].id {
                proof {
                    lemma_carried_id_bound(recs, j as int);
                }
                if v >= bound {
                    bound = v + 1;
                }
            }
            j += 1;
        }
        proof {
            assert(recs.take(records@.len() as int) =~= recs);
        }
        self.next_id = bound;
        let ghost s0 = old(self)@;
        let mut count: usize = 0;
        let mut i: usize = 0;
        while i < records.len()
            invariant
                self.wf(),
                i <= records@.len(),
                count == i,
                self@.len() == s0.len() + i,
                self.spec_next_id() as int == base + i,
                forall|k: int| 0 <= k < s0.len() ==> self@[k] == s0[k],
                forall|k: int|
                    0 <= k < i ==> #[trigger] self@[s0.len() + k] == with_id(
                        recs[k],
                        Some((base + k) as u64),
                    ),
            decreases records@.len() - i,
        {
            let rec = records[i].clone();
            self.add_dmp(rec);
            count += 1;
            i += 1;
        }
        proof {
            assert forall|a: int, b: int|
                #![trigger self@[s0.len() + a], recs[b]]
                0 <= a < recs.len() && 0 <= b < recs.len() implies self@[s0.len() + a].id
                != recs[b].id by {
                lemma_carried_id_bound(recs, b);
                assert(self@[s0.len() + a] == with_id(recs[a], Some((base + a) as u64)));
                assert(self@[s0.len() + a].id == Some((base + a) as u64));
            }
            assert forall|a: int, b: int|
                #![trigger self@[s0.len() + a], s0[b]]
                0 <= a < recs.len() && 0 <= b < s0.len() implies self@[s0.len() + a].id
                != s0[b].id by {
                assert(s0[b].id.unwrap() < old(self).spec_next_id());
                assert(self@[s0.len() + a] == with_id(recs[a], Some((base + a) as u64)));
                assert(self@[s0.len() + a].id == Some((base + a) as u64));
            }
        }
        count
    }

    /// Every record having at least one section whose title equals
    /// `section_title` and whose tags contain `tag`, by exact case-sensitive
    /// match, in store order.
    pub fn find_dmps_by_section_tag(&self, section_title: &str, tag: &str) -> (r: Vec<
        DataManagementPlan,
    >)
        ensures
            r.deep_view() == dmps_matching_tag(self@, section_title@, tag@),
    {
        let v = &self.records;
        let mut r: Vec<DataManagementPlan> = Vec::new();
        let mut i: usize = 0;
        while i < v.len()
            invariant
                i <= v.len(),
                v.deep_view() == self@,
                r.deep_view() == dmps_matching_tag(self@.take(i as int), section_title@, tag@),
            decreases v.len() - i,
        {
            proof {
                lemma_matching_tag_step(self@, section_title@, tag@, i as int);
            }
            if dmp_matches_tag_exec(&v[i], section_title, tag) {
                r.push(v[i].clone());
            }
            i += 1;
        }
        proof {
            assert(self@.take(self@.len() as int) =~= self@);
        }
        r
    }

    /// Every record having at least one section whose title equals
    /// `section_title` and whose rating is present and at least `min_rating`
    /// (inclusive), in store order.
    pub fn find_dmps_by_rating(&self, section_title: &str, min_rating: u8) -> (r: Vec<
        DataManagementPlan,
    >)
        ensures
            r.deep_view() == dmps_matching_min_rating(self@, section_title@, min_rating),
    {
        let v = &self.records;
        let mut r: Vec<DataManagementPlan> = Vec::new();
        let mut i: usize = 0;
        while i < v.len()
            invariant
                i <= v.len(),
                v.deep_view() == self@,
                r.deep_view() == dmps_matching_min_rating(
                    self@.take(i as int),
                    section_title@,
                    min_rating,
                ),
            decreases v.len() - i,
        {
            proof {
                lemma_matching_min_rating_step(self@, section_title@, min_rating, i as int);
            }
            if dmp_matches_min_rating_exec(&v[i], section_title, min_rating) {
                r.push(v[i].clone());
            }
            i += 1;
        }
        proof {
            assert(self@.take(self@.len() as int) =~= self@);
        }
        r
    }

    /// Every record whose related-entity list of the kind named by
    /// `entity_type` holds an entry with nested identifier `entity_id`, in
    /// store order. An unknown kind fails with `InvalidArgument` and no
    /// records are searched.
    pub fn find_dmps_by_related_entity(&self, entity_type: &str, entity_id: &str) -> (r: Result<
        Vec<DataManagementPlan>,
        StoreError,
    >)
        ensures
            match r {
                Ok(v) => {
                    &&& entity_kind_of(entity_type@) is Some
                    &&& v.deep_view() == dmps_matching_related(
                        self@,
                        entity_kind_of(entity_type@).unwrap(),
                        entity_id@,
                    )
                },
                Err(e) => entity_kind_of(entity_type@) is None && e == StoreError::InvalidArgument,
            },
    {
        let kind = match parse_entity_kind(entity_type) {
            Some(k) => k,
            None => {
                return Err(StoreError::InvalidArgument);
            },
        };
        let v = &self.records;
        let mut r: Vec<DataManagementPlan> = Vec::new();
        let mut i: usize = 0;
        while i < v.len()
            invariant
                i <= v.len(),
                v.deep_view() == self@,
                kind == entity_kind_of(entity_type@).unwrap(),
                entity_kind_of(entity_type@) is Some,
                r.deep_view() == dmps_matching_related(self@.take(i as int), kind, entity_id@),
            decreases v.len() - i,
        {
            proof {
                lemma_matching_related_step(self@, kind, entity_id@, i as int);
            }
            if dmp_matches_related_exec(&v[i], kind, entity_id) {
                r.push(v[i].clone());
            }
            i += 1;
        }
        proof {
            assert(self@.take(self@.len() as int) =~= self@);
        }
        Ok(r)
    }
}

/// Unfolds one step of a matching-records sequence at a prefix boundary.
proof fn lemma_matching_tag_step(s: Seq<DataManagementPlanV>, title: Seq<char>, tag: Seq<char>, i: int)
    requires
        0 <= i < s.len(),
    ensures
        dmps_matching_tag(s.take(i + 1), title, tag) == if dmp_matches_tag(s[i], title, tag) {
            dmps_matching_tag(s.take(i), title, tag).push(s[i])
        } else {
            dmps_matching_tag(s.take(i), title, tag)
        },
{
    assert(s.take(i + 1).drop_last() =~= s.take(i));
    assert(s.take(i + 1).last() == s[i]);
}

proof fn lemma_matching_min_rating_step(s: Seq<DataManagementPlanV>, title: Seq<char>, min: u8, i: int)
    requires
        0 <= i < s.len(),
    ensures
        dmps_matching_min_rating(s.take(i + 1), title, min) == if dmp_matches_min_rating(
            s[i],
            title,
            min,
        ) {
            dmps_matching_min_rating(s.take(i), title, min).push(s[i])
        } else {
            dmps_matching_min_rating(s.take(i), title, min)
        },
{
    assert(s.take(i + 1).drop_last() =~= s.take(i));
    assert(s.take(i + 1).last() == s[i]);
}

proof fn lemma_matching_related_step(s: Seq<DataManagementPlanV>, kind: EntityKind, ident: Seq<char>, i: int)
    requires
        0 <= i < s.len(),
    ensures
        dmps_matching_related(s.take(i + 1), kind, ident) == if dmp_matches_related(
            s[i],
            kind,
            ident,
        ) {
            dmps_matching_related(s.take(i), kind, ident).push(s[i])
        } else {
            dmps_matching_related(s.take(i), kind, ident)
        },
{
    assert(s.take(i + 1).drop_last() =~= s.take(i));
    assert(s.take(i + 1).last() == s[i]);
}

/// Whether the tag list contains `x`, by exact comparison.
pub(crate) fn contains_string(v: &Vec<String>, x: &str) -> (b: bool)
    ensures
        b == v.deep_view().contains(x@),
{
    let mut i: usize = 0;
    while i < v.len()
        invariant
            i <= v.len(),
            forall|j: int| 0 <= j < i ==> v.deep_view()[j] != x@,
        decreases v.len() - i,
    {
        if str_equal(v[i].as_str(), x) {
            proof {
                assert(v.deep_view()[i as int] == x@);
            }
            return true;
        }
        i += 1;
    }
    proof {
        assert forall|j: int| 0 <= j < v.deep_view().len() implies v.deep_view()[j] != x@ by {}
    }
    false
}

/// Whether the section's title is `title` and its tags contain `tag`.
pub(crate) fn section_matches_tag_exec(s: &Section, title: &str, tag: &str) -> (b: bool)
    ensures
        b == section_matches_tag(s.deep_view(), title@, tag@),
{
    if !str_equal(s.title.as_str(), title) {
        return false;
    }
    contains_string(&s.tags, tag)
}

/// Whether some section of the record matches the tag query.
pub(crate) fn dmp_matches_tag_exec(d: &DataManagementPlan, title: &str, tag: &str) -> (b: bool)
    ensures
        b == dmp_matches_tag(d.deep_view(), title@, tag@),
{
    let v = &d.sections;
    let mut i: usize = 0;
    while i < v.len()
        invariant
            i <= v.len(),
            v.deep_view() == d.deep_view().sections,
            forall|j: int|
                0 <= j < i ==> !section_matches_tag(
                    #[trigger] d.deep_view().sections[j],
                    title@,
                    tag@,
                ),
        decreases v.len() - i,
    {
        proof {
            assert(v.deep_view()[i as int] == v@[i as int].deep_view());
        }
        if section_matches_tag_exec(&v[i], title, tag) {
            return true;
        }
        i += 1;
    }
    false
}

/// Whether the section's title is `title` and its rating at least `min`.
pub(crate) fn section_matches_min_rating_exec(s: &Section, title: &str, min: u8) -> (b: bool)
    ensures
        b == section_matches_min_rating(s.deep_view(), title@, min),
{
    if !str_equal(s.title.as_str(), title) {
        return false;
    }
    match s.rating {
        Some(r) => r >= min,
        None => false,
    }
}

/// Whether some section of the record matches the threshold query.
pub(crate) fn dmp_matches_min_rating_exec(d: &DataManagementPlan, title: &str, min: u8) -> (b: bool)
    ensures
        b == dmp_matches_min_rating(d.deep_view(), title@, min),
{
    let v = &d.sections;
    let mut i: usize = 0;
    while i < v.len()
        invariant
            i <= v.len(),
            v.deep_view() == d.deep_view().sections,
            forall|j: int|
                0 <= j < i ==> !section_matches_min_rating(
                    #[trigger] d.deep_view().sections[j],
                    title@,
                    min,
                ),
        decreases v.len() - i,
    {
        proof {
            assert(v.deep_view()[i as int] == v@[i as int].deep_view());
        }
        if section_matches_min_rating_exec(&v[i], title, min) {
            return true;
        }
        i += 1;
    }
    false
}

/// The explicit, fallible parse of a related-entity kind.
pub fn parse_entity_kind(s: &str) -> (r: Option<EntityKind>)
    ensures
        r == entity_kind_of(s@),
{
    if str_equal(s, "dataset") {
        Some(EntityKind::Dataset)
    } else if str_equal(s, "publication") {
        Some(EntityKind::Publication)
    } else if str_equal(s, "software") {
        Some(EntityKind::Software)
    } else if str_equal(s, "dmp") {
        Some(EntityKind::Dmp)
    } else {
        None
    }
}

/// Whether the record's related-entity list of the given kind holds an
/// entry whose nested identifier equals `ident`.
#[verifier::loop_isolation(false)]
pub(crate) fn dmp_matches_related_exec(d: &DataManagementPlan, kind: EntityKind, ident: &str) -> (b: bool)
    ensures
        b == dmp_matches_related(d.deep_view(), kind, ident@),
{
    match kind {
        EntityKind::Dataset => match &d.related_datasets {
            Some(v) => {
                let mut i: usize = 0;
                while i < v.len()
                    invariant
                        i <= v.len(),
                        d.deep_view().related_datasets == Some(v.deep_view()),
                        forall|j: int|
                            0 <= j < i ==> (#[trigger] v.deep_view()[j]).dataset_id.identifier
                                != ident@,
                    decreases v.len() - i,
                {
                    proof {
                        assert(v.deep_view()[i as int] == v@[i as int].deep_view());
                    }
                    if str_equal(v[i].dataset_id.identifier.as_str(), ident) {
                        proof {
                            assert(v@[i as int].deep_view().dataset_id.identifier == ident@);
                            assert((#[trigger] v.deep_view()[i as int]).dataset_id.identifier == ident@);
                            assert(d.deep_view().related_datasets == Some(v.deep_view()));
                            assert(v.deep_view().len() == v@.len());
                            assert(dmp_matches_related(d.deep_view(), kind, ident@));
                        }
                        return true;
                    }
                    i += 1;
                }
                false
            },
            None => false,
        },
        EntityKind::Publication => match &d.related_publications {
            Some(v) => {
                let mut i: usize = 0;
                while i < v.len()
                    invariant
                        i <= v.len(),
                        d.deep_view().related_publications == Some(v.deep_view()),
                        forall|j: int|
                            0 <= j < i ==> (#[trigger] v.deep_view()[j]).publication_id.identifier
                                != ident@,
                    decreases v.len() - i,
                {
                    proof {
                        assert(v.deep_view()[i as int] == v@[i as int].deep_view());
                    }
                    if str_equal(v[i].publication_id.identifier.as_str(), ident) {
                        proof {
                            assert(v@[i as int].deep_view().publication_id.identifier == ident@);
                            assert((#[trigger] v.deep_view()[i as int]).publication_id.identifier == ident@);
                            assert(d.deep_view().related_publications == Some(v.deep_view()));
                            assert(v.deep_view().len() == v@.len());
                            assert(dmp_matches_related(d.deep_view(), kind, ident@));
                        }
                        return true;
                    }
                    i += 1;
                }
                false
            },
            None => false,
        },
        EntityKind::Software => match &d.related_software {
            Some(v) => {
                let mut i: usize = 0;
                while i < v.len()
                    invariant
                        i <= v.len(),
                        d.deep_view().related_software == Some(v.deep_view()),
                        forall|j: int|
                            0 <= j < i ==> (#[trigger] v.deep_view()[j]).software_id.identifier
                                != ident@,
                    decreases v.len() - i,
                {
                    proof {
                        assert(v.deep_view()[i as int] == v@[i as int].deep_view());
                    }
                    if str_equal(v[i].software_id.identifier.as_str(), ident) {
                        proof {
                            assert(v@[i as int].deep_view().software_id.identifier == ident@);
                            assert((#[trigger] v.deep_view()[i as int]).software_id.identifier == ident@);
                            assert(d.deep_view().related_software == Some(v.deep_view()));
                            assert(v.deep_view().len() == v@.len());
                            assert(dmp_matches_related(d.deep_view(), kind, ident@));
                        }
                        return true;
                    }
                    i += 1;
                }
                false
            },
            None => false,
        },
        EntityKind::Dmp => match &d.related_dmps {
            Some(v) => {
                let mut i: usize = 0;
                while i < v.len()
                    invariant
                        i <= v.len(),
                        d.deep_view().related_dmps == Some(v.deep_view()),
                        forall|j: int|
                            0 <= j < i ==> (#[trigger] v.deep_view()[j]).dmp_id.identifier
                                != ident@,
                    decreases v.len() - i,
                {
                    proof {
                        assert(v.deep_view()[i as int] == v@[i as int].deep_view());
                    }
                    if str_equal(v[i].dmp_id.identifier.as_str(), ident) {
                        proof {
                            assert(v@[i as int].deep_view().dmp_id.identifier == ident@);
                            assert((#[trigger] v.deep_view()[i as int]).dmp_id.identifier == ident@);
                            assert(d.deep_view().related_dmps == Some(v.deep_view()));
                            assert(v.deep_view().len() == v@.len());
                            assert(dmp_matches_related(d.deep_view(), kind, ident@));
                        }
                        return true;
                    }
                    i += 1;
                }
                false
            },
            None => false,
        },
    }
}

} // verus!

verus! {

/// `j` is the first position in `secs` whose title equals `title`.
pub open spec fn is_first_section_index(secs: Seq<SectionV>, title: Seq<char>, j: int) -> bool {
    &&& 0 <= j < secs.len()
    &&& secs[j].title == title
    &&& forall|k: int| 0 <= k < j ==> (#[trigger] secs[k]).title != title
}

/// The record has a section titled `title` (equivalently, a first one).
pub open spec fn dmp_has_section(d: DataManagementPlanV, title: Seq<char>) -> bool {
    exists|j: int| is_first_section_index(d.sections, title, j)
}

/// `i` is the first position in `s` whose record matches the identifier
/// pair and has a section titled `title`: the position the update touches.
pub open spec fn is_first_update_index(
    s: Seq<DataManagementPlanV>,
    ident: Seq<char>,
    idt: Seq<char>,
    title: Seq<char>,
    i: int,
) -> bool {
    &&& 0 <= i < s.len()
    &&& matches_id_pair(s[i], ident, idt)
    &&& dmp_has_section(s[i], title)
    &&& forall|k: int|
        0 <= k < i ==> !(matches_id_pair(#[trigger] s[k], ident, idt) && dmp_has_section(
            s[k],
            title,
        ))
}

/// The section with its rating and comments overwritten.
pub open spec fn updated_section(s: SectionV, rating: u8, comments: Seq<char>) -> SectionV {
    SectionV { rating: Some(rating), comments: Some(comments), ..s }
}

/// The record with its first section titled `title` overwritten and its
/// last-modified stamp refreshed; identity and creation date unchanged.
pub open spec fn updated_dmp(
    d: DataManagementPlanV,
    title: Seq<char>,
    rating: u8,
    comments: Seq<char>,
    now: i64,
) -> DataManagementPlanV {
    let j = choose|j: int| is_first_section_index(d.sections, title, j);
    DataManagementPlanV {
        sections: d.sections.update(j, updated_section(d.sections[j], rating, comments)),
        last_modified: now,
        ..d
    }
}

/// Whether the update touches any record at all.
pub open spec fn update_rating_modified(
    s: Seq<DataManagementPlanV>,
    ident: Seq<char>,
    idt: Seq<char>,
    title: Seq<char>,
) -> bool {
    exists|i: int| is_first_update_index(s, ident, idt, title, i)
}

/// The store contents after the update: the first record matching the
/// identifier pair and holding the section is rewritten, everything else
/// stands; a miss leaves the store unchanged.
pub open spec fn update_rating_result(
    s: Seq<DataManagementPlanV>,
    ident: Seq<char>,
    idt: Seq<char>,
    title: Seq<char>,
    rating: u8,
    comments: Seq<char>,
    now: i64,
) -> Seq<DataManagementPlanV> {
    if update_rating_modified(s, ident, idt, title) {
        let i = choose|i: int| is_first_update_index(s, ident, idt, title, i);
        s.update(i, updated_dmp(s[i], title, rating, comments, now))
    } else {
        s
    }
}

/// The first record matching the identifier pair, if any, in store order.
pub open spec fn find_first_by_id(
    s: Seq<DataManagementPlanV>,
    ident: Seq<char>,
    idt: Seq<char>,
) -> Option<DataManagementPlanV>
    decreases s.len(),
{
    if s.len() == 0 {
        None
    } else if matches_id_pair(s[0], ident, idt) {
        Some(s[0])
    } else {
        find_first_by_id(s.drop_first(), ident, idt)
    }
}

/// Scanning past a prefix free of matches leaves the first match unchanged.
pub(crate) proof fn lemma_find_first_by_id_skip(
    s: Seq<DataManagementPlanV>,
    ident: Seq<char>,
    idt: Seq<char>,
    i: int,
)
    requires
        0 <= i <= s.len(),
        forall|j: int| 0 <= j < i ==> !matches_id_pair(#[trigger] s[j], ident, idt),
    ensures
        find_first_by_id(s, ident, idt) == find_first_by_id(s.skip(i), ident, idt),
    decreases i,
{
    if i == 0 {
        assert(s.skip(0) =~= s);
    } else {
        lemma_find_first_by_id_skip(s, ident, idt, i - 1);
        assert(s.skip(i - 1).len() > 0);
        assert(s.skip(i - 1)[0] == s[i - 1]);
        assert(s.skip(i - 1).drop_first() =~= s.skip(i));
    }
}

/// Whether the record is the one the identifier pair names.
pub(crate) fn matches_id_pair_exec(d: &DataManagementPlan, ident: &str, idt: &str) -> (b: bool)
    ensures
        b == matches_id_pair(d.deep_view(), ident@, idt@),
{
    str_equal(d.dmp_id.identifier.as_str(), ident) && str_equal(d.dmp_id.id_type.as_str(), idt)
}

/// The position of the first section titled `title`, if any.
#[verifier::loop_isolation(false)]
fn find_section_index(secs: &Vec<Section>, title: &str) -> (r: Option<usize>)
    ensures
        match r {
            Some(j) => is_first_section_index(secs.deep_view(), title@, j as int),
            None => forall|j: int|
                0 <= j < secs.deep_view().len() ==> (#[trigger] secs.deep_view()[j]).title
                    != title@,
        },
{
    let mut i: usize = 0;
    while i < secs.len()
        invariant
            i <= secs.len(),
            forall|k: int| 0 <= k < i ==> (#[trigger] secs.deep_view()[k]).title != title@,
        decreases secs.len() - i,
    {
        proof {
            assert(secs.deep_view()[i as int] == secs@[i as int].deep_view());
        }
        if str_equal(secs[i].title.as_str(), title) {
            return Some(i);
        }
        i += 1;
    }
    None
}

impl DmpStore {
    /// The first record matching the `(identifier, id_type)` pair, if one
    /// exists; `None` (not an error) when none does. Duplicate pairs are not
    /// prevented, so the first match in store order is the one returned.
    #[verifier::loop_isolation(false)]
    pub fn find_dmp_by_id(&self, dmp_id: &str, id_type: &str) -> (r: Option<DataManagementPlan>)
        ensures
            r.deep_view() == find_first_by_id(self@, dmp_id@, id_type@),
            r is Some <==> exists|i: int|
                0 <= i < self@.len() && matches_id_pair(#[trigger] self@[i], dmp_id@, id_type@),
    {
        let v = &self.records;
        let mut i: usize = 0;
        while i < v.len()
            invariant
                i <= v.len(),
                forall|j: int| 0 <= j < i ==> !matches_id_pair(#[trigger] self@[j], dmp_id@, id_type@),
            decreases v.len() - i,
        {
            proof {
                assert(self@[i as int] == v@[i as int].deep_view());
            }
            if matches_id_pair_exec(&v[i], dmp_id, id_type) {
                let c = v[i].clone();
                proof {
                    lemma_find_first_by_id_skip(self@, dmp_id@, id_type@, i as int);
                    assert(self@.skip(i as int)[0] == self@[i as int]);
                }
                return Some(c);
            }
            i += 1;
        }
        proof {
            lemma_find_first_by_id_skip(self@, dmp_id@, id_type@, self@.len() as int);
            assert(self@.skip(self@.len() as int) =~= Seq::<DataManagementPlanV>::empty());
        }
        None
    }

    /// Locates the first record matching the `(identifier, id_type)` pair
    /// that has a section titled `section_title`, overwrites that section's
    /// rating and comments, and stamps the record's last-modified time with
    /// `now`. Returns whether a record was modified; a miss — no such
    /// record, or none with the section — returns `false`, not an error,
    /// and leaves the store untouched. The store does not re-check the
    /// rating's range: the caller validates it.
    #[verifier::loop_isolation(false)]
    pub fn update_dmp_rating(
        &mut self,
        dmp_id: &str,
        id_type: &str,
        section_title: &str,
        rating: u8,
        comments: &str,
        now: i64,
    ) -> (modified: bool)
        requires
            old(self).wf(),
        ensures
            final(self).wf(),
            final(self).spec_next_id() == old(self).spec_next_id(),
            final(self)@ == update_rating_result(
                old(self)@,
                dmp_id@,
                id_type@,
                section_title@,
                rating,
                comments@,
                now,
            ),
            modified == update_rating_modified(old(self)@, dmp_id@, id_type@, section_title@),
    {
        let n = self.records.len();
        let mut i: usize = 0;
        while i < n
            invariant
                i <= n,
                n == self@.len(),
                self == old(self),
                forall|k: int|
                    0 <= k < i ==> !(matches_id_pair(#[trigger] self@[k], dmp_id@, id_type@)
                        && dmp_has_section(self@[k], section_title@)),
            decreases n - i,
        {
            proof {
                assert(self@[i as int] == self.records@[i as int].deep_view());
            }
            if matches_id_pair_exec(&self.records[i], dmp_id, id_type) {
                match find_section_index(&self.records[i].sections, section_title) {
                    Some(j) => {
                        proof {
                            assert(self.records@[i as int].sections.deep_view() == self@[i as int].sections);
                            assert(is_first_update_index(
                                self@,
                                dmp_id@,
                                id_type@,
                                section_title@,
                                i as int,
                            ));
                        }
                        let ghost s0 = self@;
                        let ghost d0 = s0[i as int];
                        let mut rec = self.records[i].clone();
                        proof {
                            assert(rec.deep_view() == d0);
                            assert(rec.sections.deep_view() == d0.sections);
                            assert(rec.sections.deep_view()[j as int] == rec.sections@[
                                j as int
                            ].deep_view());
                        }
                        let mut sec = rec.sections[j].clone();
                        sec.rating = Some(rating);
                        sec.comments = Some(comments.to_owned());
                        proof {
                            assert(sec.deep_view() == updated_section(
                                d0.sections[j as int],
                                rating,
                                comments@,
                            ));
                        }
                        let ghost rec_before = rec;
                        let ghost secg = sec;
                        rec.sections.set(j, sec);
                        proof {
                            assert(rec.sections.deep_view() =~= d0.sections.update(
                                j as int,
                                updated_section(d0.sections[j as int], rating, comments@),
                            )) by {
                                assert forall|k: int|
                                    0 <= k < rec.sections@.len() implies rec.sections.deep_view()[k]
                                    == d0.sections.update(
                                    j as int,
                                    updated_section(d0.sections[j as int], rating, comments@),
                                )[k] by {
                                    if k != j as int {
                                        assert(rec.sections@[k] == rec_before.sections@[k]);
                                        assert(rec_before.sections.deep_view()[k]
                                            == rec_before.sections@[k].deep_view());
                                    } else {
                                        assert(rec.sections@[k] == secg);
                                    }
                                }
                            }
                        }
                        rec.last_modified = now;
                        let ghost recg = rec;
                        self.records.set(i, rec);
                        proof {
                            assert(recg.deep_view() == (DataManagementPlanV {
                                sections: d0.sections.update(
                                    j as int,
                                    updated_section(d0.sections[j as int], rating, comments@),
                                ),
                                last_modified: now,
                                ..d0
                            }));
                            assert forall|k: int|
                                0 <= k < s0.len() && k != i as int implies self@[k] == s0[k] by {
                                assert(self.records@[k] == old(self).records@[k]);
                                assert(self@[k] == self.records@[k].deep_view());
                                assert(s0[k] == old(self).records@[k].deep_view());
                            }
                            assert(self@[i as int] == recg.deep_view());
                            lemma_update_hit(
                                s0,
                                self@,
                                dmp_id@,
                                id_type@,
                                section_title@,
                                rating,
                                comments@,
                                now,
                                i as int,
                                j as int,
                                self.spec_next_id(),
                            );
                        }
                        return true;
                    },
                    None => {
                        proof {
                            assert(self.records@[i as int].sections.deep_view() == self@[i as int].sections);
                            assert(!dmp_has_section(self@[i as int], section_title@));
                        }
                    },
                }
            }
            i += 1;
        }
        proof {
            assert(!update_rating_modified(self@, dmp_id@, id_type@, section_title@)) by {
                assert forall|k: int|
                    !is_first_update_index(self@, dmp_id@, id_type@, section_title@, k) by {}
            }
        }
        false
    }
}

/// The first update position is unique.
pub(crate) proof fn lemma_first_update_index_unique(
    s: Seq<DataManagementPlanV>,
    ident: Seq<char>,
    idt: Seq<char>,
    title: Seq<char>,
    i1: int,
    i2: int,
)
    requires
        is_first_update_index(s, ident, idt, title, i1),
        is_first_update_index(s, ident, idt, title, i2),
    ensures
        i1 == i2,
{
    if i1 < i2 {
        assert(!(matches_id_pair(s[i1], ident, idt) && dmp_has_section(s[i1], title)));
    }
    if i2 < i1 {
        assert(!(matches_id_pair(s[i2], ident, idt) && dmp_has_section(s[i2], title)));
    }
}

/// The first section position is unique.
pub(crate) proof fn lemma_first_section_index_unique(secs: Seq<SectionV>, title: Seq<char>, j1: int, j2: int)
    requires
        is_first_section_index(secs, title, j1),
        is_first_section_index(secs, title, j2),
    ensures
        j1 == j2,
{
    if j1 < j2 {
        assert(secs[j1].title != title);
    }
    if j2 < j1 {
        assert(secs[j2].title != title);
    }
}

/// A successful in-place rewrite realises `update_rating_result`.
proof fn lemma_update_hit(
    s0: Seq<DataManagementPlanV>,
    s1: Seq<DataManagementPlanV>,
    ident: Seq<char>,
    idt: Seq<char>,
    title: Seq<char>,
    rating: u8,
    comments: Seq<char>,
    now: i64,
    i: int,
    j: int,
    next: u64,
)
    requires
        is_first_update_index(s0, ident, idt, title, i),
        is_first_section_index(s0[i].sections, title, j),
        s1.len() == s0.len(),
        forall|k: int| 0 <= k < s0.len() && k != i ==> s1[k] == #[trigger] s0[k],
        s1[i] == (DataManagementPlanV {
            sections: s0[i].sections.update(j, updated_section(s0[i].sections[j], rating, comments)),
            last_modified: now,
            ..s0[i]
        }),
        dmp_store_wf(s0, next),
    ensures
        update_rating_modified(s0, ident, idt, title),
        s1 == update_rating_result(s0, ident, idt, title, rating, comments, now),
        dmp_store_wf(s1, next),
{
    assert(update_rating_modified(s0, ident, idt, title));
    let ic = choose|k: int| is_first_update_index(s0, ident, idt, title, k);
    lemma_first_update_index_unique(s0, ident, idt, title, i, ic);
    let jc = choose|k: int| is_first_section_index(s0[i].sections, title, k);
    lemma_first_section_index_unique(s0[i].sections, title, j, jc);
    assert(updated_dmp(s0[i], title, rating, comments, now) == s1[i]);
    assert(s1 =~= update_rating_result(s0, ident, idt, title, rating, comments, now));
}

} // verus!
