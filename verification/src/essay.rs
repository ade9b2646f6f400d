//! The essay review record family and its store.
//!
//! Essays mirror the DMP family's architecture with a simpler shape: a
//! title and author, an ordered list of sections — each carrying free-text
//! content, tags, and an optional usefulness rating — and light metadata.
//! The store works as the DMP store does: insertion order is the
//! store-natural order and the record at position `i` carries identity `i`.

use vstd::prelude::*;

use crate::model::lemma_clone_push_take;
use crate::text::str_equal;

verus! {

/// A named, taggable sub-unit of an essay; its usefulness rating is a small
/// integer from 1 to 5 when present.
pub struct EssaySection {
    pub title: String,
    pub content: String,
    pub tags: Vec<String>,
    pub usefulness_rating: Option<u8>,
}

pub ghost struct EssaySectionV {
    pub title: Seq<char>,
    pub content: Seq<char>,
    pub tags: Seq<Seq<char>>,
    pub usefulness_rating: Option<u8>,
}

impl DeepView for EssaySection {
    type V = EssaySectionV;

    open spec fn deep_view(&self) -> EssaySectionV {
        EssaySectionV {
            title: self.title@,
            content: self.content@,
            tags: self.tags.deep_view(),
            usefulness_rating: self.usefulness_rating,
        }
    }
}

pub struct EssayMetadata {
    pub word_count: Option<u64>,
    pub categories: Vec<String>,
}

pub ghost struct EssayMetadataV {
    pub word_count: Option<u64>,
    pub categories: Seq<Seq<char>>,
}

impl DeepView for EssayMetadata {
    type V = EssayMetadataV;

    open spec fn deep_view(&self) -> EssayMetadataV {
        EssayMetadataV { word_count: self.word_count, categories: self.categories.deep_view() }
    }
}

/// One essay review record. `id` is `None` until the store first persists
/// the record; the date is milliseconds since the Unix epoch.
pub struct Essay {
    pub id: Option<u64>,
    pub title: String,
    pub author: String,
    pub date: i64,
    pub sections: Vec<EssaySection>,
    pub metadata: EssayMetadata,
}

pub ghost struct EssayV {
    pub id: Option<u64>,
    pub title: Seq<char>,
    pub author: Seq<char>,
    pub date: i64,
    pub sections: Seq<EssaySectionV>,
    pub metadata: EssayMetadataV,
}

impl DeepView for Essay {
    type V = EssayV;

    open spec fn deep_view(&self) -> EssayV {
        EssayV {
            id: self.id,
            title: self.title@,
            author: self.author@,
            date: self.date,
            sections: self.sections.deep_view(),
            metadata: self.metadata.deep_view(),
        }
    }
}

fn clone_strings(v: &Vec<String>) -> (r: Vec<String>)
    ensures
        r.deep_view() == v.deep_view(),
{
    let mut r: Vec<String> = Vec::new();
    let mut i: usize = 0;
    while i < v.len()
        invariant
            i <= v.len(),
            r.deep_view() == v.deep_view().take(i as int),
        decreases v.len() - i,
    {
        let ghost r_old = r;
        let c = v[i].clone();
        let ghost cg = c;
        r.push(c);
        proof {
            lemma_clone_push_take(*v, r_old, r, cg, i as int);
        }
        i += 1;
    }
    proof {
        assert(v.deep_view().take(v@.len() as int) =~= v.deep_view());
    }
    r
}

impl Clone for EssaySection {
    fn clone(&self) -> (r: EssaySection)
        ensures
            r.deep_view() == self.deep_view(),
    {
        EssaySection {
            title: self.title.clone(),
            content: self.content.clone(),
            tags: clone_strings(&self.tags),
            usefulness_rating: self.usefulness_rating,
        }
    }
}

fn clone_essay_sections(v: &Vec<EssaySection>) -> (r: Vec<EssaySection>)
    ensures
        r.deep_view() == v.deep_view(),
{
    let mut r: Vec<EssaySection> = Vec::new();
    let mut i: usize = 0;
    while i < v.len()
        invariant
            i <= v.len(),
            r.deep_view() == v.deep_view().take(i as int),
        decreases v.len() - i,
    {
        let ghost r_old = r;
        let c = v[i].clone();
        let ghost cg = c;
        r.push(c);
        proof {
            lemma_clone_push_take(*v, r_old, r, cg, i as int);
        }
        i += 1;
    }
    proof {
        assert(v.deep_view().take(v@.len() as int) =~= v.deep_view());
    }
    r
}

impl Clone for EssayMetadata {
    fn clone(&self) -> (r: EssayMetadata)
        ensures
            r.deep_view() == self.deep_view(),
    {
        EssayMetadata {
            word_count: self.word_count,
            categories: clone_strings(&self.categories),
        }
    }
}

impl Clone for Essay {
    fn clone(&self) -> (r: Essay)
        ensures
            r.deep_view() == self.deep_view(),
    {
        Essay {
            id: self.id,
            title: self.title.clone(),
            author: self.author.clone(),
            date: self.date,
            sections: clone_essay_sections(&self.sections),
            metadata: self.metadata.clone(),
        }
    }
}

/// A section whose title equals `title` and whose tag list contains `tag`,
/// both by exact, case-sensitive comparison.
pub open spec fn essay_section_matches_tag(
    s: EssaySectionV,
    title: Seq<char>,
    tag: Seq<char>,
) -> bool {
    s.title == title && s.tags.contains(tag)
}

pub open spec fn essay_matches_tag(e: EssayV, title: Seq<char>, tag: Seq<char>) -> bool {
    exists|i: int|
        0 <= i < e.sections.len() && essay_section_matches_tag(
            #[trigger] e.sections[i],
            title,
            tag,
        )
}

/// A section whose title equals `title` and whose usefulness rating is
/// present and at least `min` (inclusive).
pub open spec fn essay_section_matches_min_rating(
    s: EssaySectionV,
    title: Seq<char>,
    min: u8,
) -> bool {
    s.title == title && match s.usefulness_rating {
        Some(r) => r >= min,
        None => false,
    }
}

pub open spec fn essay_matches_min_rating(e: EssayV, title: Seq<char>, min: u8) -> bool {
    exists|i: int|
        0 <= i < e.sections.len() && essay_section_matches_min_rating(
            #[trigger] e.sections[i],
            title,
            min,
        )
}

/// The essays of `s` with a section titled `title` carrying tag `tag`, in
/// store order.
pub open spec fn essays_matching_tag(
    s: Seq<EssayV>,
    title: Seq<char>,
    tag: Seq<char>,
) -> Seq<EssayV>
    decreases s.len(),
{
    if s.len() == 0 {
        Seq::empty()
    } else {
        let rest = essays_matching_tag(s.drop_last(), title, tag);
        if essay_matches_tag(s.last(), title, tag) {
            rest.push(s.last())
        } else {
            rest
        }
    }
}

/// The essays of `s` with a section titled `title` whose usefulness rating
/// is at least `min`, in store order.
pub open spec fn essays_matching_min_rating(s: Seq<EssayV>, title: Seq<char>, min: u8) -> Seq<
    EssayV,
>
    decreases s.len(),
{
    if s.len() == 0 {
        Seq::empty()
    } else {
        let rest = essays_matching_min_rating(s.drop_last(), title, min);
        if essay_matches_min_rating(s.last(), title, min) {
            rest.push(s.last())
        } else {
            rest
        }
    }
}

/// The essay with its identity replaced, all other content unchanged.
pub open spec fn essay_with_id(e: EssayV, id: Option<u64>) -> EssayV {
    EssayV { id, ..e }
}

/// A well-formed store with mint counter `next`: every record's identity
/// is assigned, lies below the counter, and no two records share one.
pub open spec fn essay_store_wf(s: Seq<EssayV>, next: u64) -> bool {
    &&& forall|i: int| 0 <= i < s.len() ==> (#[trigger] s[i]).id is Some
    &&& forall|i: int| 0 <= i < s.len() ==> (#[trigger] s[i]).id.unwrap() < next
    &&& forall|i: int, j: int| 0 <= i < j < s.len() ==> s[i].id != s[j].id
}

/// The least bound above every identity the essays carry; records whose
/// identity field is absent impose none.
pub open spec fn essay_carried_id_bound(s: Seq<EssayV>) -> int
    decreases s.len(),
{
    if s.len() == 0 {
        0
    } else {
        let rest = essay_carried_id_bound(s.drop_last());
        let last = match s.last().id {
            Some(v) => v as int + 1,
            None => 0,
        };
        if rest >= last {
            rest
        } else {
            last
        }
    }
}

/// Every carried identity lies below the carried bound.
pub proof fn lemma_essay_carried_id_bound(s: Seq<EssayV>, j: int)
    requires
        0 <= j < s.len(),
    ensures
        match s[j].id {
            Some(v) => (v as int) < essay_carried_id_bound(s),
            None => true,
        },
        essay_carried_id_bound(s) >= 0,
    decreases s.len(),
{
    if j < s.len() - 1 {
        lemma_essay_carried_id_bound(s.drop_last(), j);
        assert(s.drop_last()[j] == s[j]);
    }
}

/// The carried bound never shrinks as the batch grows.
proof fn lemma_essay_carried_bound_take(s: Seq<EssayV>, k: int)
    requires
        0 <= k <= s.len(),
    ensures
        essay_carried_id_bound(s.take(k)) <= essay_carried_id_bound(s),
    decreases s.len() - k,
{
    if k == s.len() {
        assert(s.take(k) =~= s);
    } else {
        lemma_essay_carried_bound_take(s, k + 1);
        assert(s.take(k + 1).drop_last() =~= s.take(k));
    }
}

/// Where an import starts minting: at the store's counter, or above every
/// identity the batch carries, whichever is higher.
pub open spec fn essay_import_base(next: u64, recs: Seq<EssayV>) -> int {
    let b = essay_carried_id_bound(recs);
    if next as int >= b {
        next as int
    } else {
        b
    }
}

pub struct EssayStore {
    records: Vec<Essay>,
    next_id: u64,
}

impl View for EssayStore {
    type V = Seq<EssayV>;

    closed spec fn view(&self) -> Seq<EssayV> {
        self.records.deep_view()
    }
}

proof fn lemma_essays_matching_tag_step(s: Seq<EssayV>, title: Seq<char>, tag: Seq<char>, i: int)
    requires
        0 <= i < s.len(),
    ensures
        essays_matching_tag(s.take(i + 1), title, tag) == if essay_matches_tag(s[i], title, tag) {
            essays_matching_tag(s.take(i), title, tag).push(s[i])
        } else {
            essays_matching_tag(s.take(i), title, tag)
        },
{
    assert(s.take(i + 1).drop_last() =~= s.take(i));
    assert(s.take(i + 1).last() == s[i]);
}

proof fn lemma_essays_matching_min_rating_step(s: Seq<EssayV>, title: Seq<char>, min: u8, i: int)
    requires
        0 <= i < s.len(),
    ensures
        essays_matching_min_rating(s.take(i + 1), title, min) == if essay_matches_min_rating(
            s[i],
            title,
            min,
        ) {
            essays_matching_min_rating(s.take(i), title, min).push(s[i])
        } else {
            essays_matching_min_rating(s.take(i), title, min)
        },
{
    assert(s.take(i + 1).drop_last() =~= s.take(i));
    assert(s.take(i + 1).last() == s[i]);
}

/// Whether some section of the essay matches the tag query.
#[verifier::loop_isolation(false)]
fn essay_matches_tag_exec(e: &Essay, title: &str, tag: &str) -> (b: bool)
    ensures
        b == essay_matches_tag(e.deep_view(), title@, tag@),
{
    let v = &e.sections;
    let mut i: usize = 0;
    while i < v.len()
        invariant
            i <= v.len(),
            forall|j: int|
                0 <= j < i ==> !essay_section_matches_tag(
                    #[trigger] e.deep_view().sections[j],
                    title@,
                    tag@,
                ),
        decreases v.len() - i,
    {
        proof {
            assert(v.deep_view()[i as int] == v@[i as int].deep_view());
        }
        if str_equal(v[i].title.as_str(), title) && crate::store::contains_string(&v[i].tags, tag) {
            proof {
                assert(essay_section_matches_tag(v.deep_view()[i as int], title@, tag@));
                assert(e.deep_view().sections[i as int] == v.deep_view()[i as int]);
            }
            return true;
        }
        i += 1;
    }
    false
}

/// Whether some section of the essay matches the threshold query.
#[verifier::loop_isolation(false)]
fn essay_matches_min_rating_exec(e: &Essay, title: &str, min: u8) -> (b: bool)
    ensures
        b == essay_matches_min_rating(e.deep_view(), title@, min),
{
    let v = &e.sections;
    let mut i: usize = 0;
    while i < v.len()
        invariant
            i <= v.len(),
            forall|j: int|
                0 <= j < i ==> !essay_section_matches_min_rating(
                    #[trigger] e.deep_view().sections[j],
                    title@,
                    min,
                ),
        decreases v.len() - i,
    {
        proof {
            assert(v.deep_view()[i as int] == v@[i as int].deep_view());
        }
        let hit = if str_equal(v[i].title.as_str(), title) {
            match v[i].usefulness_rating {
                Some(r) => r >= min,
                None => false,
            }
        } else {
            false
        };
        if hit {
            proof {
                assert(essay_section_matches_min_rating(v.deep_view()[i as int], title@, min));
                assert(e.deep_view().sections[i as int] == v.deep_view()[i as int]);
            }
            return true;
        }
        i += 1;
    }
    false
}

impl EssayStore {
    /// The identity the store will mint next.
    pub closed spec fn spec_next_id(&self) -> u64 {
        self.next_id
    }

    /// The store's invariant: identities assigned, below the mint counter,
    /// and pairwise distinct.
    pub open spec fn wf(&self) -> bool {
        essay_store_wf(self@, self.spec_next_id())
    }

    /// An empty store.
    pub fn new() -> (s: EssayStore)
        ensures
            s@ == Seq::<EssayV>::empty(),
            s.wf(),
            s.spec_next_id() == 0,
    {
        let s = EssayStore { records: Vec::new(), next_id: 0 };
        proof {
            assert(s@ =~= Seq::<EssayV>::empty());
        }
        s
    }

    /// How many records the store holds.
    pub fn len(&self) -> (n: usize)
        ensures
            n == self@.len(),
    {
        self.records.len()
    }

    /// Persists the essay under a freshly minted identity and returns that
    /// identity; it comes off the store's mint counter, so it differs from
    /// every identity already present, and whatever identity the argument
    /// carried is discarded.
    pub fn add_essay(&mut self, essay: Essay) -> (id: u64)
        requires
            old(self).wf(),
            old(self).spec_next_id() < u64::MAX,
        ensures
            final(self).wf(),
            id == old(self).spec_next_id(),
            final(self).spec_next_id() == id + 1,
            final(self)@ == old(self)@.push(essay_with_id(essay.deep_view(), Some(id))),
            forall|j: int| 0 <= j < old(self)@.len() ==> (#[trigger] old(self)@[j]).id != Some(id),
    {
        let id: u64 = self.next_id;
        let mut essay = essay;
        essay.id = Some(id);
        self.records.push(essay);
        self.next_id = id + 1;
        proof {
            assert(final(self)@ =~= old(self)@.push(
                essay_with_id(essay.deep_view(), Some(id)),
            )) by {
                assert forall|j: int| 0 <= j < old(self)@.len() implies final(self)@[j] == old(
                    self,
                )@[j] by {
                    assert(self.records@[j] == old(self).records@[j]);
                }
            }
            assert forall|i: int, j: int| 0 <= i < j < final(self)@.len() implies
                final(self)@[i].id != final(self)@[j].id by {
                if j < old(self)@.len() {
                } else {
                    assert(final(self)@[j].id == Some(id));
                    assert(final(self)@[i].id == old(self)@[i].id);
                }
            }
        }
        id
    }

    /// Every essay having at least one section whose title equals
    /// `section_title` and whose tags contain `tag`, in store order.
    #[verifier::loop_isolation(false)]
    pub fn find_essays_by_section_tag(&self, section_title: &str, tag: &str) -> (r: Vec<Essay>)
        ensures
            r.deep_view() == essays_matching_tag(self@, section_title@, tag@),
    {
        let v = &self.records;
        let mut r: Vec<Essay> = Vec::new();
        let mut i: usize = 0;
        while i < v.len()
            invariant
                i <= v.len(),
                r.deep_view() == essays_matching_tag(self@.take(i as int), section_title@, tag@),
            decreases v.len() - i,
        {
            proof {
                lemma_essays_matching_tag_step(self@, section_title@, tag@, i as int);
            }
            if essay_matches_tag_exec(&v[i], section_title, tag) {
                r.push(v[i].clone());
            }
            i += 1;
        }
        proof {
            assert(self@.take(self@.len() as int) =~= self@);
        }
        r
    }

    /// Every essay having at least one section whose title equals
    /// `section_title` and whose usefulness rating is present and at least
    /// `min_rating` (inclusive), in store order.
    #[verifier::loop_isolation(false)]
    pub fn find_essays_by_rating(&self, section_title: &str, min_rating: u8) -> (r: Vec<Essay>)
        ensures
            r.deep_view() == essays_matching_min_rating(self@, section_title@, min_rating),
    {
        let v = &self.records;
        let mut r: Vec<Essay> = Vec::new();
        let mut i: usize = 0;
        while i < v.len()
            invariant
                i <= v.len(),
                r.deep_view() == essays_matching_min_rating(
                    self@.take(i as int),
                    section_title@,
                    min_rating,
                ),
            decreases v.len() - i,
        {
            proof {
                lemma_essays_matching_min_rating_step(self@, section_title@, min_rating, i as int);
            }
            if essay_matches_min_rating_exec(&v[i], section_title, min_rating) {
                r.push(v[i].clone());
            }
            i += 1;
        }
        proof {
            assert(self@.take(self@.len() as int) =~= self@);
        }
        r
    }

    /// Hands out the whole collection, record for record, in store order.
    #[verifier::loop_isolation(false)]
    pub fn export_all_essays(&self) -> (r: Vec<Essay>)
        ensures
            r.deep_view() == self@,
    {
        let v = &self.records;
        let mut r: Vec<Essay> = Vec::new();
        let mut i: usize = 0;
        while i < v.len()
            invariant
                i <= v.len(),
                r.deep_view() == v.deep_view().take(i as int),
            decreases v.len() - i,
        {
            let ghost r_old = r;
            let c = v[i].clone();
            let ghost cg = c;
            r.push(c);
            proof {
                lemma_clone_push_take(*v, r_old, r, cg, i as int);
            }
            i += 1;
        }
        proof {
            assert(v.deep_view().take(v@.len() as int) =~= v.deep_view());
        }
        r
    }

    /// Inserts every given essay, in order, each under a freshly minted
    /// identity: the mint counter is first raised above every identity the
    /// batch carries, so no minted identity equals a carried or an existing
    /// one. Returns how many records were inserted; an empty batch inserts
    /// nothing and returns zero.
    #[verifier::loop_isolation(false)]
    pub fn import_records(&mut self, records: Vec<Essay>) -> (count: usize)
        requires
            old(self).wf(),
            essay_import_base(old(self).spec_next_id(), records.deep_view()) + records@.len()
                <= u64::MAX as int,
        ensures
            final(self).wf(),
            count == records@.len(),
            final(self)@.len() == old(self)@.len() + records@.len(),
            final(self).spec_next_id() as int == essay_import_base(
                old(self).spec_next_id(),
                records.deep_view(),
            ) + records@.len(),
            forall|i: int| 0 <= i < old(self)@.len() ==> final(self)@[i] == old(self)@[i],
            forall|i: int|
                0 <= i < records@.len() ==> final(self)@[old(self)@.len() + i] == essay_with_id(
                    records.deep_view()[i],
                    Some(
                        (essay_import_base(old(self).spec_next_id(), records.deep_view())
                            + i) as u64,
                    ),
                ),
            forall|i: int, j: int|
                #![trigger final(self)@[old(self)@.len() + i], records.deep_view()[j]]
                0 <= i < records@.len() && 0 <= j < records@.len() ==>
                    final(self)@[old(self)@.len() + i].id != records.deep_view()[j].id,
            forall|i: int, j: int|
                #![trigger final(self)@[old(self)@.len() + i], old(self)@[j]]
                0 <= i < records@.len() && 0 <= j < old(self)@.len() ==>
                    final(self)@[old(self)@.len() + i].id != old(self)@[j].id,
    {
        let ghost recs = records.deep_view();
        let ghost base = essay_import_base(self.next_id, recs);
        let mut bound: u64 = self.next_id;
        let mut j: usize = 0;
        while j < records.len()
            invariant
                j <= records@.len(),
                bound as int == essay_import_base(old(self).spec_next_id(), recs.take(j as int)),
                bound as int <= base,
            decreases records@.len() - j,
        {
            proof {
                assert(recs.take(j as int + 1).drop_last() =~= recs.take(j as int));
                assert(recs.take(j as int + 1).last() == recs[j as int]);
                assert(recs[j as int] == records@[j as int].deep_view());
                assert(recs.take(records@.len() as int) =~= recs);
                lemma_essay_carried_bound_take(recs, j as int + 1);
            }
            if let Some(v) = records[j].id {
                proof {
                    lemma_essay_carried_id_bound(recs, j as int);
                }
                if v >= bound {
                    bound = v + 1;
                }
            }
            j += 1;
        }
        proof {
            assert(recs.take(records@.len() as int) =~= recs);
        }
        self.next_id = bound;
        let ghost s0 = old(self)@;
        let mut count: usize = 0;
        let mut i: usize = 0;
        while i < records.len()
            invariant
                self.wf(),
                i <= records@.len(),
                count == i,
                self@.len() == s0.len() + i,
                self.spec_next_id() as int == base + i,
                forall|k: int| 0 <= k < s0.len() ==> self@[k] == s0[k],
                forall|k: int|
                    0 <= k < i ==> #[trigger] self@[s0.len() + k] == essay_with_id(
                        recs[k],
                        Some((base + k) as u64),
                    ),
            decreases records@.len() - i,
        {
            let rec = records[i].clone();
            self.add_essay(rec);
            count += 1;
            i += 1;
        }
        proof {
            assert forall|a: int, b: int|
                #![trigger self@[s0.len() + a], recs[b]]
                0 <= a < recs.len() && 0 <= b < recs.len() implies self@[s0.len() + a].id
                != recs[b].id by {
                lemma_essay_carried_id_bound(recs, b);
                assert(self@[s0.len() + a] == essay_with_id(recs[a], Some((base + a) as u64)));
                assert(self@[s0.len() + a].id == Some((base + a) as u64));
            }
            assert forall|a: int, b: int|
                #![trigger self@[s0.len() + a], s0[b]]
                0 <= a < recs.len() && 0 <= b < s0.len() implies self@[s0.len() + a].id
                != s0[b].id by {
                assert(s0[b].id.unwrap() < old(self).spec_next_id());
                assert(self@[s0.len() + a] == essay_with_id(recs[a], Some((base + a) as u64)));
                assert(self@[s0.len() + a].id == Some((base + a) as u64));
            }
        }
        count
    }
}

} // verus!
