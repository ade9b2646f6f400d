//! Laws the store contracts obey, stated over the stores' views and proved
//! once for all inputs.

use vstd::prelude::*;

use crate::essay::essay_with_id;
use crate::essay::EssayV;
use crate::model::DataManagementPlanV;
use crate::store::dmps_matching_min_rating;
use crate::store::dmps_matching_tag;
use crate::store::dmp_matches_min_rating;
use crate::store::dmp_matches_tag;
use crate::store::find_first_by_id;
use crate::store::is_first_section_index;
use crate::store::is_first_update_index;
use crate::store::lemma_find_first_by_id_skip;
use crate::store::lemma_first_update_index_unique;
use crate::store::matches_id_pair;
use crate::store::section_matches_min_rating;
use crate::store::update_rating_modified;
use crate::store::update_rating_result;
use crate::store::updated_dmp;
use crate::store::updated_section;
use crate::store::with_id;

verus! {

/// Two records share all field content, the identity aside.
pub open spec fn same_content(a: DataManagementPlanV, b: DataManagementPlanV) -> bool {
    with_id(a, None) == with_id(b, None)
}

/// Two essays share all field content, the identity aside.
pub open spec fn same_essay_content(a: EssayV, b: EssayV) -> bool {
    essay_with_id(a, None) == essay_with_id(b, None)
}

/// Round trip: a collection exported whole and imported into an empty
/// store yields the same number of records with identical field content,
/// while every identity is freshly minted by the destination store — from
/// a base above every identity the batch carried — so the new identities
/// are pairwise distinct and distinct from all the originals.
///
/// The premises are exactly what `export_all_dmps` hands out (the source
/// records themselves) and what `import_records` guarantees of a formerly
/// empty destination: the minting base exceeds every carried identity.
pub proof fn lemma_dmp_round_trip(
    src: Seq<DataManagementPlanV>,
    dst: Seq<DataManagementPlanV>,
    base: int,
)
    requires
        0 <= base,
        base + src.len() <= u64::MAX as int,
        forall|j: int|
            0 <= j < src.len() ==> (match (#[trigger] src[j]).id {
                Some(v) => (v as int) < base,
                None => true,
            }),
        dst.len() == src.len(),
        forall|i: int| 0 <= i < src.len() ==> dst[i] == with_id(src[i], Some((base + i) as u64)),
    ensures
        forall|i: int| 0 <= i < src.len() ==> same_content(#[trigger] dst[i], src[i]),
        forall|i: int, j: int| 0 <= i < j < dst.len() ==> dst[i].id != dst[j].id,
        forall|i: int, j: int|
            #![trigger dst[i], src[j]]
            0 <= i < dst.len() && 0 <= j < src.len() ==> dst[i].id != src[j].id,
{
    assert forall|i: int| 0 <= i < src.len() implies same_content(#[trigger] dst[i], src[i]) by {
        assert(with_id(dst[i], None) == with_id(src[i], None));
    }
    assert forall|i: int, j: int| 0 <= i < j < dst.len() implies dst[i].id != dst[j].id by {
        assert(dst[i].id == Some((base + i) as u64));
        assert(dst[j].id == Some((base + j) as u64));
        assert((base + i) as u64 as int == base + i);
        assert((base + j) as u64 as int == base + j);
    }
    assert forall|i: int, j: int|
        #![trigger dst[i], src[j]]
        0 <= i < dst.len() && 0 <= j < src.len() implies dst[i].id != src[j].id by {
        assert(dst[i].id == Some((base + i) as u64));
        assert((base + i) as u64 as int == base + i);
        match src[j].id {
            Some(v) => {
                assert((v as int) < base);
            },
            None => {},
        }
    }
}

/// The essay form of the round-trip law.
pub proof fn lemma_essay_round_trip(src: Seq<EssayV>, dst: Seq<EssayV>, base: int)
    requires
        0 <= base,
        base + src.len() <= u64::MAX as int,
        forall|j: int|
            0 <= j < src.len() ==> (match (#[trigger] src[j]).id {
                Some(v) => (v as int) < base,
                None => true,
            }),
        dst.len() == src.len(),
        forall|i: int|
            0 <= i < src.len() ==> dst[i] == essay_with_id(src[i], Some((base + i) as u64)),
    ensures
        forall|i: int| 0 <= i < src.len() ==> same_essay_content(#[trigger] dst[i], src[i]),
        forall|i: int, j: int| 0 <= i < j < dst.len() ==> dst[i].id != dst[j].id,
        forall|i: int, j: int|
            #![trigger dst[i], src[j]]
            0 <= i < dst.len() && 0 <= j < src.len() ==> dst[i].id != src[j].id,
{
    assert forall|i: int| 0 <= i < src.len() implies same_essay_content(
        #[trigger] dst[i],
        src[i],
    ) by {
        assert(essay_with_id(dst[i], None) == essay_with_id(src[i], None));
    }
    assert forall|i: int, j: int| 0 <= i < j < dst.len() implies dst[i].id != dst[j].id by {
        assert(dst[i].id == Some((base + i) as u64));
        assert(dst[j].id == Some((base + j) as u64));
        assert((base + i) as u64 as int == base + i);
        assert((base + j) as u64 as int == base + j);
    }
    assert forall|i: int, j: int|
        #![trigger dst[i], src[j]]
        0 <= i < dst.len() && 0 <= j < src.len() implies dst[i].id != src[j].id by {
        assert(dst[i].id == Some((base + i) as u64));
        assert((base + i) as u64 as int == base + i);
        match src[j].id {
            Some(v) => {
                assert((v as int) < base);
            },
            None => {},
        }
    }
}

/// Idempotent query: with no intervening writes, two tag queries with
/// identical arguments return the same records — so in particular the same
/// set of record identities.
pub proof fn lemma_find_by_section_tag_idempotent(
    s: Seq<DataManagementPlanV>,
    title: Seq<char>,
    tag: Seq<char>,
    r1: Seq<DataManagementPlanV>,
    r2: Seq<DataManagementPlanV>,
)
    requires
        r1 == dmps_matching_tag(s, title, tag),
        r2 == dmps_matching_tag(s, title, tag),
    ensures
        r1 == r2,
        forall|d: DataManagementPlanV| r1.contains(d) <==> r2.contains(d),
{
}

/// Membership in a pushed sequence.
proof fn lemma_push_contains<T>(s: Seq<T>, x: T, d: T)
    ensures
        s.push(x).contains(d) <==> (s.contains(d) || d == x),
{
    if s.push(x).contains(d) {
        let i = choose|i: int| 0 <= i < s.push(x).len() && s.push(x)[i] == d;
        if i < s.len() {
            assert(s[i] == d);
        }
    }
    if s.contains(d) {
        let i = choose|i: int| 0 <= i < s.len() && s[i] == d;
        assert(s.push(x)[i] == d);
    }
    if d == x {
        assert(s.push(x)[s.len() as int] == d);
    }
}

/// The tag query returns exactly the matching records: everything it
/// returns comes from the store and matches, and every matching record of
/// the store is returned.
pub proof fn lemma_matching_tag_exact(s: Seq<DataManagementPlanV>, title: Seq<char>, tag: Seq<char>)
    ensures
        forall|d: DataManagementPlanV|
            #[trigger] dmps_matching_tag(s, title, tag).contains(d) ==> s.contains(d)
                && dmp_matches_tag(d, title, tag),
        forall|i: int|
            0 <= i < s.len() && dmp_matches_tag(#[trigger] s[i], title, tag)
                ==> dmps_matching_tag(s, title, tag).contains(s[i]),
    decreases s.len(),
{
    if s.len() > 0 {
        lemma_matching_tag_exact(s.drop_last(), title, tag);
        let rest = dmps_matching_tag(s.drop_last(), title, tag);
        let x = s.last();
        assert forall|d: DataManagementPlanV|
            dmps_matching_tag(s, title, tag).contains(d) implies s.contains(d) && dmp_matches_tag(
            d,
            title,
            tag,
        ) by {
            if dmp_matches_tag(x, title, tag) {
                lemma_push_contains(rest, x, d);
            }
            assert(rest.contains(d) || d == x);
            if rest.contains(d) {
                assert(s.drop_last().contains(d) && dmp_matches_tag(d, title, tag));
                let i = choose|i: int| 0 <= i < s.drop_last().len() && s.drop_last()[i] == d;
                assert(s[i] == d);
            } else {
                assert(s[s.len() - 1] == d);
            }
        }
        assert forall|i: int|
            0 <= i < s.len() && dmp_matches_tag(#[trigger] s[i], title, tag) implies
            dmps_matching_tag(s, title, tag).contains(s[i]) by {
            if i < s.len() - 1 {
                assert(s.drop_last()[i] == s[i]);
                if dmp_matches_tag(x, title, tag) {
                    lemma_push_contains(rest, x, s[i]);
                }
            } else {
                if dmp_matches_tag(x, title, tag) {
                    lemma_push_contains(rest, x, x);
                }
            }
        }
    }
}

/// Threshold monotonicity: raising the minimum rating never adds a record,
/// so every record the stricter query returns, the looser one returns too.
pub proof fn lemma_min_rating_monotone(
    s: Seq<DataManagementPlanV>,
    title: Seq<char>,
    lo: u8,
    hi: u8,
)
    requires
        lo < hi,
    ensures
        forall|d: DataManagementPlanV|
            dmps_matching_min_rating(s, title, hi).contains(d)
                ==> dmps_matching_min_rating(s, title, lo).contains(d),
    decreases s.len(),
{
    if s.len() > 0 {
        lemma_min_rating_monotone(s.drop_last(), title, lo, hi);
        let rest_hi = dmps_matching_min_rating(s.drop_last(), title, hi);
        let rest_lo = dmps_matching_min_rating(s.drop_last(), title, lo);
        let x = s.last();
        if dmp_matches_min_rating(x, title, hi) {
            let i = choose|i: int|
                0 <= i < x.sections.len() && section_matches_min_rating(
                    #[trigger] x.sections[i],
                    title,
                    hi,
                );
            assert(section_matches_min_rating(x.sections[i], title, lo));
            assert(dmp_matches_min_rating(x, title, lo));
        }
        assert forall|d: DataManagementPlanV|
            dmps_matching_min_rating(s, title, hi).contains(d) implies dmps_matching_min_rating(
            s,
            title,
            lo,
        ).contains(d) by {
            if dmp_matches_min_rating(x, title, hi) {
                lemma_push_contains(rest_hi, x, d);
                lemma_push_contains(rest_lo, x, d);
            }
            if dmp_matches_min_rating(x, title, lo) {
                lemma_push_contains(rest_lo, x, d);
            }
        }
    }
}

/// Update effect: when the update hits — `i` is the position it touches,
/// no earlier record carries the identifier pair, and the clock moved
/// forward — a subsequent point lookup finds the touched record, its first
/// section under the given title carries the new rating and comments, its
/// last-modified stamp is `now`, strictly greater than before, and its
/// creation date and identity stand untouched.
pub proof fn lemma_update_effect(
    s: Seq<DataManagementPlanV>,
    ident: Seq<char>,
    idt: Seq<char>,
    title: Seq<char>,
    rating: u8,
    comments: Seq<char>,
    now: i64,
    i: int,
)
    requires
        is_first_update_index(s, ident, idt, title, i),
        forall|k: int| 0 <= k < i ==> !matches_id_pair(#[trigger] s[k], ident, idt),
        now > s[i].last_modified,
    ensures
        update_rating_modified(s, ident, idt, title),
        ({
            let s1 = update_rating_result(s, ident, idt, title, rating, comments, now);
            let found = find_first_by_id(s1, ident, idt);
            &&& found is Some
            &&& found.unwrap().last_modified == now
            &&& found.unwrap().last_modified > s[i].last_modified
            &&& found.unwrap().created_date == s[i].created_date
            &&& found.unwrap().id == s[i].id
            &&& exists|j: int|
                {
                    &&& is_first_section_index(found.unwrap().sections, title, j)
                    &&& found.unwrap().sections[j].rating == Some(rating)
                    &&& found.unwrap().sections[j].comments == Some(comments)
                }
        }),
{
    assert(update_rating_modified(s, ident, idt, title));
    let ic = choose|k: int| is_first_update_index(s, ident, idt, title, k);
    lemma_first_update_index_unique(s, ident, idt, title, i, ic);
    let s1 = update_rating_result(s, ident, idt, title, rating, comments, now);
    let d1 = updated_dmp(s[i], title, rating, comments, now);
    assert(s1 == s.update(i, d1));
    let j = choose|j: int| is_first_section_index(s[i].sections, title, j);
    assert(is_first_section_index(s[i].sections, title, j));
    assert(d1.sections == s[i].sections.update(j, updated_section(s[i].sections[j], rating, comments)));
    assert(d1.dmp_id == s[i].dmp_id);
    assert(matches_id_pair(s1[i], ident, idt));
    assert forall|k: int| 0 <= k < i implies !matches_id_pair(#[trigger] s1[k], ident, idt) by {
        assert(s1[k] == s[k]);
    }
    lemma_find_first_by_id_skip(s1, ident, idt, i);
    assert(s1.skip(i).len() > 0);
    assert(s1.skip(i)[0] == s1[i]);
    assert(find_first_by_id(s1, ident, idt) == Some(d1));
    assert(d1.sections[j].rating == Some(rating));
    assert(d1.sections[j].comments == Some(comments));
    assert(is_first_section_index(d1.sections, title, j)) by {
        assert(d1.sections[j].title == s[i].sections[j].title);
        assert forall|k: int| 0 <= k < j implies (#[trigger] d1.sections[k]).title != title by {
            assert(d1.sections[k] == s[i].sections[k]);
        }
    }
}

/// Update miss: when no record carries the identifier pair, the update
/// reports no modification and leaves the store exactly as it was — a
/// miss, not an error.
pub proof fn lemma_update_miss(
    s: Seq<DataManagementPlanV>,
    ident: Seq<char>,
    idt: Seq<char>,
    title: Seq<char>,
    rating: u8,
    comments: Seq<char>,
    now: i64,
)
    requires
        forall|k: int| 0 <= k < s.len() ==> !matches_id_pair(#[trigger] s[k], ident, idt),
    ensures
        !update_rating_modified(s, ident, idt, title),
        update_rating_result(s, ident, idt, title, rating, comments, now) == s,
{
    assert forall|k: int|
        !is_first_update_index(s, ident, idt, title, k) by {}
}

} // verus!
