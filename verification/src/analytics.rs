//! The download ranking: the top unconverted feedstocks by download
//! count.

use vstd::prelude::*;
use vstd::seq_lib::to_multiset_insert;
use vstd::seq_lib::lemma_multiset_commutative;

use crate::models::{FeedstockRecord, RecipeType, RecordView, TopFeedstock, TopFeedstockView};
use crate::orchestrator::assoc;

verus! {

/// The ranking candidates: every feedstock not classified Recipe v1
/// that has a known download count, in map order.
pub open spec fn candidate_list(
    rs: Seq<RecordView>,
    counts: Seq<(Seq<char>, u64)>,
) -> Seq<TopFeedstockView>
    decreases rs.len(),
{
    if rs.len() == 0 {
        Seq::empty()
    } else {
        let head = candidate_list(rs.drop_last(), counts);
        let r = rs.last();
        if r.entry.recipe_type != RecipeType::RecipeV1 {
            match assoc(counts, r.name) {
                Some(d) => head.push(
                    TopFeedstockView { name: r.name, downloads: d, recipe_type: r.entry.recipe_type },
                ),
                None => head,
            }
        } else {
            head
        }
    }
}

proof fn lemma_candidate_list_step(rs: Seq<RecordView>, counts: Seq<(Seq<char>, u64)>, i: int)
    requires
        0 <= i < rs.len(),
    ensures
        candidate_list(rs.subrange(0, i + 1), counts) == (
        if rs[i].entry.recipe_type != RecipeType::RecipeV1 {
            match assoc(counts, rs[i].name) {
                Some(d) => candidate_list(rs.subrange(0, i), counts).push(
                    (TopFeedstockView {
                        name: rs[i].name,
                        downloads: d,
                        recipe_type: rs[i].entry.recipe_type,
                    }),
                ),
                None => candidate_list(rs.subrange(0, i), counts),
            }
        } else {
            candidate_list(rs.subrange(0, i), counts)
        }),
{
    let s1 = rs.subrange(0, i + 1);
    assert(s1.drop_last() =~= rs.subrange(0, i));
    assert(s1.last() == rs[i]);
}

/// Download counts never increase along the ranking.
pub open spec fn sorted_desc(s: Seq<TopFeedstockView>) -> bool {
    forall|i: int, j: int| 0 <= i < j < s.len() ==> s[i].downloads >= s[j].downloads
}

/// Insert one candidate into a ranking, keeping it ordered.
fn insert_sorted(v: &mut Vec<TopFeedstock>, x: TopFeedstock)
    requires
        sorted_desc(old(v).deep_view()),
    ensures
        final(v)@.len() == old(v)@.len() + 1,
        sorted_desc(final(v).deep_view()),
        final(v).deep_view().to_multiset() == old(v).deep_view().to_multiset().insert(x@),
{
    let ghost dv = v.deep_view();
    let mut p: usize = 0;
    while p < v.len() && v[p].downloads >= x.downloads
        invariant
            dv == v.deep_view(),
            v@.len() == dv.len(),
            0 <= p <= v@.len(),
            forall|k: int| 0 <= k < p ==> dv[k].downloads >= x@.downloads,
        decreases v@.len() - p,
    {
        p = p + 1;
    }
    proof {
        assert(p < v@.len() ==> dv[p as int].downloads < x@.downloads);
    }
    v.insert(p, x);
    proof {
        assert forall|k: int| 0 <= k < v.deep_view().len() implies v.deep_view()[k]
            == dv.insert(p as int, x@)[k] by {
            assert(v@[k] == v@[k]);
        }
        assert(v.deep_view() =~= dv.insert(p as int, x@));
        to_multiset_insert(dv, p as int, x@);
        assert forall|i: int, j: int|
            0 <= i < j < v.deep_view().len() implies v.deep_view()[i].downloads
            >= v.deep_view()[j].downloads by {
            let dv2 = dv.insert(p as int, x@);
            if i < p && j == p {
            } else if i == p && j > p {
                assert(dv2[j] == dv[j - 1]);
                if j - 1 > p {
                    assert(dv[p as int].downloads >= dv[j - 1].downloads);
                }
            }
        }
    }
}

/// Calculate the top unconverted feedstocks by download count: the
/// `limit` highest-downloaded candidates, ordered by descending
/// downloads. Candidates with equal download counts may appear in
/// either order; every candidate left out has a download count no
/// greater than the last one kept.
pub fn calculate_top_unconverted_feedstocks(
    feedstock_states: &Vec<FeedstockRecord>,
    download_counts: &Vec<(String, u64)>,
    limit: usize,
) -> (r: Vec<TopFeedstock>)
    ensures
        ({
            let cands = candidate_list(feedstock_states.deep_view(), download_counts.deep_view());
            let m = if limit as int <= cands.len() {
                limit as int
            } else {
                cands.len() as int
            };
            r@.len() == m && sorted_desc(r.deep_view()) && r.deep_view().to_multiset().subset_of(
                cands.to_multiset(),
            ) && (forall|x: TopFeedstockView|
                cands.to_multiset().count(x) > r.deep_view().to_multiset().count(x) && r@.len() > 0
                    ==> x.downloads <= r.deep_view()[r@.len() - 1].downloads)
        }),
{
    let ghost rs = feedstock_states.deep_view();
    let ghost counts = download_counts.deep_view();
    let ghost cands = candidate_list(rs, counts);

    let mut sorted: Vec<TopFeedstock> = Vec::new();
    let mut i: usize = 0;
    proof {
        assert(rs.subrange(0, 0) =~= Seq::<RecordView>::empty());
        assert(sorted.deep_view() =~= Seq::<TopFeedstockView>::empty());
        assert(sorted.deep_view().to_multiset() =~= candidate_list(
            rs.subrange(0, 0),
            counts,
        ).to_multiset()) by {
            assert(candidate_list(rs.subrange(0, 0), counts) =~= Seq::<TopFeedstockView>::empty());
        }
    }
    while i < feedstock_states.len()
        invariant
            rs == feedstock_states.deep_view(),
            counts == download_counts.deep_view(),
            0 <= i <= rs.len(),
            sorted@.len() == candidate_list(rs.subrange(0, i as int), counts).len(),
            sorted_desc(sorted.deep_view()),
            sorted.deep_view().to_multiset() == candidate_list(
                rs.subrange(0, i as int),
                counts,
            ).to_multiset(),
        decreases rs.len() - i,
    {
        let ghost prev = sorted.deep_view();
        if !matches!(feedstock_states[i].entry.recipe_type, RecipeType::RecipeV1) {
            match crate::orchestrator::assoc_lookup(download_counts, feedstock_states[i].name.as_str()) {
                Some(d) => {
                    let item = TopFeedstock {
                        name: feedstock_states[i].name.clone(),
                        downloads: *d,
                        recipe_type: feedstock_states[i].entry.recipe_type,
                    };
                    insert_sorted(&mut sorted, item);
                    proof {
                        vstd::seq_lib::to_multiset_build(
                            candidate_list(rs.subrange(0, i as int), counts),
                            item@,
                        );
                    }
                },
                None => {},
            }
        }
        proof {
            lemma_candidate_list_step(rs, counts, i as int);
        }
        i = i + 1;
    }
    proof {
        assert(rs.subrange(0, rs.len() as int) =~= rs);
    }
    let m = if limit < sorted.len() {
        limit
    } else {
        sorted.len()
    };
    let ghost full = sorted.deep_view();
    let ghost full_vec = sorted@;
    sorted.truncate(m);
    proof {
        broadcast use vstd::seq_lib::group_to_multiset_ensures;

        assert forall|k: int| 0 <= k < sorted.deep_view().len() implies sorted.deep_view()[k]
            == full[k] by {
            assert(sorted@[k] == full_vec[k]);
            assert(full[k] == full_vec[k].deep_view());
        }
        assert(sorted.deep_view() =~= full.subrange(0, m as int));
        let prefix = full.subrange(0, m as int);
        let suffix = full.subrange(m as int, full.len() as int);
        assert(full =~= prefix + suffix);
        lemma_multiset_commutative(prefix, suffix);
        assert(full.to_multiset() == prefix.to_multiset().add(suffix.to_multiset()));
        assert forall|x: TopFeedstockView|
            cands.to_multiset().count(x) > prefix.to_multiset().count(x) && prefix.len() > 0
                implies x.downloads <= prefix[prefix.len() - 1].downloads by {
            assert(suffix.to_multiset().count(x) > 0);
            assert(suffix.contains(x));
            let j = choose|j: int| 0 <= j < suffix.len() && suffix[j] == x;
            assert(full[m + j] == x);
            assert(full[m - 1].downloads >= full[m + j].downloads);
        }
        assert forall|x: TopFeedstockView| true implies prefix.to_multiset().count(x)
            <= cands.to_multiset().count(x) by {
            assert(cands.to_multiset().count(x) == prefix.to_multiset().count(x)
                + suffix.to_multiset().count(x));
        }
        assert(prefix.to_multiset().subset_of(cands.to_multiset()));
    }
    sorted
}

} // verus!
