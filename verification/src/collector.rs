//! The collector's per-feedstock decisions: classifying a feedstock's
//! recipe format from its node-attributes document, merging each fresh
//! observation into the tracked state, and the summary counts.

use vstd::prelude::*;

use crate::models::{
    EntryView, FeedstockEntry, FeedstockRecord, NodeAttrsJson, NodeAttrsView, RecipeType,
    RecordView,
};
use crate::orchestrator::entry_of;
use crate::strutil::eq_str;

verus! {

/// The recipe format a node-attributes document reports: Recipe v1
/// exactly when the build tool is declared as `rattler-build`, and
/// the legacy format otherwise.
pub open spec fn recipe_type_of(n: NodeAttrsView) -> RecipeType {
    match n.conda_forge_yml {
        Some(y) => match y.conda_build_tool {
            Some(t) => if t == "rattler-build"@ {
                RecipeType::RecipeV1
            } else {
                RecipeType::MetaYaml
            },
            None => RecipeType::MetaYaml,
        },
        None => RecipeType::MetaYaml,
    }
}

/// Determine the recipe format from a node-attributes document.
pub fn determine_recipe_type_from_node(node_data: &NodeAttrsJson) -> (r: RecipeType)
    ensures
        r == recipe_type_of(node_data@),
{
    match &node_data.conda_forge_yml {
        Some(y) => match &y.conda_build_tool {
            Some(t) => {
                if eq_str(t.as_str(), "rattler-build") {
                    RecipeType::RecipeV1
                } else {
                    RecipeType::MetaYaml
                }
            },
            None => RecipeType::MetaYaml,
        },
        None => RecipeType::MetaYaml,
    }
}

/// The timestamp a fresh observation keeps: a new feedstock and a
/// feedstock just converted to Recipe v1 take the current time; an
/// already-known feedstock without a conversion keeps its previous
/// timestamp.
pub open spec fn merged_last_changed(
    existing: Option<EntryView>,
    new_type: RecipeType,
    current_time: Seq<char>,
) -> Seq<char> {
    match existing {
        Some(e) => if e.recipe_type != RecipeType::RecipeV1 && new_type == RecipeType::RecipeV1 {
            current_time
        } else {
            e.last_changed
        },
        None => current_time,
    }
}

/// The attribution a fresh observation keeps: whatever the previous
/// entry held, and nothing for a new feedstock.
pub open spec fn preserved_attribution(existing: Option<EntryView>) -> Option<
    crate::models::AttributionView,
> {
    match existing {
        Some(e) => e.attribution,
        None => None,
    }
}

/// The recipe-commit cache a fresh observation keeps: whatever the
/// previous entry held, and nothing for a new feedstock. The cache is
/// invalidated only by the explicit refetch directive, never by a
/// collector pass.
pub open spec fn preserved_cache(existing: Option<EntryView>) -> Option<
    crate::models::CacheView,
> {
    match existing {
        Some(e) => e.recipe_commit_cache,
        None => None,
    }
}

/// Build the tracked entry for one freshly observed feedstock: the new
/// classification, the merged timestamp, the preserved attribution and
/// recipe-commit cache, and the looked-up download count.
pub fn build_feedstock_entry(
    existing: Option<&FeedstockEntry>,
    recipe_type: RecipeType,
    current_time: &str,
    downloads: Option<u64>,
) -> (r: FeedstockEntry)
    ensures
        r@ == (EntryView {
            recipe_type: recipe_type,
            last_changed: merged_last_changed(
                match existing {
                    Some(e) => Some(e@),
                    None => None,
                },
                recipe_type,
                current_time@,
            ),
            attribution: preserved_attribution(
                match existing {
                    Some(e) => Some(e@),
                    None => None,
                },
            ),
            downloads: downloads,
            recipe_commit_cache: preserved_cache(
                match existing {
                    Some(e) => Some(e@),
                    None => None,
                },
            ),
        }),
{
    let last_changed: String = match existing {
        Some(e) => {
            if !matches!(e.recipe_type, RecipeType::RecipeV1) && matches!(
                recipe_type,
                RecipeType::RecipeV1,
            ) {
                current_time.to_owned()
            } else {
                e.last_changed.clone()
            }
        },
        None => current_time.to_owned(),
    };
    let attribution = match existing {
        Some(e) => match &e.attribution {
            Some(a) => Some(a.clone()),
            None => None,
        },
        None => None,
    };
    let recipe_commit_cache = match existing {
        Some(e) => match &e.recipe_commit_cache {
            Some(c) => Some(c.clone()),
            None => None,
        },
        None => None,
    };
    FeedstockEntry { recipe_type, last_changed, attribution, downloads, recipe_commit_cache }
}

/// How many entries carry the given classification.
pub open spec fn count_type(rs: Seq<RecordView>, t: RecipeType) -> int
    decreases rs.len(),
{
    if rs.len() == 0 {
        0int
    } else {
        count_type(rs.drop_last(), t) + if rs.last().entry.recipe_type == t {
            1int
        } else {
            0int
        }
    }
}

proof fn lemma_count_type_step(rs: Seq<RecordView>, t: RecipeType, i: int)
    requires
        0 <= i < rs.len(),
    ensures
        count_type(rs.subrange(0, i + 1), t) == count_type(rs.subrange(0, i), t) + if rs[i].entry.recipe_type
            == t {
            1int
        } else {
            0int
        },
{
    let s1 = rs.subrange(0, i + 1);
    assert(s1.drop_last() =~= rs.subrange(0, i));
    assert(s1.last() == rs[i]);
}

proof fn lemma_count_type_bound(rs: Seq<RecordView>, t: RecipeType)
    ensures
        0 <= count_type(rs, t) <= rs.len(),
    decreases rs.len(),
{
    if rs.len() > 0 {
        lemma_count_type_bound(rs.drop_last(), t);
    }
}

/// Count the feedstocks of each classification: Recipe v1, legacy,
/// and unknown, in that order.
pub fn count_recipe_types(records: &Vec<FeedstockRecord>) -> (r: (u32, u32, u32))
    requires
        records@.len() <= u32::MAX,
    ensures
        r.0 as int == count_type(records.deep_view(), RecipeType::RecipeV1),
        r.1 as int == count_type(records.deep_view(), RecipeType::MetaYaml),
        r.2 as int == count_type(records.deep_view(), RecipeType::Unknown),
{
    let mut v1: u32 = 0;
    let mut meta: u32 = 0;
    let mut unknown: u32 = 0;
    let mut i: usize = 0;
    proof {
        assert(records.deep_view().subrange(0, 0) =~= Seq::<RecordView>::empty());
        lemma_count_type_bound(records.deep_view(), RecipeType::RecipeV1);
    }
    while i < records.len()
        invariant
            records@.len() <= u32::MAX,
            0 <= i <= records@.len(),
            v1 as int == count_type(
                records.deep_view().subrange(0, i as int),
                RecipeType::RecipeV1,
            ),
            meta as int == count_type(
                records.deep_view().subrange(0, i as int),
                RecipeType::MetaYaml,
            ),
            unknown as int == count_type(
                records.deep_view().subrange(0, i as int),
                RecipeType::Unknown,
            ),
            v1 <= i && meta <= i && unknown <= i,
        decreases records@.len() - i,
    {
        match records[i].entry.recipe_type {
            RecipeType::RecipeV1 => {
                v1 = v1 + 1;
            },
            RecipeType::MetaYaml => {
                meta = meta + 1;
            },
            RecipeType::Unknown => {
                unknown = unknown + 1;
            },
        }
        proof {
            lemma_count_type_step(records.deep_view(), RecipeType::RecipeV1, i as int);
            lemma_count_type_step(records.deep_view(), RecipeType::MetaYaml, i as int);
            lemma_count_type_step(records.deep_view(), RecipeType::Unknown, i as int);
        }
        i = i + 1;
    }
    proof {
        assert(records.deep_view().subrange(0, records.deep_view().len() as int)
            =~= records.deep_view());
    }
    (v1, meta, unknown)
}

/// A feedstock newly converted to Recipe v1: it is Recipe v1 now, and
/// the previous dataset either lacked it or classified it otherwise.
pub open spec fn is_newly_converted(old_rs: Seq<RecordView>, r: RecordView) -> bool {
    r.entry.recipe_type == RecipeType::RecipeV1 && match entry_of(old_rs, r.name) {
        Some(e) => e.recipe_type != RecipeType::RecipeV1,
        None => true,
    }
}

/// The names of the feedstocks newly converted to Recipe v1, in map
/// order.
pub open spec fn newly_converted_spec(
    old_rs: Seq<RecordView>,
    new_rs: Seq<RecordView>,
) -> Seq<Seq<char>>
    decreases new_rs.len(),
{
    if new_rs.len() == 0 {
        Seq::empty()
    } else {
        let head = newly_converted_spec(old_rs, new_rs.drop_last());
        if is_newly_converted(old_rs, new_rs.last()) {
            head.push(new_rs.last().name)
        } else {
            head
        }
    }
}

proof fn lemma_newly_converted_step(old_rs: Seq<RecordView>, new_rs: Seq<RecordView>, i: int)
    requires
        0 <= i < new_rs.len(),
    ensures
        newly_converted_spec(old_rs, new_rs.subrange(0, i + 1)) == if is_newly_converted(
            old_rs,
            new_rs[i],
        ) {
            newly_converted_spec(old_rs, new_rs.subrange(0, i)).push(new_rs[i].name)
        } else {
            newly_converted_spec(old_rs, new_rs.subrange(0, i))
        },
{
    let s1 = new_rs.subrange(0, i + 1);
    assert(s1.drop_last() =~= new_rs.subrange(0, i));
    assert(s1.last() == new_rs[i]);
}

/// List the feedstocks newly converted to Recipe v1 since the previous
/// dataset.
pub fn newly_converted(
    old_records: &Vec<FeedstockRecord>,
    new_records: &Vec<FeedstockRecord>,
) -> (r: Vec<String>)
    ensures
        r.deep_view() == newly_converted_spec(old_records.deep_view(), new_records.deep_view()),
{
    let mut out: Vec<String> = Vec::new();
    let mut i: usize = 0;
    proof {
        assert(new_records.deep_view().subrange(0, 0) =~= Seq::<RecordView>::empty());
        assert(out.deep_view() =~= newly_converted_spec(
            old_records.deep_view(),
            new_records.deep_view().subrange(0, 0),
        ));
    }
    while i < new_records.len()
        invariant
            0 <= i <= new_records@.len(),
            out.deep_view() == newly_converted_spec(
                old_records.deep_view(),
                new_records.deep_view().subrange(0, i as int),
            ),
        decreases new_records@.len() - i,
    {
        let ghost prev = out.deep_view();
        let is_converted = if matches!(new_records[i].entry.recipe_type, RecipeType::RecipeV1) {
            match crate::orchestrator::find_entry(old_records, new_records[i].name.as_str()) {
                Some(e) => !matches!(e.recipe_type, RecipeType::RecipeV1),
                None => true,
            }
        } else {
            false
        };
        if is_converted {
            out.push(new_records[i].name.clone());
            proof {
                assert(out.deep_view() =~= prev.push(new_records.deep_view()[i as int].name));
            }
        }
        proof {
            lemma_newly_converted_step(
                old_records.deep_view(),
                new_records.deep_view(),
                i as int,
            );
        }
        i = i + 1;
    }
    proof {
        assert(new_records.deep_view().subrange(0, new_records.deep_view().len() as int)
            =~= new_records.deep_view());
    }
    out
}

} // verus!
