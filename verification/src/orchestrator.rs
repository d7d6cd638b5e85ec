//! The Attribution Orchestrator: drives one attribution pass over the
//! feedstock-state map. It applies the refetch/reattribute directives,
//! selects the work set, partitions cached from uncached work so only
//! the latter incurs network queries, persists lookup outcomes in the
//! per-feedstock cache for resumability, and writes the final
//! attribution verdicts.

use vstd::prelude::*;
use vstd::pervasive::VecAdditionalExecFns;

use crate::attribution::{attribution_for, is_initial_message, process_history_result};
use crate::models::{
    AttributionView, AuthorView, CacheView, CommitAuthor, CommitView, EntryView,
    FeedstockEntry, FeedstockRecord, FirstRecipeCommit, HistoryResultView, PullRequestInfo,
    PullRequestView, RecipeCommitCache, RecipeHistoryResult, RecipeType, RecordView, clone_opt,
};
use crate::strutil::eq_str;

verus! {

/// The entry after the two directives: `refetch` discards the cached
/// lookup outcome, and `reattribute` discards the attribution of every
/// Recipe v1 feedstock.
pub open spec fn flags_applied_entry(e: EntryView, reattribute: bool, refetch: bool) -> EntryView {
    let e1 = if refetch {
        EntryView { recipe_commit_cache: None, ..e }
    } else {
        e
    };
    if reattribute && e1.recipe_type == RecipeType::RecipeV1 {
        EntryView { attribution: None, ..e1 }
    } else {
        e1
    }
}

/// Apply the refetch and reattribute directives to every entry:
/// `refetch_recipe_commits` clears the recipe-commit caches, and
/// `reattribute` clears the attributions of Recipe v1 feedstocks.
pub fn apply_flags(
    records: Vec<FeedstockRecord>,
    reattribute: bool,
    refetch_recipe_commits: bool,
) -> (r: Vec<FeedstockRecord>)
    ensures
        r@.len() == records@.len(),
        r.deep_view() == flagged_records(
            records.deep_view(),
            reattribute,
            refetch_recipe_commits,
        ),
{
    let mut records = records;
    let n = records.len();
    let ghost orig = records.deep_view();
    let mut i: usize = 0;
    while i < n
        invariant
            n == records@.len(),
            orig.len() == n,
            0 <= i <= n,
            forall|k: int|
                i <= k < n ==> records.deep_view()[k] == orig[k],
            forall|k: int|
                0 <= k < i ==> records.deep_view()[k] == (RecordView {
                    name: orig[k].name,
                    entry: flags_applied_entry(orig[k].entry, reattribute, refetch_recipe_commits),
                }),
        decreases n - i,
    {
        let entry = records[i].entry.clone();
        let name = records[i].name.clone();
        let entry = if refetch_recipe_commits {
            entry_without_cache(entry)
        } else {
            entry
        };
        let entry = if reattribute && matches!(entry.recipe_type, RecipeType::RecipeV1) {
            entry_without_attribution(entry)
        } else {
            entry
        };
        proof {
            assert(entry@ == flags_applied_entry(orig[i as int].entry, reattribute,
                refetch_recipe_commits));
        }
        let ghost prev = records@;
        let ghost prevdv = records.deep_view();
        records.set(i, FeedstockRecord { name, entry });
        proof {
            assert(records@ == prev.update(i as int, FeedstockRecord { name, entry }));
            assert forall|k: int| 0 <= k < n && k != i implies records.deep_view()[k]
                == prevdv[k] by {
                assert(records@[k] == prev[k]);
                assert(prevdv[k] == prev[k].deep_view());
            }
            assert(records.deep_view()[i as int] == records@[i as int]@);
            assert forall|k: int| 0 <= k < i + 1 implies records.deep_view()[k] == (RecordView {
                name: orig[k].name,
                entry: flags_applied_entry(orig[k].entry, reattribute, refetch_recipe_commits),
            }) by {
                if k < i {
                    assert(records.deep_view()[k] == prevdv[k]);
                    assert(prevdv[k] == (RecordView {
                        name: orig[k].name,
                        entry: flags_applied_entry(orig[k].entry, reattribute,
                            refetch_recipe_commits),
                    }));
                }
            }
        }
        i = i + 1;
    }
    proof {
        assert(records.deep_view() =~= flagged_records(orig, reattribute, refetch_recipe_commits));
    }
    records
}

/// The entry without its recipe-commit cache.
fn entry_without_cache(e: FeedstockEntry) -> (r: FeedstockEntry)
    ensures
        r@ == (EntryView { recipe_commit_cache: None, ..e@ }),
{
    FeedstockEntry {
        recipe_type: e.recipe_type,
        last_changed: e.last_changed,
        attribution: e.attribution,
        downloads: e.downloads,
        recipe_commit_cache: None,
    }
}

/// The entry without its attribution.
fn entry_without_attribution(e: FeedstockEntry) -> (r: FeedstockEntry)
    ensures
        r@ == (EntryView { attribution: None, ..e@ }),
{
    FeedstockEntry {
        recipe_type: e.recipe_type,
        last_changed: e.last_changed,
        attribution: None,
        downloads: e.downloads,
        recipe_commit_cache: e.recipe_commit_cache,
    }
}

/// A feedstock that needs attribution: classified Recipe v1 and not
/// yet attributed.
pub open spec fn needs_attr(e: EntryView) -> bool {
    e.recipe_type == RecipeType::RecipeV1 && e.attribution is None
}

/// The names of the feedstocks that need attribution, in map order.
pub open spec fn needs_list(rs: Seq<RecordView>) -> Seq<Seq<char>>
    decreases rs.len(),
{
    if rs.len() == 0 {
        Seq::empty()
    } else {
        let head = needs_list(rs.drop_last());
        if needs_attr(rs.last().entry) {
            head.push(rs.last().name)
        } else {
            head
        }
    }
}

proof fn lemma_needs_list_step(rs: Seq<RecordView>, i: int)
    requires
        0 <= i < rs.len(),
    ensures
        needs_list(rs.subrange(0, i + 1)) == if needs_attr(rs[i].entry) {
            needs_list(rs.subrange(0, i)).push(rs[i].name)
        } else {
            needs_list(rs.subrange(0, i))
        },
{
    let s1 = rs.subrange(0, i + 1);
    assert(s1.drop_last() =~= rs.subrange(0, i));
    assert(s1.last() == rs[i]);
}

/// Select the work set: every feedstock classified Recipe v1 with no
/// current attribution, in map order.
pub fn needs_attribution(records: &Vec<FeedstockRecord>) -> (r: Vec<String>)
    ensures
        r.deep_view() == needs_list(records.deep_view()),
{
    let mut out: Vec<String> = Vec::new();
    let mut i: usize = 0;
    proof {
        assert(needs_list(records.deep_view().subrange(0, 0)) =~= Seq::<Seq<char>>::empty());
        assert(out.deep_view() =~= Seq::<Seq<char>>::empty());
    }
    while i < records.len()
        invariant
            0 <= i <= records@.len(),
            out.deep_view() == needs_list(records.deep_view().subrange(0, i as int)),
        decreases records@.len() - i,
    {
        let ghost prev = out.deep_view();
        let e = &records[i].entry;
        let is_needed = matches!(e.recipe_type, RecipeType::RecipeV1) && e.attribution.is_none();
        if is_needed {
            out.push(records[i].name.clone());
            proof {
                assert(out.deep_view() =~= prev.push(records.deep_view()[i as int].name));
            }
        }
        proof {
            lemma_needs_list_step(records.deep_view(), i as int);
        }
        i = i + 1;
    }
    proof {
        assert(records.deep_view().subrange(0, records.deep_view().len() as int)
            =~= records.deep_view());
    }
    out
}

/// The entry stored under `name`, reading the first record that bears
/// it.
pub open spec fn entry_of(rs: Seq<RecordView>, name: Seq<char>) -> Option<EntryView>
    decreases rs.len(),
{
    if rs.len() == 0 {
        None
    } else if rs.first().name == name {
        Some(rs.first().entry)
    } else {
        entry_of(rs.drop_first(), name)
    }
}

/// A feedstock whose lookup outcome is already cached.
pub open spec fn has_cache(rs: Seq<RecordView>, name: Seq<char>) -> bool {
    match entry_of(rs, name) {
        Some(e) => e.recipe_commit_cache is Some,
        None => false,
    }
}

proof fn lemma_entry_of_prefix(rs: Seq<RecordView>, name: Seq<char>, i: int)
    requires
        0 <= i <= rs.len(),
        forall|k: int| 0 <= k < i ==> rs[k].name != name,
        i == rs.len() || rs[i].name == name,
    ensures
        entry_of(rs, name) == if i == rs.len() {
            None::<EntryView>
        } else {
            Some(rs[i].entry)
        },
    decreases i,
{
    if i == 0 {
    } else {
        let t = rs.drop_first();
        assert(t =~= rs.subrange(1, rs.len() as int));
        lemma_entry_of_prefix(t, name, i - 1);
    }
}

/// Look up the entry recorded under a feedstock name.
pub fn find_entry<'a>(records: &'a Vec<FeedstockRecord>, name: &str) -> (r: Option<
    &'a crate::models::FeedstockEntry,
>)
    ensures
        match r {
            Some(e) => entry_of(records.deep_view(), name@) == Some(e@),
            None => entry_of(records.deep_view(), name@) is None,
        },
{
    let mut i: usize = 0;
    while i < records.len()
        invariant
            0 <= i <= records@.len(),
            forall|k: int| 0 <= k < i ==> records.deep_view()[k].name != name@,
        decreases records@.len() - i,
    {
        if eq_str(records[i].name.as_str(), name) {
            proof {
                lemma_entry_of_prefix(records.deep_view(), name@, i as int);
            }
            return Some(&records[i].entry);
        }
        i = i + 1;
    }
    proof {
        lemma_entry_of_prefix(records.deep_view(), name@, records.deep_view().len() as int);
    }
    None
}

/// The names among `names` whose lookup outcome is cached, in order.
pub open spec fn cached_list(rs: Seq<RecordView>, names: Seq<Seq<char>>) -> Seq<Seq<char>>
    decreases names.len(),
{
    if names.len() == 0 {
        Seq::empty()
    } else {
        let head = cached_list(rs, names.drop_last());
        if has_cache(rs, names.last()) {
            head.push(names.last())
        } else {
            head
        }
    }
}

/// The names among `names` that need a fresh history query, in order.
pub open spec fn fetch_list(rs: Seq<RecordView>, names: Seq<Seq<char>>) -> Seq<Seq<char>>
    decreases names.len(),
{
    if names.len() == 0 {
        Seq::empty()
    } else {
        let head = fetch_list(rs, names.drop_last());
        if has_cache(rs, names.last()) {
            head
        } else {
            head.push(names.last())
        }
    }
}

proof fn lemma_partition_step(rs: Seq<RecordView>, names: Seq<Seq<char>>, i: int)
    requires
        0 <= i < names.len(),
    ensures
        cached_list(rs, names.subrange(0, i + 1)) == if has_cache(rs, names[i]) {
            cached_list(rs, names.subrange(0, i)).push(names[i])
        } else {
            cached_list(rs, names.subrange(0, i))
        },
        fetch_list(rs, names.subrange(0, i + 1)) == if has_cache(rs, names[i]) {
            fetch_list(rs, names.subrange(0, i))
        } else {
            fetch_list(rs, names.subrange(0, i)).push(names[i])
        },
{
    let s1 = names.subrange(0, i + 1);
    assert(s1.drop_last() =~= names.subrange(0, i));
    assert(s1.last() == names[i]);
}

/// Partition the work set into feedstocks with a valid cached lookup
/// outcome and feedstocks that need a fresh history query; only the
/// latter incur network traffic.
pub fn partition_cached(records: &Vec<FeedstockRecord>, needs: &Vec<String>) -> (r: (
    Vec<String>,
    Vec<String>,
))
    ensures
        r.0.deep_view() == cached_list(records.deep_view(), needs.deep_view()),
        r.1.deep_view() == fetch_list(records.deep_view(), needs.deep_view()),
{
    let mut cached: Vec<String> = Vec::new();
    let mut fetch: Vec<String> = Vec::new();
    let mut i: usize = 0;
    proof {
        assert(needs.deep_view().subrange(0, 0) =~= Seq::<Seq<char>>::empty());
        assert(cached.deep_view() =~= cached_list(
            records.deep_view(),
            needs.deep_view().subrange(0, 0),
        ));
        assert(fetch.deep_view() =~= fetch_list(
            records.deep_view(),
            needs.deep_view().subrange(0, 0),
        ));
    }
    while i < needs.len()
        invariant
            0 <= i <= needs@.len(),
            cached.deep_view() == cached_list(
                records.deep_view(),
                needs.deep_view().subrange(0, i as int),
            ),
            fetch.deep_view() == fetch_list(
                records.deep_view(),
                needs.deep_view().subrange(0, i as int),
            ),
        decreases needs@.len() - i,
    {
        let ghost prev_cached = cached.deep_view();
        let ghost prev_fetch = fetch.deep_view();
        let is_cached = match find_entry(records, needs[i].as_str()) {
            Some(e) => e.recipe_commit_cache.is_some(),
            None => false,
        };
        if is_cached {
            cached.push(needs[i].clone());
            proof {
                assert(cached.deep_view() =~= prev_cached.push(needs.deep_view()[i as int]));
            }
        } else {
            fetch.push(needs[i].clone());
            proof {
                assert(fetch.deep_view() =~= prev_fetch.push(needs.deep_view()[i as int]));
            }
        }
        proof {
            lemma_partition_step(records.deep_view(), needs.deep_view(), i as int);
        }
        i = i + 1;
    }
    proof {
        assert(needs.deep_view().subrange(0, needs.deep_view().len() as int)
            =~= needs.deep_view());
    }
    (cached, fetch)
}

/// The commit a cached lookup outcome stands for.
pub open spec fn cache_to_commit(c: CacheView) -> CommitView {
    CommitView {
        sha: c.sha,
        author: AuthorView { login: c.author_login, name: c.author_name, email: c.author_email },
        date: c.date,
        message: c.message,
    }
}

/// The history results reconstructed from the cache for the given
/// names, in order; names without a cached outcome yield nothing.
pub open spec fn cached_results_spec(rs: Seq<RecordView>, names: Seq<Seq<char>>) -> Seq<
    HistoryResultView,
>
    decreases names.len(),
{
    if names.len() == 0 {
        Seq::empty()
    } else {
        let head = cached_results_spec(rs, names.drop_last());
        match entry_of(rs, names.last()) {
            Some(e) => match e.recipe_commit_cache {
                Some(c) => head.push(
                    HistoryResultView {
                        feedstock: names.last(),
                        first_recipe_commit: Some(cache_to_commit(c)),
                        error: None,
                    },
                ),
                None => head,
            },
            None => head,
        }
    }
}

proof fn lemma_cached_results_step(rs: Seq<RecordView>, names: Seq<Seq<char>>, i: int)
    requires
        0 <= i < names.len(),
    ensures
        cached_results_spec(rs, names.subrange(0, i + 1)) == (match entry_of(rs, names[i]) {
            Some(e) => match e.recipe_commit_cache {
                Some(c) => cached_results_spec(rs, names.subrange(0, i)).push(
                    HistoryResultView {
                        feedstock: names[i],
                        first_recipe_commit: Some(cache_to_commit(c)),
                        error: None,
                    },
                ),
                None => cached_results_spec(rs, names.subrange(0, i)),
            },
            None => cached_results_spec(rs, names.subrange(0, i)),
        }),
{
    let s1 = names.subrange(0, i + 1);
    assert(s1.drop_last() =~= names.subrange(0, i));
    assert(s1.last() == names[i]);
}

/// Rebuild history results from the cached lookup outcomes of the
/// given feedstocks, sparing them a network query.
pub fn cached_results(records: &Vec<FeedstockRecord>, cached: &Vec<String>) -> (r: Vec<
    RecipeHistoryResult,
>)
    ensures
        r.deep_view() == cached_results_spec(records.deep_view(), cached.deep_view()),
{
    let mut out: Vec<RecipeHistoryResult> = Vec::new();
    let mut i: usize = 0;
    proof {
        assert(cached.deep_view().subrange(0, 0) =~= Seq::<Seq<char>>::empty());
        assert(out.deep_view() =~= cached_results_spec(
            records.deep_view(),
            cached.deep_view().subrange(0, 0),
        ));
    }
    while i < cached.len()
        invariant
            0 <= i <= cached@.len(),
            out.deep_view() == cached_results_spec(
                records.deep_view(),
                cached.deep_view().subrange(0, i as int),
            ),
        decreases cached@.len() - i,
    {
        let ghost prev = out.deep_view();
        match find_entry(records, cached[i].as_str()) {
            Some(e) => match &e.recipe_commit_cache {
                Some(c) => {
                    let result = RecipeHistoryResult {
                        feedstock: cached[i].clone(),
                        first_recipe_commit: Some(
                            FirstRecipeCommit {
                                sha: c.sha.clone(),
                                author: CommitAuthor {
                                    login: crate::models::clone_opt(&c.author_login),
                                    name: c.author_name.clone(),
                                    email: c.author_email.clone(),
                                },
                                date: c.date.clone(),
                                message: c.message.clone(),
                            },
                        ),
                        error: None,
                    };
                    out.push(result);
                    proof {
                        assert(out.deep_view() =~= prev.push(
                            HistoryResultView {
                                feedstock: cached.deep_view()[i as int],
                                first_recipe_commit: Some(cache_to_commit(c@)),
                                error: None,
                            },
                        ));
                    }
                },
                None => {},
            },
            None => {},
        }
        proof {
            lemma_cached_results_step(records.deep_view(), cached.deep_view(), i as int);
        }
        i = i + 1;
    }
    proof {
        assert(cached.deep_view().subrange(0, cached.deep_view().len() as int)
            =~= cached.deep_view());
    }
    out
}

/// The position of the first record named `name`, or -1.
pub open spec fn index_of_name(rs: Seq<RecordView>, name: Seq<char>) -> int
    decreases rs.len(),
{
    if rs.len() == 0 {
        -1
    } else if rs.first().name == name {
        0
    } else {
        let r = index_of_name(rs.drop_first(), name);
        if r == -1 {
            -1
        } else {
            r + 1
        }
    }
}

proof fn lemma_index_of_name_prefix(rs: Seq<RecordView>, name: Seq<char>, i: int)
    requires
        0 <= i <= rs.len(),
        forall|k: int| 0 <= k < i ==> rs[k].name != name,
        i == rs.len() || rs[i].name == name,
    ensures
        index_of_name(rs, name) == if i == rs.len() {
            -1
        } else {
            i
        },
    decreases i,
{
    if i == 0 {
    } else {
        let t = rs.drop_first();
        assert(t =~= rs.subrange(1, rs.len() as int));
        lemma_index_of_name_prefix(t, name, i - 1);
    }
}

/// A found position names the record asked for.
proof fn lemma_index_of_name_found(rs: Seq<RecordView>, name: Seq<char>)
    ensures
        index_of_name(rs, name) != -1 ==> 0 <= index_of_name(rs, name) < rs.len() && rs[
            index_of_name(rs, name)].name == name,
    decreases rs.len(),
{
    if rs.len() > 0 && rs.first().name != name {
        lemma_index_of_name_found(rs.drop_first(), name);
        assert(rs.drop_first() =~= rs.subrange(1, rs.len() as int));
    }
}

/// Find the position of the record named `name`.
pub fn find_record_index(records: &Vec<FeedstockRecord>, name: &str) -> (r: Option<usize>)
    ensures
        match r {
            Some(i) => i < records@.len() && index_of_name(records.deep_view(), name@) == i as int,
            None => index_of_name(records.deep_view(), name@) == -1,
        },
{
    let mut i: usize = 0;
    while i < records.len()
        invariant
            0 <= i <= records@.len(),
            forall|k: int| 0 <= k < i ==> records.deep_view()[k].name != name@,
        decreases records@.len() - i,
    {
        if eq_str(records[i].name.as_str(), name) {
            proof {
                lemma_index_of_name_prefix(records.deep_view(), name@, i as int);
            }
            return Some(i);
        }
        i = i + 1;
    }
    proof {
        lemma_index_of_name_prefix(records.deep_view(), name@, records.deep_view().len() as int);
    }
    None
}

/// The cached form of a located commit.
pub open spec fn commit_to_cache(c: CommitView) -> CacheView {
    CacheView {
        sha: c.sha,
        message: c.message,
        date: c.date,
        author_login: c.author.login,
        author_name: c.author.name,
        author_email: c.author.email,
    }
}

/// Storing one lookup outcome: a result with a located commit writes
/// that commit into the cache of the record bearing its feedstock
/// name; anything else changes nothing.
pub open spec fn store_one(rs: Seq<RecordView>, res: HistoryResultView) -> Seq<RecordView> {
    match res.first_recipe_commit {
        None => rs,
        Some(c) => {
            let i = index_of_name(rs, res.feedstock);
            if i == -1 {
                rs
            } else {
                rs.update(
                    i,
                    RecordView {
                        name: rs[i].name,
                        entry: EntryView {
                            recipe_commit_cache: Some(commit_to_cache(c)),
                            ..rs[i].entry
                        },
                    },
                )
            }
        },
    }
}

/// Storing every lookup outcome, in order.
pub open spec fn store_all(rs: Seq<RecordView>, results: Seq<HistoryResultView>) -> Seq<
    RecordView,
>
    decreases results.len(),
{
    if results.len() == 0 {
        rs
    } else {
        store_one(store_all(rs, results.drop_last()), results.last())
    }
}

proof fn lemma_store_all_step(rs: Seq<RecordView>, results: Seq<HistoryResultView>, j: int)
    requires
        0 <= j < results.len(),
    ensures
        store_all(rs, results.subrange(0, j + 1)) == store_one(
            store_all(rs, results.subrange(0, j)),
            results[j],
        ),
{
    let s1 = results.subrange(0, j + 1);
    assert(s1.drop_last() =~= results.subrange(0, j));
    assert(s1.last() == results[j]);
}

/// Persist the located commit of every fresh lookup outcome into the
/// per-feedstock cache, so a later run can resume at classification
/// without re-querying the API.
pub fn store_commit_caches(
    records: Vec<FeedstockRecord>,
    results: &Vec<RecipeHistoryResult>,
) -> (r: Vec<FeedstockRecord>)
    ensures
        r@.len() == records@.len(),
        r.deep_view() == store_all(records.deep_view(), results.deep_view()),
{
    let mut records = records;
    let ghost orig = records.deep_view();
    let mut j: usize = 0;
    proof {
        assert(results.deep_view().subrange(0, 0) =~= Seq::<HistoryResultView>::empty());
    }
    while j < results.len()
        invariant
            0 <= j <= results@.len(),
            records@.len() == orig.len(),
            records.deep_view() == store_all(orig, results.deep_view().subrange(0, j as int)),
        decreases results@.len() - j,
    {
        let ghost resv = results.deep_view()[j as int];
        match &results[j].first_recipe_commit {
            None => {},
            Some(c) => {
                match find_record_index(&records, results[j].feedstock.as_str()) {
                    None => {},
                    Some(i) => {
                        let name = records[i].name.clone();
                        let e = records[i].entry.clone();
                        let entry = FeedstockEntry {
                            recipe_type: e.recipe_type,
                            last_changed: e.last_changed,
                            attribution: e.attribution,
                            downloads: e.downloads,
                            recipe_commit_cache: Some(
                                RecipeCommitCache {
                                    sha: c.sha.clone(),
                                    message: c.message.clone(),
                                    date: c.date.clone(),
                                    author_login: clone_opt(&c.author.login),
                                    author_name: c.author.name.clone(),
                                    author_email: c.author.email.clone(),
                                },
                            ),
                        };
                        let ghost prev = records@;
                        let ghost prevdv = records.deep_view();
                        records.set(i, FeedstockRecord { name, entry });
                        proof {
                            assert(records@ == prev.update(
                                i as int,
                                FeedstockRecord { name, entry },
                            ));
                            assert(records.deep_view()[i as int] == records@[i as int]@);
                            assert(records@[i as int]@ == (RecordView {
                                name: prevdv[i as int].name,
                                entry: EntryView {
                                    recipe_commit_cache: Some(commit_to_cache(resv.first_recipe_commit->0)),
                                    ..prevdv[i as int].entry
                                },
                            }));
                            assert forall|k: int| 0 <= k < prevdv.len() implies records.deep_view()[k]
                                == store_one(prevdv, resv)[k] by {
                                if k != i {
                                    assert(records@[k] == prev[k]);
                                    assert(records.deep_view()[k] == prevdv[k]);
                                }
                            }
                            assert(records.deep_view() =~= store_one(prevdv, resv));
                        }
                    },
                }
            },
        }
        proof {
            lemma_store_all_step(orig, results.deep_view(), j as int);
            assert(records.deep_view() == store_all(
                orig,
                results.deep_view().subrange(0, j + 1),
            ));
        }
        j = j + 1;
    }
    proof {
        assert(results.deep_view().subrange(0, results.deep_view().len() as int)
            =~= results.deep_view());
    }
    records
}

/// A lookup outcome whose located commit's message marks the initial
/// feedstock commit: the feedstock is a new feedstock, with no further
/// history walk or clone needed.
pub open spec fn result_is_initial(r: HistoryResultView) -> bool {
    match r.first_recipe_commit {
        Some(c) => is_initial_message(c.message),
        None => false,
    }
}

/// The feedstocks among the results that are new feedstocks by the
/// initial-commit-message test, in result order.
pub open spec fn new_feedstock_names(results: Seq<HistoryResultView>) -> Seq<Seq<char>>
    decreases results.len(),
{
    if results.len() == 0 {
        Seq::empty()
    } else {
        let head = new_feedstock_names(results.drop_last());
        if result_is_initial(results.last()) {
            head.push(results.last().feedstock)
        } else {
            head
        }
    }
}

proof fn lemma_new_feedstock_names_step(results: Seq<HistoryResultView>, j: int)
    requires
        0 <= j < results.len(),
    ensures
        new_feedstock_names(results.subrange(0, j + 1)) == if result_is_initial(results[j]) {
            new_feedstock_names(results.subrange(0, j)).push(results[j].feedstock)
        } else {
            new_feedstock_names(results.subrange(0, j))
        },
{
    let s1 = results.subrange(0, j + 1);
    assert(s1.drop_last() =~= results.subrange(0, j));
    assert(s1.last() == results[j]);
}

/// Partition the results by the new-feedstock test: a feedstock whose
/// located commit is the repository's initial feedstock commit is new;
/// the rest are conversions.
pub fn classify_new_feedstocks(results: &Vec<RecipeHistoryResult>) -> (r: Vec<String>)
    ensures
        r.deep_view() == new_feedstock_names(results.deep_view()),
{
    let mut out: Vec<String> = Vec::new();
    let mut j: usize = 0;
    proof {
        assert(results.deep_view().subrange(0, 0) =~= Seq::<HistoryResultView>::empty());
        assert(out.deep_view() =~= new_feedstock_names(results.deep_view().subrange(0, 0)));
    }
    while j < results.len()
        invariant
            0 <= j <= results@.len(),
            out.deep_view() == new_feedstock_names(results.deep_view().subrange(0, j as int)),
        decreases results@.len() - j,
    {
        let ghost prev = out.deep_view();
        let is_initial = match &results[j].first_recipe_commit {
            Some(c) => crate::attribution::is_initial_feedstock_commit(c.message.as_str()),
            None => false,
        };
        if is_initial {
            out.push(results[j].feedstock.clone());
            proof {
                assert(out.deep_view() =~= prev.push(
                    results.deep_view()[j as int].feedstock,
                ));
            }
        }
        proof {
            lemma_new_feedstock_names_step(results.deep_view(), j as int);
        }
        j = j + 1;
    }
    proof {
        assert(results.deep_view().subrange(0, results.deep_view().len() as int)
            =~= results.deep_view());
    }
    out
}

/// Whether `name` occurs in a list of names.
pub fn name_in_list(names: &Vec<String>, name: &str) -> (r: bool)
    ensures
        r == names.deep_view().contains(name@),
{
    let mut i: usize = 0;
    while i < names.len()
        invariant
            0 <= i <= names@.len(),
            forall|k: int| 0 <= k < i ==> names.deep_view()[k] != name@,
        decreases names@.len() - i,
    {
        if eq_str(names[i].as_str(), name) {
            assert(names.deep_view()[i as int] == name@);
            return true;
        }
        i = i + 1;
    }
    false
}

/// The commit-lookup requests for the conversions: each result that is
/// not a new feedstock and has a located commit yields its feedstock
/// name and commit sha, in result order.
pub open spec fn conversion_requests(
    results: Seq<HistoryResultView>,
    new_names: Seq<Seq<char>>,
) -> Seq<(Seq<char>, Seq<char>)>
    decreases results.len(),
{
    if results.len() == 0 {
        Seq::empty()
    } else {
        let head = conversion_requests(results.drop_last(), new_names);
        let r = results.last();
        if !new_names.contains(r.feedstock) {
            match r.first_recipe_commit {
                Some(c) => head.push((r.feedstock, c.sha)),
                None => head,
            }
        } else {
            head
        }
    }
}

proof fn lemma_conversion_requests_step(
    results: Seq<HistoryResultView>,
    new_names: Seq<Seq<char>>,
    j: int,
)
    requires
        0 <= j < results.len(),
    ensures
        conversion_requests(results.subrange(0, j + 1), new_names) == (
        if !new_names.contains(results[j].feedstock) {
            match results[j].first_recipe_commit {
                Some(c) => conversion_requests(results.subrange(0, j), new_names).push(
                    (results[j].feedstock, c.sha),
                ),
                None => conversion_requests(results.subrange(0, j), new_names),
            }
        } else {
            conversion_requests(results.subrange(0, j), new_names)
        }),
{
    let s1 = results.subrange(0, j + 1);
    assert(s1.drop_last() =~= results.subrange(0, j));
    assert(s1.last() == results[j]);
}

/// Collect the pull-request lookups needed for the conversions: one
/// (feedstock, commit sha) pair per conversion with a located commit.
pub fn conversion_commit_requests(
    results: &Vec<RecipeHistoryResult>,
    new_feedstocks: &Vec<String>,
) -> (r: Vec<(String, String)>)
    ensures
        r.deep_view() == conversion_requests(results.deep_view(), new_feedstocks.deep_view()),
{
    let mut out: Vec<(String, String)> = Vec::new();
    let mut j: usize = 0;
    proof {
        assert(results.deep_view().subrange(0, 0) =~= Seq::<HistoryResultView>::empty());
        assert(out.deep_view() =~= conversion_requests(
            results.deep_view().subrange(0, 0),
            new_feedstocks.deep_view(),
        ));
    }
    while j < results.len()
        invariant
            0 <= j <= results@.len(),
            out.deep_view() == conversion_requests(
                results.deep_view().subrange(0, j as int),
                new_feedstocks.deep_view(),
            ),
        decreases results@.len() - j,
    {
        let ghost prev = out.deep_view();
        if !name_in_list(new_feedstocks, results[j].feedstock.as_str()) {
            match &results[j].first_recipe_commit {
                Some(c) => {
                    out.push((results[j].feedstock.clone(), c.sha.clone()));
                    proof {
                        assert(out.deep_view() =~= prev.push(
                            (
                                results.deep_view()[j as int].feedstock,
                                results.deep_view()[j as int].first_recipe_commit->0.sha,
                            ),
                        ));
                    }
                },
                None => {},
            }
        }
        proof {
            lemma_conversion_requests_step(
                results.deep_view(),
                new_feedstocks.deep_view(),
                j as int,
            );
        }
        j = j + 1;
    }
    proof {
        assert(results.deep_view().subrange(0, results.deep_view().len() as int)
            =~= results.deep_view());
    }
    out
}

/// The first value stored under `name` in an association list.
pub open spec fn assoc<V>(m: Seq<(Seq<char>, V)>, name: Seq<char>) -> Option<V>
    decreases m.len(),
{
    if m.len() == 0 {
        None
    } else if m.first().0 == name {
        Some(m.first().1)
    } else {
        assoc(m.drop_first(), name)
    }
}

proof fn lemma_assoc_prefix<V>(m: Seq<(Seq<char>, V)>, name: Seq<char>, i: int)
    requires
        0 <= i <= m.len(),
        forall|k: int| 0 <= k < i ==> m[k].0 != name,
        i == m.len() || m[i].0 == name,
    ensures
        assoc(m, name) == if i == m.len() {
            None::<V>
        } else {
            Some(m[i].1)
        },
    decreases i,
{
    if i == 0 {
    } else {
        let t = m.drop_first();
        assert(t =~= m.subrange(1, m.len() as int));
        lemma_assoc_prefix(t, name, i - 1);
    }
}

/// Look up a value by feedstock name in an association list.
pub fn assoc_lookup<'a, V: DeepView>(m: &'a Vec<(String, V)>, name: &str) -> (r: Option<&'a V>)
    ensures
        (match r {
            Some(v) => Some(v.deep_view()),
            None => None,
        }) == assoc(m.deep_view(), name@),
{
    let mut i: usize = 0;
    while i < m.len()
        invariant
            0 <= i <= m@.len(),
            forall|k: int| 0 <= k < i ==> m.deep_view()[k].0 != name@,
        decreases m@.len() - i,
    {
        if eq_str(m[i].0.as_str(), name) {
            proof {
                lemma_assoc_prefix(m.deep_view(), name@, i as int);
            }
            return Some(&m[i].1);
        }
        i = i + 1;
    }
    proof {
        lemma_assoc_prefix(m.deep_view(), name@, m.deep_view().len() as int);
    }
    None
}

/// The pull-request lookups among the conversions whose request was
/// opened by a bot: those need the human contributor resolved from the
/// request's own commits.
pub open spec fn bot_pr_list(prs: Seq<(Seq<char>, PullRequestView)>) -> Seq<(Seq<char>, u32)>
    decreases prs.len(),
{
    if prs.len() == 0 {
        Seq::empty()
    } else {
        let head = bot_pr_list(prs.drop_last());
        if crate::attribution::is_bot_name(prs.last().1.author) {
            head.push((prs.last().0, prs.last().1.number))
        } else {
            head
        }
    }
}

proof fn lemma_bot_pr_list_step(prs: Seq<(Seq<char>, PullRequestView)>, j: int)
    requires
        0 <= j < prs.len(),
    ensures
        bot_pr_list(prs.subrange(0, j + 1)) == if crate::attribution::is_bot_name(prs[j].1.author) {
            bot_pr_list(prs.subrange(0, j)).push((prs[j].0, prs[j].1.number))
        } else {
            bot_pr_list(prs.subrange(0, j))
        },
{
    let s1 = prs.subrange(0, j + 1);
    assert(s1.drop_last() =~= prs.subrange(0, j));
    assert(s1.last() == prs[j]);
}

/// Collect the bot-authored pull requests, whose human contributors
/// must be resolved from the requests' own commits.
pub fn bot_pr_requests(pr_map: &Vec<(String, PullRequestInfo)>) -> (r: Vec<(String, u32)>)
    ensures
        r.deep_view() == bot_pr_list(pr_map.deep_view()),
{
    let mut out: Vec<(String, u32)> = Vec::new();
    let mut j: usize = 0;
    proof {
        assert(pr_map.deep_view().subrange(0, 0) =~= Seq::<(Seq<char>, PullRequestView)>::empty());
        assert(out.deep_view() =~= bot_pr_list(pr_map.deep_view().subrange(0, 0)));
    }
    while j < pr_map.len()
        invariant
            0 <= j <= pr_map@.len(),
            out.deep_view() == bot_pr_list(pr_map.deep_view().subrange(0, j as int)),
        decreases pr_map@.len() - j,
    {
        let ghost prev = out.deep_view();
        if crate::attribution::is_bot_username(pr_map[j].1.author.as_str()) {
            out.push((pr_map[j].0.clone(), pr_map[j].1.number));
            proof {
                assert(out.deep_view() =~= prev.push(
                    (pr_map.deep_view()[j as int].0, pr_map.deep_view()[j as int].1.number),
                ));
            }
        }
        proof {
            lemma_bot_pr_list_step(pr_map.deep_view(), j as int);
        }
        j = j + 1;
    }
    proof {
        assert(pr_map.deep_view().subrange(0, pr_map.deep_view().len() as int)
            =~= pr_map.deep_view());
    }
    out
}

/// The verdict one result gets, from the pre-fetched materials: the
/// new-feedstock set, the pull requests, the maintainer lists, and the
/// resolved humans of bot-opened requests.
pub open spec fn verdict_for(
    res: HistoryResultView,
    new_names: Seq<Seq<char>>,
    prs: Seq<(Seq<char>, PullRequestView)>,
    maints: Seq<(Seq<char>, Seq<Seq<char>>)>,
    bots: Seq<(Seq<char>, Seq<char>)>,
) -> Option<AttributionView> {
    attribution_for(
        res,
        new_names.contains(res.feedstock),
        assoc(prs, res.feedstock),
        assoc(maints, res.feedstock),
        assoc(bots, res.feedstock),
    )
}

/// Recording one outcome: when a result has an attribution, the record
/// bearing its feedstock name receives it and one attribution is
/// counted; anything else changes nothing.
pub open spec fn apply_one(
    rs: Seq<RecordView>,
    res: HistoryResultView,
    new_names: Seq<Seq<char>>,
    prs: Seq<(Seq<char>, PullRequestView)>,
    maints: Seq<(Seq<char>, Seq<Seq<char>>)>,
    bots: Seq<(Seq<char>, Seq<char>)>,
) -> (Seq<RecordView>, int) {
    match verdict_for(res, new_names, prs, maints, bots) {
        None => (rs, 0),
        Some(a) => {
            let i = index_of_name(rs, res.feedstock);
            if i == -1 {
                (rs, 0)
            } else {
                (
                    rs.update(
                        i,
                        RecordView {
                            name: rs[i].name,
                            entry: EntryView { attribution: Some(a), ..rs[i].entry },
                        },
                    ),
                    1,
                )
            }
        },
    }
}

/// Writing every verdict, in order, counting the feedstocks
/// attributed.
pub open spec fn apply_all(
    rs: Seq<RecordView>,
    results: Seq<HistoryResultView>,
    new_names: Seq<Seq<char>>,
    prs: Seq<(Seq<char>, PullRequestView)>,
    maints: Seq<(Seq<char>, Seq<Seq<char>>)>,
    bots: Seq<(Seq<char>, Seq<char>)>,
) -> (Seq<RecordView>, int)
    decreases results.len(),
{
    if results.len() == 0 {
        (rs, 0)
    } else {
        let head = apply_all(rs, results.drop_last(), new_names, prs, maints, bots);
        let step = apply_one(head.0, results.last(), new_names, prs, maints, bots);
        (step.0, head.1 + step.1)
    }
}

proof fn lemma_apply_all_step(
    rs: Seq<RecordView>,
    results: Seq<HistoryResultView>,
    new_names: Seq<Seq<char>>,
    prs: Seq<(Seq<char>, PullRequestView)>,
    maints: Seq<(Seq<char>, Seq<Seq<char>>)>,
    bots: Seq<(Seq<char>, Seq<char>)>,
    j: int,
)
    requires
        0 <= j < results.len(),
    ensures
        apply_all(rs, results.subrange(0, j + 1), new_names, prs, maints, bots) == ({
            let head = apply_all(rs, results.subrange(0, j), new_names, prs, maints, bots);
            let step = apply_one(head.0, results[j], new_names, prs, maints, bots);
            (step.0, head.1 + step.1)
        }),
{
    let s1 = results.subrange(0, j + 1);
    assert(s1.drop_last() =~= results.subrange(0, j));
    assert(s1.last() == results[j]);
}

/// Write a final attribution into each feedstock's entry from its
/// result and the pre-fetched materials, and count how many were
/// attributed.
pub fn apply_attributions(
    records: Vec<FeedstockRecord>,
    results: &Vec<RecipeHistoryResult>,
    new_feedstocks: &Vec<String>,
    pr_map: &Vec<(String, PullRequestInfo)>,
    maintainers_map: &Vec<(String, Vec<String>)>,
    bot_pr_contributors: &Vec<(String, String)>,
) -> (r: (Vec<FeedstockRecord>, u32))
    requires
        results@.len() <= u32::MAX,
    ensures
        r.0@.len() == records@.len(),
        (r.0.deep_view(), r.1 as int) == apply_all(
            records.deep_view(),
            results.deep_view(),
            new_feedstocks.deep_view(),
            pr_map.deep_view(),
            maintainers_map.deep_view(),
            bot_pr_contributors.deep_view(),
        ),
{
    let ghost new_names = new_feedstocks.deep_view();
    let ghost prs = pr_map.deep_view();
    let ghost maints = maintainers_map.deep_view();
    let ghost bots = bot_pr_contributors.deep_view();
    let mut records = records;
    let ghost orig = records.deep_view();
    let mut count: u32 = 0;
    let mut j: usize = 0;
    proof {
        assert(results.deep_view().subrange(0, 0) =~= Seq::<HistoryResultView>::empty());
    }
    while j < results.len()
        invariant
            0 <= j <= results@.len(),
            results@.len() <= u32::MAX,
            records@.len() == orig.len(),
            count <= j,
            (records.deep_view(), count as int) == apply_all(
                orig,
                results.deep_view().subrange(0, j as int),
                new_names,
                prs,
                maints,
                bots,
            ),
            new_names == new_feedstocks.deep_view(),
            prs == pr_map.deep_view(),
            maints == maintainers_map.deep_view(),
            bots == bot_pr_contributors.deep_view(),
        decreases results@.len() - j,
    {
        let ghost resv = results.deep_view()[j as int];
        let is_new = name_in_list(new_feedstocks, results[j].feedstock.as_str());
        let pr_info = assoc_lookup(pr_map, results[j].feedstock.as_str());
        let maintainers = assoc_lookup(maintainers_map, results[j].feedstock.as_str());
        let bot_pr_contributor = assoc_lookup(bot_pr_contributors, results[j].feedstock.as_str());
        let verdict = process_history_result(
            &results[j],
            is_new,
            pr_info,
            maintainers,
            bot_pr_contributor,
        );
        proof {
            assert((match verdict {
                Some(a) => Some(a@),
                None => None,
            }) == verdict_for(resv, new_names, prs, maints, bots));
        }
        match verdict {
            None => {},
            Some(a) => {
                match find_record_index(&records, results[j].feedstock.as_str()) {
                    None => {},
                    Some(i) => {
                        let name = records[i].name.clone();
                        let e = records[i].entry.clone();
                        let entry = FeedstockEntry {
                            recipe_type: e.recipe_type,
                            last_changed: e.last_changed,
                            attribution: Some(a),
                            downloads: e.downloads,
                            recipe_commit_cache: e.recipe_commit_cache,
                        };
                        let ghost prev = records@;
                        let ghost prevdv = records.deep_view();
                        records.set(i, FeedstockRecord { name, entry });
                        count = count + 1;
                        proof {
                            assert(records@ == prev.update(
                                i as int,
                                FeedstockRecord { name, entry },
                            ));
                            assert(records.deep_view()[i as int] == records@[i as int]@);
                            assert forall|k: int| 0 <= k < prevdv.len() implies records.deep_view()[k]
                                == apply_one(prevdv, resv, new_names, prs, maints, bots).0[k] by {
                                if k != i {
                                    assert(records@[k] == prev[k]);
                                    assert(records.deep_view()[k] == prevdv[k]);
                                }
                            }
                            assert(records.deep_view() =~= apply_one(
                                prevdv,
                                resv,
                                new_names,
                                prs,
                                maints,
                                bots,
                            ).0);
                        }
                    },
                }
            },
        }
        proof {
            lemma_apply_all_step(
                orig,
                results.deep_view(),
                new_names,
                prs,
                maints,
                bots,
                j as int,
            );
        }
        j = j + 1;
    }
    proof {
        assert(results.deep_view().subrange(0, results.deep_view().len() as int)
            =~= results.deep_view());
    }
    (records, count)
}

/// The whole map after the two directives.
pub open spec fn flagged_records(
    rs: Seq<RecordView>,
    reattribute: bool,
    refetch: bool,
) -> Seq<RecordView> {
    rs.map_values(
        |r: RecordView|
            RecordView { name: r.name, entry: flags_applied_entry(r.entry, reattribute, refetch) },
    )
}

proof fn lemma_needs_list_complete(rs: Seq<RecordView>, i: int)
    requires
        0 <= i < rs.len(),
        needs_attr(rs[i].entry),
    ensures
        needs_list(rs).contains(rs[i].name),
    decreases rs.len(),
{
    let head = needs_list(rs.drop_last());
    if i == rs.len() - 1 {
        assert(rs.last() == rs[i]);
        assert(needs_list(rs) == head.push(rs[i].name));
        assert(needs_list(rs)[head.len() as int] == rs[i].name);
    } else {
        assert(rs.drop_last()[i] == rs[i]);
        lemma_needs_list_complete(rs.drop_last(), i);
        let k = choose|k: int| 0 <= k < head.len() && head[k] == rs[i].name;
        if needs_attr(rs.last().entry) {
            assert(needs_list(rs)[k] == rs[i].name);
        }
    }
}

proof fn lemma_needs_list_sound(rs: Seq<RecordView>, name: Seq<char>)
    requires
        needs_list(rs).contains(name),
    ensures
        exists|k: int| 0 <= k < rs.len() && rs[k].name == name && needs_attr(rs[k].entry),
    decreases rs.len(),
{
    let head = needs_list(rs.drop_last());
    if needs_attr(rs.last().entry) && rs.last().name == name {
        assert(rs[rs.len() - 1].name == name && needs_attr(rs[rs.len() - 1].entry));
    } else {
        let j = choose|j: int| 0 <= j < needs_list(rs).len() && needs_list(rs)[j] == name;
        assert(head.contains(name)) by {
            assert(head[j] == name);
        }
        lemma_needs_list_sound(rs.drop_last(), name);
        let k = choose|k: int|
            0 <= k < rs.drop_last().len() && rs.drop_last()[k].name == name && needs_attr(
                rs.drop_last()[k].entry,
            );
        assert(rs[k].name == name && needs_attr(rs[k].entry));
    }
}

proof fn lemma_store_one_names(rs: Seq<RecordView>, res: HistoryResultView)
    ensures
        store_one(rs, res).len() == rs.len(),
        forall|k: int| 0 <= k < rs.len() ==> store_one(rs, res)[k].name == rs[k].name,
{
    lemma_index_of_name_found(rs, res.feedstock);
}

proof fn lemma_store_all_names(rs: Seq<RecordView>, results: Seq<HistoryResultView>)
    ensures
        store_all(rs, results).len() == rs.len(),
        forall|k: int| 0 <= k < rs.len() ==> store_all(rs, results)[k].name == rs[k].name,
    decreases results.len(),
{
    if results.len() > 0 {
        lemma_store_all_names(rs, results.drop_last());
        lemma_store_one_names(store_all(rs, results.drop_last()), results.last());
    }
}

proof fn lemma_store_one_untouched(rs: Seq<RecordView>, res: HistoryResultView, i: int)
    requires
        0 <= i < rs.len(),
        res.feedstock != rs[i].name,
    ensures
        store_one(rs, res)[i] == rs[i],
{
    lemma_index_of_name_found(rs, res.feedstock);
}

proof fn lemma_store_all_untouched(rs: Seq<RecordView>, results: Seq<HistoryResultView>, i: int)
    requires
        0 <= i < rs.len(),
        forall|j: int| 0 <= j < results.len() ==> results[j].feedstock != rs[i].name,
    ensures
        store_all(rs, results)[i] == rs[i],
    decreases results.len(),
{
    if results.len() > 0 {
        let head = store_all(rs, results.drop_last());
        lemma_store_all_untouched(rs, results.drop_last(), i);
        lemma_store_all_names(rs, results.drop_last());
        assert(results[results.len() - 1].feedstock != head[i].name);
        lemma_store_one_untouched(head, results.last(), i);
    }
}

proof fn lemma_apply_one_names(
    rs: Seq<RecordView>,
    res: HistoryResultView,
    new_names: Seq<Seq<char>>,
    prs: Seq<(Seq<char>, PullRequestView)>,
    maints: Seq<(Seq<char>, Seq<Seq<char>>)>,
    bots: Seq<(Seq<char>, Seq<char>)>,
)
    ensures
        apply_one(rs, res, new_names, prs, maints, bots).0.len() == rs.len(),
        forall|k: int|
            0 <= k < rs.len() ==> apply_one(rs, res, new_names, prs, maints, bots).0[k].name
                == rs[k].name,
{
    lemma_index_of_name_found(rs, res.feedstock);
}

proof fn lemma_apply_all_names(
    rs: Seq<RecordView>,
    results: Seq<HistoryResultView>,
    new_names: Seq<Seq<char>>,
    prs: Seq<(Seq<char>, PullRequestView)>,
    maints: Seq<(Seq<char>, Seq<Seq<char>>)>,
    bots: Seq<(Seq<char>, Seq<char>)>,
)
    ensures
        apply_all(rs, results, new_names, prs, maints, bots).0.len() == rs.len(),
        forall|k: int|
            0 <= k < rs.len() ==> apply_all(rs, results, new_names, prs, maints, bots).0[k].name
                == rs[k].name,
    decreases results.len(),
{
    if results.len() > 0 {
        lemma_apply_all_names(rs, results.drop_last(), new_names, prs, maints, bots);
        lemma_apply_one_names(
            apply_all(rs, results.drop_last(), new_names, prs, maints, bots).0,
            results.last(),
            new_names,
            prs,
            maints,
            bots,
        );
    }
}

proof fn lemma_apply_all_untouched(
    rs: Seq<RecordView>,
    results: Seq<HistoryResultView>,
    new_names: Seq<Seq<char>>,
    prs: Seq<(Seq<char>, PullRequestView)>,
    maints: Seq<(Seq<char>, Seq<Seq<char>>)>,
    bots: Seq<(Seq<char>, Seq<char>)>,
    i: int,
)
    requires
        0 <= i < rs.len(),
        forall|j: int| 0 <= j < results.len() ==> results[j].feedstock != rs[i].name,
    ensures
        apply_all(rs, results, new_names, prs, maints, bots).0[i] == rs[i],
    decreases results.len(),
{
    if results.len() > 0 {
        let head = apply_all(rs, results.drop_last(), new_names, prs, maints, bots).0;
        lemma_apply_all_untouched(rs, results.drop_last(), new_names, prs, maints, bots, i);
        lemma_apply_all_names(rs, results.drop_last(), new_names, prs, maints, bots);
        assert(results[results.len() - 1].feedstock != head[i].name);
        lemma_index_of_name_found(head, results.last().feedstock);
    }
}

proof fn lemma_cached_list_sound(rs: Seq<RecordView>, names: Seq<Seq<char>>, x: Seq<char>)
    requires
        cached_list(rs, names).contains(x),
    ensures
        names.contains(x),
    decreases names.len(),
{
    let head = cached_list(rs, names.drop_last());
    if has_cache(rs, names.last()) && names.last() == x {
        assert(names[names.len() - 1] == x);
    } else {
        let j = choose|j: int|
            0 <= j < cached_list(rs, names).len() && cached_list(rs, names)[j] == x;
        assert(head.contains(x)) by {
            assert(head[j] == x);
        }
        lemma_cached_list_sound(rs, names.drop_last(), x);
        let k = choose|k: int| 0 <= k < names.drop_last().len() && names.drop_last()[k] == x;
        assert(names[k] == x);
    }
}

proof fn lemma_fetch_list_sound(rs: Seq<RecordView>, names: Seq<Seq<char>>, x: Seq<char>)
    requires
        fetch_list(rs, names).contains(x),
    ensures
        names.contains(x),
    decreases names.len(),
{
    let head = fetch_list(rs, names.drop_last());
    if !has_cache(rs, names.last()) && names.last() == x {
        assert(names[names.len() - 1] == x);
    } else {
        let j = choose|j: int|
            0 <= j < fetch_list(rs, names).len() && fetch_list(rs, names)[j] == x;
        assert(head.contains(x)) by {
            assert(head[j] == x);
        }
        lemma_fetch_list_sound(rs, names.drop_last(), x);
        let k = choose|k: int| 0 <= k < names.drop_last().len() && names.drop_last()[k] == x;
        assert(names[k] == x);
    }
}

/// The result list one pass works from, for an already-flagged map:
/// the results rebuilt from the cache for the cached partition of the
/// work set, followed by the freshly fetched ones.
pub open spec fn pass_results(
    rs1: Seq<RecordView>,
    fetched: Seq<HistoryResultView>,
) -> Seq<HistoryResultView> {
    cached_results_spec(rs1, cached_list(rs1, needs_list(rs1))) + fetched
}

proof fn lemma_cached_results_names(rs: Seq<RecordView>, names: Seq<Seq<char>>)
    ensures
        forall|j: int|
            0 <= j < cached_results_spec(rs, names).len() ==> names.contains(
                #[trigger] cached_results_spec(rs, names)[j].feedstock,
            ),
    decreases names.len(),
{
    if names.len() > 0 {
        lemma_cached_results_names(rs, names.drop_last());
        let head = cached_results_spec(rs, names.drop_last());
        let cur = cached_results_spec(rs, names);
        assert forall|j: int| 0 <= j < cur.len() implies names.contains(
            cur[j].feedstock,
        ) by {
            if j < head.len() {
                assert(cur[j] == head[j]);
                let x = head[j].feedstock;
                assert(names.drop_last().contains(x));
                let k = choose|k: int|
                    0 <= k < names.drop_last().len() && names.drop_last()[k] == x;
                assert(names[k] == x);
            } else {
                assert(names[names.len() - 1] == cur[j].feedstock);
            }
        }
    }
}

proof fn lemma_new_feedstock_names_sound(results: Seq<HistoryResultView>, x: Seq<char>)
    requires
        new_feedstock_names(results).contains(x),
    ensures
        exists|j: int| 0 <= j < results.len() && results[j].feedstock == x,
    decreases results.len(),
{
    let head = new_feedstock_names(results.drop_last());
    if result_is_initial(results.last()) && results.last().feedstock == x {
        assert(results[results.len() - 1].feedstock == x);
    } else {
        let j = choose|j: int|
            0 <= j < new_feedstock_names(results).len() && new_feedstock_names(results)[j] == x;
        assert(head.contains(x)) by {
            assert(head[j] == x);
        }
        lemma_new_feedstock_names_sound(results.drop_last(), x);
        let k = choose|k: int|
            0 <= k < results.drop_last().len() && results.drop_last()[k].feedstock == x;
        assert(results[k].feedstock == x);
    }
}

proof fn lemma_conversion_requests_sound(
    results: Seq<HistoryResultView>,
    new_names: Seq<Seq<char>>,
    x: Seq<char>,
)
    requires
        exists|k: int|
            0 <= k < conversion_requests(results, new_names).len() && conversion_requests(
                results,
                new_names,
            )[k].0 == x,
    ensures
        exists|j: int| 0 <= j < results.len() && results[j].feedstock == x,
    decreases results.len(),
{
    let cur = conversion_requests(results, new_names);
    let head = conversion_requests(results.drop_last(), new_names);
    let k = choose|k: int| 0 <= k < cur.len() && cur[k].0 == x;
    if k < head.len() {
        assert(cur[k] == head[k]);
        assert(exists|k2: int| 0 <= k2 < head.len() && head[k2].0 == x) by {
            assert(head[k].0 == x);
        }
        lemma_conversion_requests_sound(results.drop_last(), new_names, x);
        let j = choose|j: int|
            0 <= j < results.drop_last().len() && results.drop_last()[j].feedstock == x;
        assert(results[j].feedstock == x);
    } else {
        assert(results[results.len() - 1].feedstock == x);
    }
}

/// A feedstock that already has an attribution, on a pass run without
/// the reattribute directive, is sent to no query at all and comes out
/// of the pass unchanged. Its name is absent from the work set and
/// from both partitions of it; no result of the pass bears it, so it
/// is named by no maintainer fetch and no pull-request lookup (and
/// hence by no bot-contributor lookup, which draws on the latter); and
/// the cache-storing and verdict-writing phases leave its record — its
/// attribution in particular — untouched. The pass's results are the
/// cache-rebuilt ones followed by the fetched ones, which carry the
/// fetch list's names in order, exactly as the History Client's
/// contract returns them.
pub proof fn lemma_attributed_feedstock_round_trip(
    rs: Seq<RecordView>,
    i: int,
    refetch: bool,
    fetched: Seq<HistoryResultView>,
    new_names: Seq<Seq<char>>,
    prs: Seq<(Seq<char>, PullRequestView)>,
    maints: Seq<(Seq<char>, Seq<Seq<char>>)>,
    bots: Seq<(Seq<char>, Seq<char>)>,
)
    requires
        crate::models::distinct_names(rs),
        0 <= i < rs.len(),
        rs[i].entry.attribution is Some,
        fetched.len() == fetch_list(
            flagged_records(rs, false, refetch),
            needs_list(flagged_records(rs, false, refetch)),
        ).len(),
        forall|j: int|
            0 <= j < fetched.len() ==> #[trigger] fetched[j].feedstock == fetch_list(
                flagged_records(rs, false, refetch),
                needs_list(flagged_records(rs, false, refetch)),
            )[j],
    ensures
        !needs_list(flagged_records(rs, false, refetch)).contains(rs[i].name),
        !cached_list(
            flagged_records(rs, false, refetch),
            needs_list(flagged_records(rs, false, refetch)),
        ).contains(rs[i].name),
        !fetch_list(
            flagged_records(rs, false, refetch),
            needs_list(flagged_records(rs, false, refetch)),
        ).contains(rs[i].name),
        forall|j: int|
            0 <= j < pass_results(flagged_records(rs, false, refetch), fetched).len()
                ==> #[trigger] pass_results(flagged_records(rs, false, refetch), fetched)[j].feedstock
                != rs[i].name,
        !new_feedstock_names(pass_results(flagged_records(rs, false, refetch), fetched)).contains(
            rs[i].name,
        ),
        forall|k: int|
            0 <= k < conversion_requests(
                pass_results(flagged_records(rs, false, refetch), fetched),
                new_names,
            ).len() ==> #[trigger] conversion_requests(
                pass_results(flagged_records(rs, false, refetch), fetched),
                new_names,
            )[k].0 != rs[i].name,
        apply_all(
            store_all(
                flagged_records(rs, false, refetch),
                pass_results(flagged_records(rs, false, refetch), fetched),
            ),
            pass_results(flagged_records(rs, false, refetch), fetched),
            new_names,
            prs,
            maints,
            bots,
        ).0[i] == flagged_records(rs, false, refetch)[i],
        flagged_records(rs, false, refetch)[i].entry.attribution == rs[i].entry.attribution,
{
    let rs1 = flagged_records(rs, false, refetch);
    let needs = needs_list(rs1);
    let cachedl = cached_list(rs1, needs);
    let fetchl = fetch_list(rs1, needs);
    let cres = cached_results_spec(rs1, cachedl);
    let results = pass_results(rs1, fetched);
    assert(rs1.len() == rs.len());
    assert(rs1[i].name == rs[i].name);
    assert(rs1[i].entry.attribution == rs[i].entry.attribution);
    if needs.contains(rs[i].name) {
        lemma_needs_list_sound(rs1, rs[i].name);
        let k = choose|k: int|
            0 <= k < rs1.len() && rs1[k].name == rs[i].name && needs_attr(rs1[k].entry);
        if k != i {
            assert(rs[k].name == rs[i].name);
            assert(false);
        }
        assert(rs1[i].entry.attribution is None);
        assert(false);
    }
    if cachedl.contains(rs[i].name) {
        lemma_cached_list_sound(rs1, needs, rs[i].name);
    }
    if fetchl.contains(rs[i].name) {
        lemma_fetch_list_sound(rs1, needs, rs[i].name);
    }
    lemma_cached_results_names(rs1, cachedl);
    assert forall|j: int| 0 <= j < results.len() implies results[j].feedstock != rs[i].name by {
        if j < cres.len() {
            assert(results[j] == cres[j]);
            if cres[j].feedstock == rs[i].name {
                assert(cachedl.contains(rs[i].name));
            }
        } else {
            assert(results[j] == fetched[j - cres.len()]);
            if fetched[j - cres.len()].feedstock == rs[i].name {
                assert(fetchl.contains(rs[i].name)) by {
                    assert(fetchl[j - cres.len()] == rs[i].name);
                }
            }
        }
    }
    if new_feedstock_names(results).contains(rs[i].name) {
        lemma_new_feedstock_names_sound(results, rs[i].name);
        let j = choose|j: int| 0 <= j < results.len() && results[j].feedstock == rs[i].name;
        assert(false);
    }
    assert forall|k: int|
        0 <= k < conversion_requests(results, new_names).len() implies conversion_requests(
        results,
        new_names,
    )[k].0 != rs[i].name by {
        if conversion_requests(results, new_names)[k].0 == rs[i].name {
            lemma_conversion_requests_sound(results, new_names, rs[i].name);
            let j = choose|j: int| 0 <= j < results.len() && results[j].feedstock == rs[i].name;
            assert(false);
        }
    }
    assert(forall|j: int| 0 <= j < results.len() ==> results[j].feedstock != rs1[i].name);
    lemma_store_all_untouched(rs1, results, i);
    let rs2 = store_all(rs1, results);
    lemma_store_all_names(rs1, results);
    assert(forall|j: int| 0 <= j < results.len() ==> results[j].feedstock != rs2[i].name);
    lemma_apply_all_untouched(rs2, results, new_names, prs, maints, bots, i);
}

proof fn lemma_fetch_list_only_uncached(rs: Seq<RecordView>, names: Seq<Seq<char>>, x: Seq<char>)
    requires
        fetch_list(rs, names).contains(x),
    ensures
        !has_cache(rs, x),
    decreases names.len(),
{
    let head = fetch_list(rs, names.drop_last());
    if !has_cache(rs, names.last()) && names.last() == x {
    } else {
        let j = choose|j: int|
            0 <= j < fetch_list(rs, names).len() && fetch_list(rs, names)[j] == x;
        assert(head.contains(x)) by {
            assert(head[j] == x);
        }
        lemma_fetch_list_only_uncached(rs, names.drop_last(), x);
    }
}

proof fn lemma_cached_list_complete(rs: Seq<RecordView>, names: Seq<Seq<char>>, i: int)
    requires
        0 <= i < names.len(),
        has_cache(rs, names[i]),
    ensures
        cached_list(rs, names).contains(names[i]),
    decreases names.len(),
{
    let head = cached_list(rs, names.drop_last());
    if i == names.len() - 1 {
        assert(cached_list(rs, names) == head.push(names[i]));
        assert(cached_list(rs, names)[head.len() as int] == names[i]);
    } else {
        assert(names.drop_last()[i] == names[i]);
        lemma_cached_list_complete(rs, names.drop_last(), i);
        let k = choose|k: int| 0 <= k < head.len() && head[k] == names[i];
        if has_cache(rs, names.last()) {
            assert(cached_list(rs, names)[k] == names[i]);
        }
    }
}

proof fn lemma_cached_results_member(rs: Seq<RecordView>, names: Seq<Seq<char>>, i: int)
    requires
        0 <= i < names.len(),
        has_cache(rs, names[i]),
    ensures
        cached_results_spec(rs, names).contains(
            HistoryResultView {
                feedstock: names[i],
                first_recipe_commit: Some(
                    cache_to_commit(entry_of(rs, names[i])->Some_0.recipe_commit_cache->Some_0),
                ),
                error: None,
            },
        ),
    decreases names.len(),
{
    let head = cached_results_spec(rs, names.drop_last());
    let target = HistoryResultView {
        feedstock: names[i],
        first_recipe_commit: Some(
            cache_to_commit(entry_of(rs, names[i])->Some_0.recipe_commit_cache->Some_0),
        ),
        error: None,
    };
    if i == names.len() - 1 {
        assert(cached_results_spec(rs, names) == head.push(target));
        assert(cached_results_spec(rs, names)[head.len() as int] == target);
    } else {
        assert(names.drop_last()[i] == names[i]);
        lemma_cached_results_member(rs, names.drop_last(), i);
        let k = choose|k: int| 0 <= k < head.len() && head[k] == target;
        match entry_of(rs, names.last()) {
            Some(e) => {
                if e.recipe_commit_cache is Some {
                    assert(cached_results_spec(rs, names)[k] == target);
                }
            },
            None => {},
        }
    }
}

/// A feedstock with an unexpired cached lookup outcome is spared the
/// network: it lands in no fetch list, and the result the pass uses
/// for it is rebuilt from the cache, carrying exactly the cached
/// commit data — so a second run returns the same commit data as the
/// first, with zero queries.
pub proof fn lemma_cached_lookup_short_circuits(
    rs: Seq<RecordView>,
    names: Seq<Seq<char>>,
    i: int,
)
    requires
        0 <= i < names.len(),
        has_cache(rs, names[i]),
    ensures
        !fetch_list(rs, names).contains(names[i]),
        cached_list(rs, names).contains(names[i]),
        cached_results_spec(rs, names).contains(
            HistoryResultView {
                feedstock: names[i],
                first_recipe_commit: Some(
                    cache_to_commit(entry_of(rs, names[i])->Some_0.recipe_commit_cache->Some_0),
                ),
                error: None,
            },
        ),
{
    if fetch_list(rs, names).contains(names[i]) {
        lemma_fetch_list_only_uncached(rs, names, names[i]);
    }
    lemma_cached_list_complete(rs, names, i);
    lemma_cached_results_member(rs, names, i);
}

proof fn lemma_fetch_list_complete(rs: Seq<RecordView>, names: Seq<Seq<char>>, i: int)
    requires
        0 <= i < names.len(),
        !has_cache(rs, names[i]),
    ensures
        fetch_list(rs, names).contains(names[i]),
    decreases names.len(),
{
    let head = fetch_list(rs, names.drop_last());
    if i == names.len() - 1 {
        assert(fetch_list(rs, names) == head.push(names[i]));
        assert(fetch_list(rs, names)[head.len() as int] == names[i]);
    } else {
        assert(names.drop_last()[i] == names[i]);
        lemma_fetch_list_complete(rs, names.drop_last(), i);
        let k = choose|k: int| 0 <= k < head.len() && head[k] == names[i];
        if !has_cache(rs, names.last()) {
            assert(fetch_list(rs, names)[k] == names[i]);
        }
    }
}

proof fn lemma_entry_of_index(rs: Seq<RecordView>, i: int)
    requires
        crate::models::distinct_names(rs),
        0 <= i < rs.len(),
    ensures
        entry_of(rs, rs[i].name) == Some(rs[i].entry),
    decreases i,
{
    if i == 0 {
    } else {
        let t = rs.drop_first();
        assert(t =~= rs.subrange(1, rs.len() as int));
        assert(rs.first().name != rs[i].name);
        lemma_entry_of_index(t, i - 1);
    }
}

/// The refetch directive forces a fresh query: after it clears the
/// cache of a Recipe v1 feedstock in the work set, that feedstock's
/// name lands in the fetch list of the next pass.
pub proof fn lemma_refetch_forces_fresh_query(
    rs: Seq<RecordView>,
    i: int,
    reattribute: bool,
)
    requires
        crate::models::distinct_names(rs),
        0 <= i < rs.len(),
        rs[i].entry.recipe_type == RecipeType::RecipeV1,
        reattribute || rs[i].entry.attribution is None,
    ensures
        entry_of(flagged_records(rs, reattribute, true), rs[i].name) matches Some(e)
            && e.recipe_commit_cache is None,
        needs_list(flagged_records(rs, reattribute, true)).contains(rs[i].name),
        fetch_list(
            flagged_records(rs, reattribute, true),
            needs_list(flagged_records(rs, reattribute, true)),
        ).contains(rs[i].name),
{
    let rs1 = flagged_records(rs, reattribute, true);
    assert(crate::models::distinct_names(rs1)) by {
        assert(forall|a: int| 0 <= a < rs.len() ==> rs1[a].name == rs[a].name);
    }
    lemma_entry_of_index(rs1, i);
    assert(rs1[i].entry.recipe_commit_cache is None);
    assert(needs_attr(rs1[i].entry));
    lemma_needs_list_complete(rs1, i);
    let names = needs_list(rs1);
    let j = choose|j: int| 0 <= j < names.len() && names[j] == rs[i].name;
    assert(!has_cache(rs1, names[j]));
    lemma_fetch_list_complete(rs1, names, j);
}

proof fn lemma_new_feedstock_names_complete(results: Seq<HistoryResultView>, j: int)
    requires
        0 <= j < results.len(),
        result_is_initial(results[j]),
    ensures
        new_feedstock_names(results).contains(results[j].feedstock),
    decreases results.len(),
{
    let head = new_feedstock_names(results.drop_last());
    if j == results.len() - 1 {
        assert(new_feedstock_names(results) == head.push(results[j].feedstock));
        assert(new_feedstock_names(results)[head.len() as int] == results[j].feedstock);
    } else {
        assert(results.drop_last()[j] == results[j]);
        lemma_new_feedstock_names_complete(results.drop_last(), j);
        let k = choose|k: int| 0 <= k < head.len() && head[k] == results[j].feedstock;
        if result_is_initial(results.last()) {
            assert(new_feedstock_names(results)[k] == results[j].feedstock);
        }
    }
}

/// A result whose located commit's message marks the initial feedstock
/// commit is classified a new feedstock straight from the batched
/// query — it joins the new-feedstock set with no pagination walk and
/// no clone — and its verdict is a new-feedstock attribution.
pub proof fn lemma_initial_message_skips_pagination(
    results: Seq<HistoryResultView>,
    j: int,
    prs: Seq<(Seq<char>, PullRequestView)>,
    maints: Seq<(Seq<char>, Seq<Seq<char>>)>,
    bots: Seq<(Seq<char>, Seq<char>)>,
)
    requires
        0 <= j < results.len(),
        results[j].first_recipe_commit matches Some(c) && is_initial_message(c.message),
    ensures
        new_feedstock_names(results).contains(results[j].feedstock),
        verdict_for(results[j], new_feedstock_names(results), prs, maints, bots) matches Some(a)
            && a.contribution_type == crate::models::ContributionType::NewFeedstock,
{
    lemma_new_feedstock_names_complete(results, j);
}

/// A feedstock whose history page overflowed carries no located commit
/// until pagination resolves, and the pass writes no attribution for
/// such a result: the verdict is empty and the map is unchanged.
pub proof fn lemma_unresolved_pagination_gets_no_attribution(
    rs: Seq<RecordView>,
    res: HistoryResultView,
    new_names: Seq<Seq<char>>,
    prs: Seq<(Seq<char>, PullRequestView)>,
    maints: Seq<(Seq<char>, Seq<Seq<char>>)>,
    bots: Seq<(Seq<char>, Seq<char>)>,
)
    requires
        res.first_recipe_commit is None,
    ensures
        verdict_for(res, new_names, prs, maints, bots) is None,
        apply_one(rs, res, new_names, prs, maints, bots) == (rs, 0int),
{
}

} // verus!
