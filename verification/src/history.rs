//! The History Client's response handling: picking the oldest commit
//! out of a history page, detecting pagination overflow, and assembling
//! per-feedstock results from a batched query response.

use vstd::prelude::*;

use crate::models::{
    CommitView, FirstRecipeCommit, HistoryResultView, RecipeHistoryResult, opt_view,
};

verus! {

/// One page of recipe-file history for one path, newest commit first,
/// as the hosting API reports it.
#[derive(Debug)]
pub struct HistoryPage {
    /// The API reports more, older history beyond this page.
    pub has_next_page: bool,
    /// Continuation cursor for the next page, when the API sent one.
    pub end_cursor: Option<String>,
    /// The page's commits, in reverse chronological order.
    pub nodes: Vec<FirstRecipeCommit>,
}

pub ghost struct PageView {
    pub has_next_page: bool,
    pub end_cursor: Option<Seq<char>>,
    pub nodes: Seq<CommitView>,
}

impl View for HistoryPage {
    type V = PageView;

    open spec fn view(&self) -> PageView {
        PageView {
            has_next_page: self.has_next_page,
            end_cursor: opt_view(self.end_cursor),
            nodes: self.nodes.deep_view(),
        }
    }
}

/// The two history pages queried for one repository: the root
/// `recipe.yaml` path and the `recipe/recipe.yaml` path. A `None` page
/// means the response carried no history for that path.
#[derive(Debug)]
pub struct RepoHistory {
    pub history_main: Option<HistoryPage>,
    pub history_alt: Option<HistoryPage>,
}

pub ghost struct RepoHistoryView {
    pub history_main: Option<PageView>,
    pub history_alt: Option<PageView>,
}

impl View for RepoHistory {
    type V = RepoHistoryView;

    open spec fn view(&self) -> RepoHistoryView {
        RepoHistoryView {
            history_main: match self.history_main {
                Some(p) => Some(p@),
                None => None,
            },
            history_alt: match self.history_alt {
                Some(p) => Some(p@),
                None => None,
            },
        }
    }
}

/// A feedstock whose history overflows one page: the continuation
/// cursor and the oldest commit seen so far.
#[derive(Debug)]
pub struct PaginationNeeded {
    pub feedstock: String,
    /// Recipe-file path whose history overflowed.
    pub path: String,
    pub cursor: String,
    pub oldest_commit_so_far: FirstRecipeCommit,
}

pub ghost struct PaginationView {
    pub feedstock: Seq<char>,
    pub path: Seq<char>,
    pub cursor: Seq<char>,
    pub oldest_commit_so_far: CommitView,
}

impl View for PaginationNeeded {
    type V = PaginationView;

    open spec fn view(&self) -> PaginationView {
        PaginationView {
            feedstock: self.feedstock@,
            path: self.path@,
            cursor: self.cursor@,
            oldest_commit_so_far: self.oldest_commit_so_far@,
        }
    }
}

impl DeepView for PaginationNeeded {
    type V = PaginationView;

    open spec fn deep_view(&self) -> PaginationView {
        self.view()
    }
}

/// What one history page yields: nothing when the page is empty or an
/// overflowing page carries no cursor; otherwise either the oldest
/// commit of the page (the last one, since the API reports newest
/// first), or a pagination marker carrying the cursor and that oldest
/// commit as the best seen so far.
pub open spec fn extract_spec(page: PageView, path: Seq<char>, feedstock: Seq<char>) -> Option<
    (Option<CommitView>, Option<PaginationView>),
> {
    if page.nodes.len() == 0 {
        None
    } else {
        let oldest = page.nodes.last();
        if page.has_next_page {
            match page.end_cursor {
                None => None,
                Some(cursor) => Some(
                    (
                        None,
                        Some(
                            PaginationView {
                                feedstock: feedstock,
                                path: path,
                                cursor: cursor,
                                oldest_commit_so_far: oldest,
                            },
                        ),
                    ),
                ),
            }
        } else {
            Some((Some(oldest), None))
        }
    }
}

/// Extract the oldest commit from one history page, or a pagination
/// marker when the page reports more, older history beyond it.
pub fn extract_first_commit_with_pagination(
    page: &HistoryPage,
    path: &str,
    feedstock: &str,
) -> (r: Option<(Option<FirstRecipeCommit>, Option<PaginationNeeded>)>)
    ensures
        match r {
            None => extract_spec(page@, path@, feedstock@) is None,
            Some((commit, pag)) => extract_spec(page@, path@, feedstock@) matches Some(s)
                && s.0 == match commit {
                    Some(c) => Some(c@),
                    None => None,
                }
                && s.1 == match pag {
                    Some(p) => Some(p@),
                    None => None,
                },
        },
{
    if page.nodes.len() == 0 {
        return None;
    }
    let oldest = page.nodes[page.nodes.len() - 1].clone();
    proof {
        assert(oldest@ == page@.nodes.last());
    }
    if page.has_next_page {
        match &page.end_cursor {
            None => None,
            Some(cursor) => Some(
                (
                    None,
                    Some(
                        PaginationNeeded {
                            feedstock: feedstock.to_owned(),
                            path: path.to_owned(),
                            cursor: cursor.clone(),
                            oldest_commit_so_far: oldest,
                        },
                    ),
                ),
            ),
        }
    } else {
        Some((Some(oldest), None))
    }
}

/// A history page that overflows — it is non-empty, reports a next
/// page, and carries a cursor — always yields a pagination marker with
/// that cursor and no commit, so nothing downstream can attribute the
/// feedstock until pagination resolves.
pub proof fn lemma_overflow_page_yields_marker(
    page: PageView,
    path: Seq<char>,
    feedstock: Seq<char>,
)
    requires
        page.nodes.len() > 0,
        page.has_next_page,
        page.end_cursor matches Some(c) && c.len() > 0,
    ensures
        extract_spec(page, path, feedstock) matches Some(s) && s.0 is None && (
        s.1 matches Some(p) && p.cursor.len() > 0 && Some(p.cursor) == page.end_cursor),
{
}

/// The result and marker one repository's response yields: the root
/// path's page decides when it yields anything; otherwise the
/// subdirectory path's page; otherwise nothing is found.
pub open spec fn repo_pick_spec(repo: RepoHistoryView, feedstock: Seq<char>) -> (
    Option<CommitView>,
    Option<PaginationView>,
) {
    let main_pick = match repo.history_main {
        Some(p) => extract_spec(p, "recipe.yaml"@, feedstock),
        None => None,
    };
    match main_pick {
        Some(s) => s,
        None => {
            let alt_pick = match repo.history_alt {
                Some(p) => extract_spec(p, "recipe/recipe.yaml"@, feedstock),
                None => None,
            };
            match alt_pick {
                Some(s) => s,
                None => (None, None),
            }
        },
    }
}

/// The per-feedstock result of a batched query: a missing repository
/// gets a not-found error; otherwise the commit picked from its pages,
/// with no error recorded.
pub open spec fn batch_result_spec(repo: Option<RepoHistoryView>, feedstock: Seq<char>) -> (
    HistoryResultView,
    Option<PaginationView>,
) {
    match repo {
        None => (
            HistoryResultView {
                feedstock: feedstock,
                first_recipe_commit: None,
                error: Some("Repository not found or no recipe.yaml"@),
            },
            None,
        ),
        Some(r) => {
            let (commit, pag) = repo_pick_spec(r, feedstock);
            (
                HistoryResultView { feedstock: feedstock, first_recipe_commit: commit, error: None },
                pag,
            )
        },
    }
}

/// Parse a batched response, one repository slot per queried feedstock
/// (a `None` slot is a repository the API did not return), into
/// per-feedstock results and the list of feedstocks that need
/// pagination, in query order.
pub fn parse_batch_response(feedstocks: &Vec<String>, repos: Vec<Option<RepoHistory>>) -> (r: (
    Vec<RecipeHistoryResult>,
    Vec<PaginationNeeded>,
))
    requires
        feedstocks@.len() == repos@.len(),
    ensures
        r.0.deep_view().len() == feedstocks@.len(),
        forall|i: int|
            0 <= i < feedstocks@.len() ==> r.0.deep_view()[i] == batch_result_spec(
                match repos@[i] {
                    Some(h) => Some(h@),
                    None => None,
                },
                feedstocks@[i]@,
            ).0,
        forall|i: int|
            0 <= i < feedstocks@.len() ==> #[trigger] r.0.deep_view()[i].feedstock
                == feedstocks@[i]@,
        r.1.deep_view() == pagination_list_spec(
            repos@.map_values(
                |o: Option<RepoHistory>|
                    match o {
                        Some(h) => Some(h@),
                        None => None,
                    },
            ),
            feedstocks@.map_values(|f: String| f@),
        ),
{
    let ghost repo_views = repos@.map_values(
        |o: Option<RepoHistory>|
            match o {
                Some(h) => Some(h@),
                None => None,
            },
    );
    let ghost name_views = feedstocks@.map_values(|f: String| f@);
    let mut results: Vec<RecipeHistoryResult> = Vec::new();
    let mut needs_pagination: Vec<PaginationNeeded> = Vec::new();
    let n = feedstocks.len();
    let mut i: usize = 0;
    let mut repos = repos;
    proof {
        assert(pagination_list_spec(
            repo_views.subrange(0, 0),
            name_views.subrange(0, 0),
        ) =~= Seq::<PaginationView>::empty());
        assert(needs_pagination.deep_view() =~= Seq::<PaginationView>::empty());
    }
    while i < n
        invariant
            n == feedstocks@.len(),
            repos@.len() == n,
            repo_views.len() == n,
            forall|k: int|
                i <= k < n ==> repo_views[k] == (match repos@[k] {
                    Some(h) => Some(h@),
                    None => None,
                }),
            name_views == feedstocks@.map_values(|f: String| f@),
            0 <= i <= n,
            results.deep_view().len() == i,
            forall|k: int|
                0 <= k < i ==> results.deep_view()[k] == batch_result_spec(
                    repo_views[k],
                    name_views[k],
                ).0,
            needs_pagination.deep_view() == pagination_list_spec(
                repo_views.subrange(0, i as int),
                name_views.subrange(0, i as int),
            ),
        decreases n - i,
    {
        proof {
            assert(repo_views[i as int] == match repos@[i as int] {
                Some(h) => Some(h@),
                None => None,
            });
            assert(name_views[i as int] == feedstocks@[i as int]@);
        }
        let repo = repos_take(&mut repos, i);
        let ghost prev_results = results.deep_view();
        let ghost prev_pags = needs_pagination.deep_view();
        let (result, pag) = single_batch_result(repo, &feedstocks[i]);
        results.push(result);
        match pag {
            Some(p) => {
                needs_pagination.push(p);
            },
            None => {},
        }
        proof {
            assert(results.deep_view() =~= prev_results.push(
                batch_result_spec(repo_views[i as int], name_views[i as int]).0,
            ));
            lemma_pagination_list_step(repo_views, name_views, i as int);
            assert(needs_pagination.deep_view() =~= pagination_list_spec(
                repo_views.subrange(0, i + 1),
                name_views.subrange(0, i + 1),
            ));
        }
        i = i + 1;
    }
    proof {
        assert(repo_views.subrange(0, n as int) =~= repo_views);
        assert(name_views.subrange(0, n as int) =~= name_views);
    }
    (results, needs_pagination)
}

/// The pagination markers that a sequence of repository slots yields,
/// in order.
pub open spec fn pagination_list_spec(
    repos: Seq<Option<RepoHistoryView>>,
    names: Seq<Seq<char>>,
) -> Seq<PaginationView>
    decreases repos.len(),
{
    if repos.len() == 0 || names.len() != repos.len() {
        Seq::empty()
    } else {
        let head = pagination_list_spec(repos.drop_last(), names.drop_last());
        match batch_result_spec(repos.last(), names.last()).1 {
            Some(p) => head.push(p),
            None => head,
        }
    }
}

proof fn lemma_pagination_list_step(
    repos: Seq<Option<RepoHistoryView>>,
    names: Seq<Seq<char>>,
    i: int,
)
    requires
        names.len() == repos.len(),
        0 <= i < repos.len(),
    ensures
        pagination_list_spec(repos.subrange(0, i + 1), names.subrange(0, i + 1))
            == match batch_result_spec(repos[i], names[i]).1 {
            Some(p) => pagination_list_spec(repos.subrange(0, i), names.subrange(0, i)).push(p),
            None => pagination_list_spec(repos.subrange(0, i), names.subrange(0, i)),
        },
{
    let r1 = repos.subrange(0, i + 1);
    let n1 = names.subrange(0, i + 1);
    assert(r1.drop_last() =~= repos.subrange(0, i));
    assert(n1.drop_last() =~= names.subrange(0, i));
    assert(r1.last() == repos[i]);
    assert(n1.last() == names[i]);
}

/// The position of the first result for `feedstock`, or -1.
pub open spec fn result_index_of(results: Seq<HistoryResultView>, feedstock: Seq<char>) -> int
    decreases results.len(),
{
    if results.len() == 0 {
        -1
    } else if results.first().feedstock == feedstock {
        0
    } else {
        let r = result_index_of(results.drop_first(), feedstock);
        if r == -1 {
            -1
        } else {
            r + 1
        }
    }
}

proof fn lemma_result_index_of_prefix(
    results: Seq<HistoryResultView>,
    feedstock: Seq<char>,
    i: int,
)
    requires
        0 <= i <= results.len(),
        forall|k: int| 0 <= k < i ==> results[k].feedstock != feedstock,
        i == results.len() || results[i].feedstock == feedstock,
    ensures
        result_index_of(results, feedstock) == if i == results.len() {
            -1
        } else {
            i
        },
    decreases i,
{
    if i == 0 {
    } else {
        let t = results.drop_first();
        assert(t =~= results.subrange(1, results.len() as int));
        lemma_result_index_of_prefix(t, feedstock, i - 1);
    }
}

/// The results after a pagination walk resolved one feedstock's oldest
/// commit: the first result for that feedstock carries the commit, and
/// everything else is unchanged.
pub open spec fn resolved_results(
    results: Seq<HistoryResultView>,
    feedstock: Seq<char>,
    commit: CommitView,
) -> Seq<HistoryResultView> {
    let i = result_index_of(results, feedstock);
    if i == -1 {
        results
    } else {
        results.update(
            i,
            HistoryResultView {
                feedstock: results[i].feedstock,
                first_recipe_commit: Some(commit),
                error: results[i].error,
            },
        )
    }
}

/// Fill a feedstock's result with the oldest commit its pagination
/// walk found.
pub fn apply_resolved_commit(
    results: Vec<RecipeHistoryResult>,
    feedstock: &str,
    commit: FirstRecipeCommit,
) -> (r: Vec<RecipeHistoryResult>)
    ensures
        r.deep_view() == resolved_results(results.deep_view(), feedstock@, commit@),
{
    let mut results = results;
    let ghost orig = results.deep_view();
    let n = results.len();
    let mut i: usize = 0;
    #[verifier::loop_isolation(false)]
    while i < n
        invariant
            n == results@.len(),
            orig == results.deep_view(),
            0 <= i <= n,
            forall|k: int| 0 <= k < i ==> results.deep_view()[k].feedstock != feedstock@,
        decreases n - i,
    {
        if crate::strutil::eq_str(results[i].feedstock.as_str(), feedstock) {
            proof {
                lemma_result_index_of_prefix(orig, feedstock@, i as int);
            }
            let name = results[i].feedstock.clone();
            let error = crate::models::clone_opt(&results[i].error);
            let updated = RecipeHistoryResult {
                feedstock: name,
                first_recipe_commit: Some(commit.clone()),
                error,
            };
            let ghost prev = results@;
            let ghost prevdv = results.deep_view();
            results.set(i, updated);
            proof {
                assert forall|k: int| 0 <= k < results.deep_view().len() implies results.deep_view()[k]
                    == resolved_results(orig, feedstock@, commit@)[k] by {
                    if k != i {
                        assert(results@[k] == prev[k]);
                        assert(results.deep_view()[k] == prevdv[k]);
                    } else {
                        assert(results@[k] == updated);
                        assert(results.deep_view()[k] == updated@);
                        assert(updated@.feedstock == orig[i as int].feedstock);
                        assert(updated@.error == orig[i as int].error);
                        assert(updated@.first_recipe_commit == Some(commit@));
                    }
                }
                assert(results.deep_view() =~= resolved_results(orig, feedstock@, commit@));
            }
            return results;
        }
        i = i + 1;
    }
    proof {
        lemma_result_index_of_prefix(orig, feedstock@, n as int);
    }
    results
}

/// Take the `i`-th repository slot out of the response vector, leaving
/// `None` in its place.
fn repos_take(repos: &mut Vec<Option<RepoHistory>>, i: usize) -> (r: Option<RepoHistory>)
    requires
        i < old(repos)@.len(),
    ensures
        final(repos)@.len() == old(repos)@.len(),
        r == old(repos)@[i as int],
        forall|k: int|
            0 <= k < old(repos)@.len() && k != i ==> final(repos)@[k] == old(repos)@[k],
{
    repos.push(None);
    let last = repos.len() - 1;
    let r = repos.swap_remove(i);
    r
}

/// Build the result and optional pagination marker for one feedstock.
fn single_batch_result(repo: Option<RepoHistory>, feedstock: &String) -> (r: (
    RecipeHistoryResult,
    Option<PaginationNeeded>,
))
    ensures
        r.0@ == batch_result_spec(
            match repo {
                Some(h) => Some(h@),
                None => None,
            },
            feedstock@,
        ).0,
        (match r.1 {
            Some(p) => Some(p@),
            None => None,
        }) == batch_result_spec(
            match repo {
                Some(h) => Some(h@),
                None => None,
            },
            feedstock@,
        ).1,
{
    match repo {
        None => (
            RecipeHistoryResult {
                feedstock: feedstock.clone(),
                first_recipe_commit: None,
                error: Some(String::from_str("Repository not found or no recipe.yaml")),
            },
            None,
        ),
        Some(h) => {
            let picked = match &h.history_main {
                Some(p) => extract_first_commit_with_pagination(p, "recipe.yaml", feedstock.as_str()),
                None => None,
            };
            let picked = match picked {
                Some(s) => Some(s),
                None => match &h.history_alt {
                    Some(p) => extract_first_commit_with_pagination(
                        p,
                        "recipe/recipe.yaml",
                        feedstock.as_str(),
                    ),
                    None => None,
                },
            };
            let (commit, pag) = match picked {
                Some(s) => s,
                None => (None, None),
            };
            (
                RecipeHistoryResult {
                    feedstock: feedstock.clone(),
                    first_recipe_commit: commit,
                    error: None,
                },
                pag,
            )
        },
    }
}

} // verus!
