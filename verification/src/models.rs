//! Data model of the tracker: recipe classification, attribution
//! verdicts, commit identities, and the per-feedstock state that the
//! orchestrator reads and updates. Each record type has a mathematical
//! view over character sequences, which the contracts speak of.

use vstd::prelude::*;

verus! {

/// Recipe format a feedstock currently uses.
#[derive(Clone, Copy, Debug, PartialEq, Eq, Structural)]
pub enum RecipeType {
    /// The feedstock builds from a Recipe v1 `recipe.yaml`.
    RecipeV1,
    /// The feedstock still builds from a legacy `meta.yaml`.
    MetaYaml,
    /// Neither format could be determined.
    Unknown,
}

/// How a feedstock came to use Recipe v1.
#[derive(Clone, Copy, Debug, PartialEq, Eq, Structural)]
pub enum ContributionType {
    /// An existing feedstock was converted to `recipe.yaml`.
    Conversion,
    /// The feedstock was created with `recipe.yaml` from its first commit.
    NewFeedstock,
}

/// View of an optional string as an optional character sequence.
pub open spec fn opt_view(o: Option<String>) -> Option<Seq<char>> {
    match o {
        Some(s) => Some(s@),
        None => None,
    }
}

/// Copy of an optional string.
pub fn clone_opt(o: &Option<String>) -> (r: Option<String>)
    ensures
        opt_view(r) == opt_view(*o),
{
    match o {
        Some(s) => Some(s.clone()),
        None => None,
    }
}

/// A commit's author identity as the hosting API reports it.
#[derive(Debug)]
pub struct CommitAuthor {
    /// Platform login; absent for commits without a linked account.
    pub login: Option<String>,
    pub name: String,
    pub email: String,
}

pub ghost struct AuthorView {
    pub login: Option<Seq<char>>,
    pub name: Seq<char>,
    pub email: Seq<char>,
}

impl View for CommitAuthor {
    type V = AuthorView;

    open spec fn view(&self) -> AuthorView {
        AuthorView { login: opt_view(self.login), name: self.name@, email: self.email@ }
    }
}

impl DeepView for CommitAuthor {
    type V = AuthorView;

    open spec fn deep_view(&self) -> AuthorView {
        self.view()
    }
}

impl Clone for CommitAuthor {
    fn clone(&self) -> (r: Self)
        ensures
            r@ == self@,
    {
        CommitAuthor {
            login: clone_opt(&self.login),
            name: self.name.clone(),
            email: self.email.clone(),
        }
    }
}

/// The earliest located commit that introduced the recipe file.
#[derive(Debug)]
pub struct FirstRecipeCommit {
    pub sha: String,
    pub author: CommitAuthor,
    /// ISO-8601 commit date.
    pub date: String,
    pub message: String,
}

pub ghost struct CommitView {
    pub sha: Seq<char>,
    pub author: AuthorView,
    pub date: Seq<char>,
    pub message: Seq<char>,
}

impl View for FirstRecipeCommit {
    type V = CommitView;

    open spec fn view(&self) -> CommitView {
        CommitView {
            sha: self.sha@,
            author: self.author@,
            date: self.date@,
            message: self.message@,
        }
    }
}

impl DeepView for FirstRecipeCommit {
    type V = CommitView;

    open spec fn deep_view(&self) -> CommitView {
        self.view()
    }
}

impl Clone for FirstRecipeCommit {
    fn clone(&self) -> (r: Self)
        ensures
            r@ == self@,
    {
        FirstRecipeCommit {
            sha: self.sha.clone(),
            author: self.author.clone(),
            date: self.date.clone(),
            message: self.message.clone(),
        }
    }
}

/// View of an optional commit.
pub open spec fn opt_commit_view(o: Option<FirstRecipeCommit>) -> Option<CommitView> {
    match o {
        Some(c) => Some(c@),
        None => None,
    }
}

/// Outcome of the recipe-file history lookup for one feedstock.
#[derive(Debug)]
pub struct RecipeHistoryResult {
    pub feedstock: String,
    /// The located commit, or `None` when the repository or path was not
    /// found, or when pagination has not resolved yet.
    pub first_recipe_commit: Option<FirstRecipeCommit>,
    /// A per-repository error message, when the lookup failed for this
    /// feedstock alone.
    pub error: Option<String>,
}

pub ghost struct HistoryResultView {
    pub feedstock: Seq<char>,
    pub first_recipe_commit: Option<CommitView>,
    pub error: Option<Seq<char>>,
}

impl View for RecipeHistoryResult {
    type V = HistoryResultView;

    open spec fn view(&self) -> HistoryResultView {
        HistoryResultView {
            feedstock: self.feedstock@,
            first_recipe_commit: opt_commit_view(self.first_recipe_commit),
            error: opt_view(self.error),
        }
    }
}

impl DeepView for RecipeHistoryResult {
    type V = HistoryResultView;

    open spec fn deep_view(&self) -> HistoryResultView {
        self.view()
    }
}

impl Clone for RecipeHistoryResult {
    fn clone(&self) -> (r: Self)
        ensures
            r@ == self@,
    {
        RecipeHistoryResult {
            feedstock: self.feedstock.clone(),
            first_recipe_commit: match &self.first_recipe_commit {
                Some(c) => Some(c.clone()),
                None => None,
            },
            error: clone_opt(&self.error),
        }
    }
}

/// Rate-limit numbers reported by the hosting API.
#[derive(Debug)]
pub struct RateLimitInfo {
    pub limit: u32,
    pub remaining: u32,
    pub reset_at: String,
}

/// The pull request that contains a commit.
#[derive(Debug)]
pub struct PullRequestInfo {
    pub number: u32,
    pub author: String,
}

pub ghost struct PullRequestView {
    pub number: u32,
    pub author: Seq<char>,
}

impl View for PullRequestInfo {
    type V = PullRequestView;

    open spec fn view(&self) -> PullRequestView {
        PullRequestView { number: self.number, author: self.author@ }
    }
}

impl DeepView for PullRequestInfo {
    type V = PullRequestView;

    open spec fn deep_view(&self) -> PullRequestView {
        self.view()
    }
}

impl Clone for PullRequestInfo {
    fn clone(&self) -> (r: Self)
        ensures
            r@ == self@,
    {
        PullRequestInfo { number: self.number, author: self.author.clone() }
    }
}

/// One commit inside a pull request, with the files it changed.
#[derive(Debug)]
pub struct PrCommit {
    pub sha: String,
    pub author: String,
    pub files_changed: Vec<String>,
}

pub ghost struct PrCommitView {
    pub sha: Seq<char>,
    pub author: Seq<char>,
    pub files_changed: Seq<Seq<char>>,
}

impl View for PrCommit {
    type V = PrCommitView;

    open spec fn view(&self) -> PrCommitView {
        PrCommitView {
            sha: self.sha@,
            author: self.author@,
            files_changed: self.files_changed.deep_view(),
        }
    }
}

impl DeepView for PrCommit {
    type V = PrCommitView;

    open spec fn deep_view(&self) -> PrCommitView {
        self.view()
    }
}

/// The final verdict for one Recipe v1 feedstock.
#[derive(Debug)]
pub struct Attribution {
    pub contribution_type: ContributionType,
    /// Platform handles of the credited contributors.
    pub contributors: Vec<String>,
    /// ISO-8601 date of the defining commit.
    pub date: String,
    pub commit_sha: Option<String>,
}

pub ghost struct AttributionView {
    pub contribution_type: ContributionType,
    pub contributors: Seq<Seq<char>>,
    pub date: Seq<char>,
    pub commit_sha: Option<Seq<char>>,
}

impl View for Attribution {
    type V = AttributionView;

    open spec fn view(&self) -> AttributionView {
        AttributionView {
            contribution_type: self.contribution_type,
            contributors: self.contributors.deep_view(),
            date: self.date@,
            commit_sha: opt_view(self.commit_sha),
        }
    }
}

impl DeepView for Attribution {
    type V = AttributionView;

    open spec fn deep_view(&self) -> AttributionView {
        self.view()
    }
}

/// Copy of a string vector.
pub fn clone_string_vec(v: &Vec<String>) -> (r: Vec<String>)
    ensures
        r.deep_view() == v.deep_view(),
{
    let mut out: Vec<String> = Vec::new();
    let mut i: usize = 0;
    while i < v.len()
        invariant
            0 <= i <= v.len(),
            out.deep_view() =~= v.deep_view().subrange(0, i as int),
        decreases v.len() - i,
    {
        let ghost prev = out@;
        let ghost prevdv = out.deep_view();
        proof {
            assert(prevdv.len() == prev.len());
            assert(prev.len() == i);
        }
        let c = v[i].clone();
        out.push(c);
        proof {
            assert(out@ == prev.push(c));
            assert forall|k: int| 0 <= k < out@.len() implies out.deep_view()[k]
                == v.deep_view().subrange(0, i + 1)[k] by {
                if k < i {
                    assert(out@[k] == prev[k]);
                } else {
                    assert(out@[k] == c);
                }
            }
            assert(out.deep_view() =~= v.deep_view().subrange(0, i + 1));
        }
        i = i + 1;
    }
    proof {
        assert(out.deep_view() =~= v.deep_view());
    }
    out
}

impl Clone for Attribution {
    fn clone(&self) -> (r: Self)
        ensures
            r@ == self@,
    {
        Attribution {
            contribution_type: self.contribution_type,
            contributors: clone_string_vec(&self.contributors),
            date: self.date.clone(),
            commit_sha: clone_opt(&self.commit_sha),
        }
    }
}

/// View of an optional attribution.
pub open spec fn opt_attr_view(o: Option<Attribution>) -> Option<AttributionView> {
    match o {
        Some(a) => Some(a@),
        None => None,
    }
}

/// Checkpointed outcome of the history lookup, kept so an interrupted
/// run can resume without repeating the query.
#[derive(Debug)]
pub struct RecipeCommitCache {
    pub sha: String,
    pub message: String,
    pub date: String,
    pub author_login: Option<String>,
    pub author_name: String,
    pub author_email: String,
}

pub ghost struct CacheView {
    pub sha: Seq<char>,
    pub message: Seq<char>,
    pub date: Seq<char>,
    pub author_login: Option<Seq<char>>,
    pub author_name: Seq<char>,
    pub author_email: Seq<char>,
}

impl View for RecipeCommitCache {
    type V = CacheView;

    open spec fn view(&self) -> CacheView {
        CacheView {
            sha: self.sha@,
            message: self.message@,
            date: self.date@,
            author_login: opt_view(self.author_login),
            author_name: self.author_name@,
            author_email: self.author_email@,
        }
    }
}

impl Clone for RecipeCommitCache {
    fn clone(&self) -> (r: Self)
        ensures
            r@ == self@,
    {
        RecipeCommitCache {
            sha: self.sha.clone(),
            message: self.message.clone(),
            date: self.date.clone(),
            author_login: clone_opt(&self.author_login),
            author_name: self.author_name.clone(),
            author_email: self.author_email.clone(),
        }
    }
}

/// View of an optional cache.
pub open spec fn opt_cache_view(o: Option<RecipeCommitCache>) -> Option<CacheView> {
    match o {
        Some(c) => Some(c@),
        None => None,
    }
}

/// Tracked state of one feedstock.
#[derive(Debug)]
pub struct FeedstockEntry {
    pub recipe_type: RecipeType,
    /// ISO-8601 timestamp of the last observed classification change.
    pub last_changed: String,
    pub attribution: Option<Attribution>,
    pub downloads: Option<u64>,
    pub recipe_commit_cache: Option<RecipeCommitCache>,
}

pub ghost struct EntryView {
    pub recipe_type: RecipeType,
    pub last_changed: Seq<char>,
    pub attribution: Option<AttributionView>,
    pub downloads: Option<u64>,
    pub recipe_commit_cache: Option<CacheView>,
}

impl View for FeedstockEntry {
    type V = EntryView;

    open spec fn view(&self) -> EntryView {
        EntryView {
            recipe_type: self.recipe_type,
            last_changed: self.last_changed@,
            attribution: opt_attr_view(self.attribution),
            downloads: self.downloads,
            recipe_commit_cache: opt_cache_view(self.recipe_commit_cache),
        }
    }
}

impl Clone for FeedstockEntry {
    fn clone(&self) -> (r: Self)
        ensures
            r@ == self@,
    {
        FeedstockEntry {
            recipe_type: self.recipe_type,
            last_changed: self.last_changed.clone(),
            attribution: match &self.attribution {
                Some(a) => Some(a.clone()),
                None => None,
            },
            downloads: self.downloads,
            recipe_commit_cache: match &self.recipe_commit_cache {
                Some(c) => Some(c.clone()),
                None => None,
            },
        }
    }
}

/// A feedstock name together with its tracked state; the feedstock-state
/// map is a vector of these with pairwise distinct names.
#[derive(Debug)]
pub struct FeedstockRecord {
    pub name: String,
    pub entry: FeedstockEntry,
}

pub ghost struct RecordView {
    pub name: Seq<char>,
    pub entry: EntryView,
}

impl View for FeedstockRecord {
    type V = RecordView;

    open spec fn view(&self) -> RecordView {
        RecordView { name: self.name@, entry: self.entry@ }
    }
}

impl DeepView for FeedstockRecord {
    type V = RecordView;

    open spec fn deep_view(&self) -> RecordView {
        self.view()
    }
}

/// The names in the feedstock-state map are pairwise distinct.
pub open spec fn distinct_names(records: Seq<RecordView>) -> bool {
    forall|i: int, j: int| 0 <= i < j < records.len() ==> records[i].name != records[j].name
}

/// An unconverted feedstock ranked by download count.
#[derive(Debug)]
pub struct TopFeedstock {
    pub name: String,
    pub downloads: u64,
    pub recipe_type: RecipeType,
}

pub ghost struct TopFeedstockView {
    pub name: Seq<char>,
    pub downloads: u64,
    pub recipe_type: RecipeType,
}

impl View for TopFeedstock {
    type V = TopFeedstockView;

    open spec fn view(&self) -> TopFeedstockView {
        TopFeedstockView {
            name: self.name@,
            downloads: self.downloads,
            recipe_type: self.recipe_type,
        }
    }
}

impl DeepView for TopFeedstock {
    type V = TopFeedstockView;

    open spec fn deep_view(&self) -> TopFeedstockView {
        self.view()
    }
}

impl Clone for TopFeedstock {
    fn clone(&self) -> (r: Self)
        ensures
            r@ == self@,
    {
        TopFeedstock {
            name: self.name.clone(),
            downloads: self.downloads,
            recipe_type: self.recipe_type,
        }
    }
}

/// The whole persisted dataset: summary counters, the feedstock-state
/// map, and the download ranking.
#[derive(Debug)]
pub struct FeedstockStats {
    pub total_feedstocks: u32,
    pub recipe_v1_count: u32,
    pub meta_yaml_count: u32,
    pub unknown_count: u32,
    pub last_updated: String,
    pub feedstock_states: Vec<FeedstockRecord>,
    pub top_unconverted_by_downloads: Vec<TopFeedstock>,
}

/// The fields read from one node-attributes document.
#[derive(Debug)]
pub struct NodeAttrsJson {
    pub feedstock_name: String,
    pub conda_forge_yml: Option<CondaForgeYml>,
}

pub ghost struct NodeAttrsView {
    pub feedstock_name: Seq<char>,
    pub conda_forge_yml: Option<CondaYmlView>,
}

impl View for NodeAttrsJson {
    type V = NodeAttrsView;

    open spec fn view(&self) -> NodeAttrsView {
        NodeAttrsView {
            feedstock_name: self.feedstock_name@,
            conda_forge_yml: match self.conda_forge_yml {
                Some(y) => Some(y@),
                None => None,
            },
        }
    }
}

/// The fields read from a feedstock's `conda-forge.yml`.
#[derive(Debug)]
pub struct CondaForgeYml {
    pub conda_build_tool: Option<String>,
}

pub ghost struct CondaYmlView {
    pub conda_build_tool: Option<Seq<char>>,
}

impl View for CondaForgeYml {
    type V = CondaYmlView;

    open spec fn view(&self) -> CondaYmlView {
        CondaYmlView { conda_build_tool: opt_view(self.conda_build_tool) }
    }
}

/// Parsed command-line options.
#[derive(Debug)]
pub struct Cli {
    pub command: Option<Commands>,
    pub verbose: bool,
    pub reattribute: bool,
    pub reattribute_only: bool,
    pub refetch_recipe_commits: bool,
}

/// Subcommands of the collector.
#[derive(Debug)]
pub enum Commands {
    /// Analyze the feedstock graph checkout.
    Analyze { force_clone: bool },
}

} // verus!
