//! Bot detection and the classifier: given the resolved oldest
//! recipe-file commit for a feedstock, decide whether it is a new
//! feedstock or a conversion, and who is credited for it.

use vstd::prelude::*;

use crate::models::{
    Attribution, AttributionView, AuthorView, CommitAuthor, CommitView, ContributionType,
    FirstRecipeCommit, HistoryResultView, PrCommit, PrCommitView, PullRequestInfo,
    PullRequestView, RecipeHistoryResult, opt_attr_view,
};
use crate::strutil::{
    contains_ci, contains_seq, eq_str, lower_seq, starts_with_ci, starts_with_seq,
};

verus! {

/// Substrings that mark an identity as a known automation account.
pub open spec fn bot_patterns_spec() -> Seq<Seq<char>> {
    seq![
        "conda-forge-admin"@,
        "regro-cf-autotick-bot"@,
        "conda-forge-linter"@,
        "[bot]"@,
        "github-actions"@,
        "conda-forge-daemon"@,
        "conda-forge-coordinator"@,
        "conda-forge-webservices"@,
        "conda-forge-status"@,
    ]
}

/// The list of known automation-account substrings, in match order.
pub fn bot_patterns() -> (r: Vec<&'static str>)
    ensures
        r@.map_values(|p: &'static str| p@) == bot_patterns_spec(),
{
    let pats: Vec<&'static str> = vec![
        "conda-forge-admin",
        "regro-cf-autotick-bot",
        "conda-forge-linter",
        "[bot]",
        "github-actions",
        "conda-forge-daemon",
        "conda-forge-coordinator",
        "conda-forge-webservices",
        "conda-forge-status",
    ];
    proof {
        assert(pats@.map_values(|p: &'static str| p@) =~= bot_patterns_spec());
    }
    pats
}

/// A name is bot-like when some known automation substring occurs in it,
/// ignoring ASCII case.
pub open spec fn is_bot_name(s: Seq<char>) -> bool {
    exists|k: int|
        0 <= k < bot_patterns_spec().len() && contains_seq(
            lower_seq(s),
            lower_seq(bot_patterns_spec()[k]),
        )
}

/// Whether a platform login or display name belongs to a known
/// automation account.
pub fn is_bot_username(username: &str) -> (r: bool)
    ensures
        r == is_bot_name(username@),
{
    let pats = bot_patterns();
    let mut k: usize = 0;
    while k < pats.len()
        invariant
            pats@.map_values(|p: &'static str| p@) == bot_patterns_spec(),
            0 <= k <= pats@.len(),
            forall|j: int|
                0 <= j < k ==> !contains_seq(
                    lower_seq(username@),
                    lower_seq(bot_patterns_spec()[j]),
                ),
        decreases pats@.len() - k,
    {
        if contains_ci(username, pats[k]) {
            proof {
                assert(bot_patterns_spec()[k as int] == pats@[k as int]@);
            }
            return true;
        }
        proof {
            assert(bot_patterns_spec()[k as int] == pats@[k as int]@);
        }
        k = k + 1;
    }
    false
}

/// An author identity is bot-like when any of its fields (login,
/// display name, email) holds a known automation substring; a missing
/// login counts as the empty name.
pub open spec fn author_is_bot(a: AuthorView) -> bool {
    is_bot_name(
        match a.login {
            Some(l) => l,
            None => Seq::empty(),
        },
    ) || is_bot_name(a.name) || is_bot_name(a.email)
}

/// Whether a commit author is a known automation account.
pub fn is_bot_author(author: &CommitAuthor) -> (r: bool)
    ensures
        r == author_is_bot(author@),
{
    let login_is_bot = match &author.login {
        Some(l) => is_bot_username(l.as_str()),
        None => {
            proof {
                reveal_strlit("");
                assert(""@ =~= Seq::<char>::empty());
            }
            is_bot_username("")
        },
    };
    login_is_bot || is_bot_username(author.name.as_str()) || is_bot_username(
        author.email.as_str(),
    )
}

/// A commit message that marks the repository's initial feedstock
/// commit: it contains "initial feedstock commit" or begins with
/// "initial commit", ignoring ASCII case.
pub open spec fn is_initial_message(m: Seq<char>) -> bool {
    contains_seq(lower_seq(m), lower_seq("initial feedstock commit"@)) || starts_with_seq(
        lower_seq(m),
        lower_seq("initial commit"@),
    )
}

/// Whether a commit message indicates an initial feedstock commit,
/// which identifies a new feedstock without walking further history.
pub fn is_initial_feedstock_commit(message: &str) -> (r: bool)
    ensures
        r == is_initial_message(message@),
{
    contains_ci(message, "initial feedstock commit") || starts_with_ci(message, "initial commit")
}

/// The name an author is credited under: the platform login when it is
/// linked, else the display name.
pub open spec fn author_fallback(a: AuthorView) -> Seq<char> {
    match a.login {
        Some(l) => l,
        None => a.name,
    }
}

/// Who is credited for a conversion: the pull-request author when the
/// request was opened by a human; for a bot-opened request, the human
/// found among the request's commits, else the defining commit's
/// author; and the defining commit's author when no request is known.
pub open spec fn credited_contributor(
    commit: CommitView,
    pr: Option<PullRequestView>,
    bot_pr_contributor: Option<Seq<char>>,
) -> Seq<char> {
    match pr {
        Some(p) => if is_bot_name(p.author) {
            match bot_pr_contributor {
                Some(c) => c,
                None => author_fallback(commit.author),
            }
        } else {
            p.author
        },
        None => author_fallback(commit.author),
    }
}

/// Who is credited for a new feedstock: its listed maintainers, or the
/// sentinel "unknown" contributor when none are known.
pub open spec fn credited_maintainers(m: Option<Seq<Seq<char>>>) -> Seq<Seq<char>> {
    match m {
        Some(s) => if s.len() > 0 {
            s
        } else {
            seq!["unknown"@]
        },
        None => seq!["unknown"@],
    }
}

/// The attribution verdict for one resolved history result: none
/// without a located commit; a new-feedstock verdict credited to the
/// maintainers when the recipe file was present from the start; else a
/// conversion verdict credited to the responsible contributor.
pub open spec fn attribution_for(
    result: HistoryResultView,
    is_new_feedstock: bool,
    pr: Option<PullRequestView>,
    maintainers: Option<Seq<Seq<char>>>,
    bot_pr_contributor: Option<Seq<char>>,
) -> Option<AttributionView> {
    match result.first_recipe_commit {
        None => None,
        Some(commit) => Some(
            if is_new_feedstock {
                AttributionView {
                    contribution_type: ContributionType::NewFeedstock,
                    contributors: credited_maintainers(maintainers),
                    date: commit.date,
                    commit_sha: Some(commit.sha),
                }
            } else {
                AttributionView {
                    contribution_type: ContributionType::Conversion,
                    contributors: seq![
                        credited_contributor(commit, pr, bot_pr_contributor),
                    ],
                    date: commit.date,
                    commit_sha: Some(commit.sha),
                }
            },
        ),
    }
}

/// A feedstock whose recipe file already existed in its first commit is
/// classified a new feedstock, never a conversion, whatever else is
/// known about it.
pub proof fn lemma_new_feedstock_never_conversion(
    result: HistoryResultView,
    pr: Option<PullRequestView>,
    maintainers: Option<Seq<Seq<char>>>,
    bot_pr_contributor: Option<Seq<char>>,
)
    requires
        result.first_recipe_commit matches Some(c),
    ensures
        attribution_for(result, true, pr, maintainers, bot_pr_contributor) matches Some(a)
            && a.contribution_type == ContributionType::NewFeedstock,
{
}

/// Find who actually did a conversion, from the pull request (if any)
/// and the pre-resolved human contributor of a bot-opened request.
pub fn find_conversion_contributor(
    commit: &FirstRecipeCommit,
    pr_info: Option<&PullRequestInfo>,
    bot_pr_contributor: Option<&String>,
) -> (r: String)
    ensures
        r@ == credited_contributor(
            commit@,
            match pr_info {
                Some(p) => Some(p@),
                None => None,
            },
            match bot_pr_contributor {
                Some(c) => Some(c@),
                None => None,
            },
        ),
{
    match pr_info {
        Some(pr) => {
            if is_bot_username(pr.author.as_str()) {
                match bot_pr_contributor {
                    Some(contributor) => contributor.clone(),
                    None => match &commit.author.login {
                        Some(l) => l.clone(),
                        None => commit.author.name.clone(),
                    },
                }
            } else {
                pr.author.clone()
            }
        },
        None => match &commit.author.login {
            Some(l) => l.clone(),
            None => commit.author.name.clone(),
        },
    }
}

/// Process a single history result into its attribution verdict.
pub fn process_history_result(
    result: &RecipeHistoryResult,
    is_new_feedstock: bool,
    pr_info: Option<&PullRequestInfo>,
    maintainers: Option<&Vec<String>>,
    bot_pr_contributor: Option<&String>,
) -> (r: Option<Attribution>)
    ensures
        opt_attr_view(r) == attribution_for(
            result@,
            is_new_feedstock,
            match pr_info {
                Some(p) => Some(p@),
                None => None,
            },
            match maintainers {
                Some(m) => Some(m.deep_view()),
                None => None,
            },
            match bot_pr_contributor {
                Some(c) => Some(c@),
                None => None,
            },
        ),
{
    let commit = match &result.first_recipe_commit {
        Some(c) => c,
        None => {
            return None;
        },
    };

    if is_new_feedstock {
        let contributors: Vec<String> = match maintainers {
            Some(m) => {
                if m.len() > 0 {
                    crate::models::clone_string_vec(m)
                } else {
                    sentinel_contributors()
                }
            },
            None => sentinel_contributors(),
        };
        return Some(
            Attribution {
                contribution_type: ContributionType::NewFeedstock,
                contributors,
                date: commit.date.clone(),
                commit_sha: Some(commit.sha.clone()),
            },
        );
    }

    let contributor = find_conversion_contributor(commit, pr_info, bot_pr_contributor);
    let mut contributors: Vec<String> = Vec::new();
    contributors.push(contributor);
    proof {
        assert(contributors.deep_view() =~= seq![
            credited_contributor(
                commit@,
                match pr_info {
                    Some(p) => Some(p@),
                    None => None,
                },
                match bot_pr_contributor {
                    Some(c) => Some(c@),
                    None => None,
                },
            ),
        ]);
    }
    Some(
        Attribution {
            contribution_type: ContributionType::Conversion,
            contributors,
            date: commit.date.clone(),
            commit_sha: Some(commit.sha.clone()),
        },
    )
}

/// The one-element contributor list holding the sentinel "unknown".
fn sentinel_contributors() -> (r: Vec<String>)
    ensures
        r.deep_view() == seq!["unknown"@],
{
    let mut v: Vec<String> = Vec::new();
    v.push(String::from_str("unknown"));
    proof {
        assert(v.deep_view() =~= seq!["unknown"@]);
    }
    v
}

/// A recipe-file path: the root `recipe.yaml` or the conventional
/// `recipe/recipe.yaml` subdirectory location.
pub open spec fn is_recipe_path(f: Seq<char>) -> bool {
    f == "recipe.yaml"@ || f == "recipe/recipe.yaml"@
}

/// A changed-file list touches the recipe file.
pub open spec fn touches_recipe(files: Seq<Seq<char>>) -> bool {
    exists|i: int| 0 <= i < files.len() && is_recipe_path(files[i])
}

/// Whether one commit's changed files include the recipe file at either
/// of its two conventional locations.
pub fn commit_touches_recipe_file(files: &Vec<String>) -> (r: bool)
    ensures
        r == touches_recipe(files.deep_view()),
{
    let mut i: usize = 0;
    while i < files.len()
        invariant
            0 <= i <= files@.len(),
            forall|j: int| 0 <= j < i ==> !is_recipe_path(files.deep_view()[j]),
        decreases files@.len() - i,
    {
        if eq_str(files[i].as_str(), "recipe.yaml") || eq_str(
            files[i].as_str(),
            "recipe/recipe.yaml",
        ) {
            proof {
                assert(is_recipe_path(files.deep_view()[i as int]));
            }
            return true;
        }
        i = i + 1;
    }
    false
}

/// A pull-request commit that a human made and that touches the recipe
/// file: such a commit identifies the human behind a bot-opened
/// conversion.
pub open spec fn is_human_recipe_commit(c: PrCommitView) -> bool {
    touches_recipe(c.files_changed) && !is_bot_name(c.author)
}

/// Search a pull request's commits, in order, for the first one that
/// touches the recipe file and is not bot-authored; its author is the
/// credited human contributor.
pub fn find_human_pr_contributor(commits: &Vec<PrCommit>) -> (r: Option<String>)
    ensures
        match r {
            Some(a) => exists|i: int|
                0 <= i < commits@.len() && is_human_recipe_commit(commits@[i]@) && a@
                    == commits@[i]@.author && (forall|j: int|
                    0 <= j < i ==> !is_human_recipe_commit(commits@[j]@)),
            None => forall|i: int|
                0 <= i < commits@.len() ==> !is_human_recipe_commit(commits@[i]@),
        },
{
    let mut i: usize = 0;
    while i < commits.len()
        invariant
            0 <= i <= commits@.len(),
            forall|j: int| 0 <= j < i ==> !is_human_recipe_commit(commits@[j]@),
        decreases commits@.len() - i,
    {
        let touches = commit_touches_recipe_file(&commits[i].files_changed);
        if touches && !is_bot_username(commits[i].author.as_str()) {
            return Some(commits[i].author.clone());
        }
        i = i + 1;
    }
    None
}

} // verus!
