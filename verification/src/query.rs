//! Query planning for the History Client: the batched GraphQL query
//! built from typed per-repository aliases, the follow-up pagination
//! and first-commit queries, REST URL construction, the retry policy
//! for transient failures, and bearer-token resolution.

use vstd::prelude::*;

use crate::models::opt_view;

verus! {

/// Repositories queried per batched request.
pub const BATCH_SIZE: usize = 50;

/// Retries after the first attempt of one query.
pub const MAX_RETRIES: u32 = 3;

/// The decimal digit character for `d`.
pub open spec fn digit_char(d: int) -> char {
    if d == 0 {
        '0'
    } else if d == 1 {
        '1'
    } else if d == 2 {
        '2'
    } else if d == 3 {
        '3'
    } else if d == 4 {
        '4'
    } else if d == 5 {
        '5'
    } else if d == 6 {
        '6'
    } else if d == 7 {
        '7'
    } else if d == 8 {
        '8'
    } else {
        '9'
    }
}

/// The decimal rendering of a non-negative integer.
pub open spec fn dec_str(n: int) -> Seq<char>
    decreases n,
{
    if n < 10 {
        seq![digit_char(n)]
    } else {
        dec_str(n / 10).push(digit_char(n % 10))
    }
}

/// The one-character string for a decimal digit.
fn digit_str(d: u64) -> (r: &'static str)
    requires
        d < 10,
    ensures
        r@ == seq![digit_char(d as int)],
{
    proof {
        reveal_strlit("0");
        reveal_strlit("1");
        reveal_strlit("2");
        reveal_strlit("3");
        reveal_strlit("4");
        reveal_strlit("5");
        reveal_strlit("6");
        reveal_strlit("7");
        reveal_strlit("8");
        reveal_strlit("9");
    }
    if d == 0 {
        "0"
    } else if d == 1 {
        "1"
    } else if d == 2 {
        "2"
    } else if d == 3 {
        "3"
    } else if d == 4 {
        "4"
    } else if d == 5 {
        "5"
    } else if d == 6 {
        "6"
    } else if d == 7 {
        "7"
    } else if d == 8 {
        "8"
    } else {
        "9"
    }
}

/// Render a number in decimal.
pub fn u64_to_string(n: u64) -> (r: String)
    ensures
        r@ == dec_str(n as int),
{
    let mut digits: Vec<u64> = Vec::new();
    let mut m: u64 = n;
    while m >= 10
        invariant
            0 <= m,
            forall|k: int| 0 <= k < digits@.len() ==> digits@[k] < 10,
            dec_str(n as int) == dec_str(m as int) + rev_digit_seq(digits@),
        decreases m,
    {
        let d = m % 10;
        let ghost prev = digits@;
        digits.push(d);
        m = m / 10;
        proof {
            assert(digits@.drop_last() =~= prev);
            assert(rev_digit_seq(digits@) == seq![digit_char(d as int)] + rev_digit_seq(prev));
            assert(dec_str(n as int) =~= dec_str(m as int) + rev_digit_seq(digits@));
        }
    }
    let mut out = String::new();
    out.append(digit_str(m));
    proof {
        assert(out@ =~= dec_str(m as int));
    }
    let mut k: usize = digits.len();
    while k > 0
        invariant
            0 <= k <= digits@.len(),
            forall|j: int| 0 <= j < digits@.len() ==> digits@[j] < 10,
            out@ == dec_str(m as int) + rev_digit_seq(digits@.subrange(k as int, digits@.len() as int)),
        decreases k,
    {
        k = k - 1;
        let ghost before = digits@.subrange(k as int + 1, digits@.len() as int);
        out.append(digit_str(digits[k]));
        proof {
            assert(digits@.subrange(k as int, digits@.len() as int) =~= seq![
                digits@[k as int],
            ] + before);
            lemma_rev_cons(digits@[k as int], before);
            assert(out@ =~= dec_str(m as int) + rev_digit_seq(
                digits@.subrange(k as int, digits@.len() as int),
            ));
        }
    }
    proof {
        assert(digits@.subrange(0, digits@.len() as int) =~= digits@);
    }
    out
}

/// The digit characters of `ds` in reverse order.
pub open spec fn rev_digit_seq(ds: Seq<u64>) -> Seq<char>
    decreases ds.len(),
{
    if ds.len() == 0 {
        Seq::empty()
    } else {
        seq![digit_char(ds.last() as int)] + rev_digit_seq(ds.drop_last())
    }
}

/// One aliased repository sub-query of the batched request: alias
/// `repo<i>` selects the repository and the recipe-file history for
/// both conventional paths.
pub open spec fn sub_query_spec(i: int, name: Seq<char>) -> Seq<char> {
    "\nrepo"@ + dec_str(i) + ": repository(owner: \"conda-forge\", name: \""@ + name
        + "\") { name defaultBranchRef { target { ... on Commit { historyMain: history(first: 100, path: \"recipe.yaml\") { totalCount pageInfo { hasNextPage endCursor } nodes { oid message committedDate author { user { login } name email } } } historyAlt: history(first: 100, path: \"recipe/recipe.yaml\") { totalCount pageInfo { hasNextPage endCursor } nodes { oid message committedDate author { user { login } name email } } } } } } }"@
}

/// The aliased sub-queries for a batch, one per repository, with the
/// alias index equal to the repository's position.
pub open spec fn sub_queries_spec(names: Seq<Seq<char>>) -> Seq<char>
    decreases names.len(),
{
    if names.len() == 0 {
        Seq::empty()
    } else {
        sub_queries_spec(names.drop_last()) + sub_query_spec(
            names.len() - 1,
            names.last(),
        )
    }
}

/// The whole batched history query for a list of repositories.
pub open spec fn batch_query_spec(names: Seq<Seq<char>>) -> Seq<char> {
    "query {"@ + sub_queries_spec(names) + "\n}"@
}

/// Build the batched GraphQL history query for one chunk of
/// feedstocks, aliasing each repository by its index.
pub fn build_batch_query(feedstocks: &Vec<String>) -> (r: String)
    ensures
        r@ == batch_query_spec(feedstocks@.map_values(|f: String| f@)),
{
    let ghost names = feedstocks@.map_values(|f: String| f@);
    let mut out = String::new();
    out.append("query {");
    proof {
        assert(sub_queries_spec(names.subrange(0, 0)) =~= Seq::<char>::empty());
        assert(out@ =~= "query {"@ + sub_queries_spec(names.subrange(0, 0)));
    }
    let mut i: usize = 0;
    while i < feedstocks.len()
        invariant
            names == feedstocks@.map_values(|f: String| f@),
            0 <= i <= names.len(),
            out@ == "query {"@ + sub_queries_spec(names.subrange(0, i as int)),
        decreases names.len() - i,
    {
        out.append("\nrepo");
        let index = u64_to_string(i as u64);
        out.append(index.as_str());
        out.append(": repository(owner: \"conda-forge\", name: \"");
        out.append(feedstocks[i].as_str());
        out.append(
            "\") { name defaultBranchRef { target { ... on Commit { historyMain: history(first: 100, path: \"recipe.yaml\") { totalCount pageInfo { hasNextPage endCursor } nodes { oid message committedDate author { user { login } name email } } } historyAlt: history(first: 100, path: \"recipe/recipe.yaml\") { totalCount pageInfo { hasNextPage endCursor } nodes { oid message committedDate author { user { login } name email } } } } } } }",
        );
        proof {
            let pre = names.subrange(0, i as int);
            let post = names.subrange(0, i + 1);
            assert(post.drop_last() =~= pre);
            assert(post.last() == names[i as int]);
            assert(sub_queries_spec(post) == sub_queries_spec(pre) + sub_query_spec(
                i as int,
                names[i as int],
            ));
            assert(out@ =~= "query {"@ + sub_queries_spec(post));
        }
        i = i + 1;
    }
    out.append("\n}");
    proof {
        assert(names.subrange(0, names.len() as int) =~= names);
        assert(out@ =~= batch_query_spec(names));
    }
    out
}

/// Split the feedstock list into query batches: each chunk takes the
/// next `BATCH_SIZE` names, and the last takes what remains.
pub fn batch_chunks(feedstocks: &Vec<String>) -> (r: Vec<Vec<String>>)
    ensures
        r@.len() == (feedstocks@.len() + BATCH_SIZE - 1) as int / BATCH_SIZE as int,
        forall|c: int|
            0 <= c < r@.len() ==> r@[c].deep_view() == feedstocks.deep_view().subrange(
                BATCH_SIZE * c,
                if BATCH_SIZE * (c + 1) <= feedstocks@.len() {
                    BATCH_SIZE * (c + 1)
                } else {
                    feedstocks@.len() as int
                },
            ),
{
    let n = feedstocks.len();
    let mut chunks: Vec<Vec<String>> = Vec::new();
    let mut start: usize = 0;
    while start < n
        invariant
            n == feedstocks@.len(),
            0 <= start <= n,
            start < n ==> start == chunks@.len() * BATCH_SIZE,
            start == n ==> chunks@.len() == (n + BATCH_SIZE - 1) as int / BATCH_SIZE as int,
            forall|c: int|
                0 <= c < chunks@.len() ==> chunks@[c].deep_view()
                    == feedstocks.deep_view().subrange(
                    BATCH_SIZE * c,
                    if BATCH_SIZE * (c + 1) <= n {
                        BATCH_SIZE * (c + 1)
                    } else {
                        n as int
                    },
                ),
        decreases n - start,
    {
        let end = if n - start < BATCH_SIZE {
            n
        } else {
            start + BATCH_SIZE
        };
        let mut chunk: Vec<String> = Vec::new();
        let mut j: usize = start;
        while j < end
            invariant
                n == feedstocks@.len(),
                start <= j <= end <= n,
                chunk.deep_view() =~= feedstocks.deep_view().subrange(start as int, j as int),
            decreases end - j,
        {
            let ghost prev = chunk.deep_view();
            chunk.push(feedstocks[j].clone());
            proof {
                assert(chunk.deep_view() =~= prev.push(feedstocks.deep_view()[j as int]));
                assert(chunk.deep_view() =~= feedstocks.deep_view().subrange(
                    start as int,
                    j + 1,
                ));
            }
            j = j + 1;
        }
        chunks.push(chunk);
        start = end;
    }
    chunks
}

/// The follow-up query for one further page of recipe-file history,
/// resumed at a continuation cursor.
pub open spec fn history_page_query_spec(
    feedstock: Seq<char>,
    path: Seq<char>,
    cursor: Seq<char>,
) -> Seq<char> {
    "query { repository(owner: \"conda-forge\", name: \""@ + feedstock
        + "\") { defaultBranchRef { target { ... on Commit { history(first: 100, path: \""@ + path
        + "\", after: \""@ + cursor
        + "\") { pageInfo { hasNextPage endCursor } nodes { oid message committedDate author { user { login } name email } } } } } } } }"@
}

/// Build the follow-up pagination query.
pub fn build_history_page_query(feedstock: &str, path: &str, cursor: &str) -> (r: String)
    ensures
        r@ == history_page_query_spec(feedstock@, path@, cursor@),
{
    let mut out = String::new();
    out.append("query { repository(owner: \"conda-forge\", name: \"");
    out.append(feedstock);
    out.append("\") { defaultBranchRef { target { ... on Commit { history(first: 100, path: \"");
    out.append(path);
    out.append("\", after: \"");
    out.append(cursor);
    out.append(
        "\") { pageInfo { hasNextPage endCursor } nodes { oid message committedDate author { user { login } name email } } } } } } } }",
    );
    proof {
        assert(out@ =~= history_page_query_spec(feedstock@, path@, cursor@));
    }
    out
}

/// The query for one page of the repository's full history with parent
/// counts, from the head or resumed at a cursor.
pub open spec fn first_commit_query_spec(feedstock: Seq<char>, cursor: Option<Seq<char>>) -> Seq<
    char,
> {
    "query { repository(owner: \"conda-forge\", name: \""@ + feedstock
        + "\") { defaultBranchRef { target { ... on Commit { history(first: 100"@ + (match cursor {
        Some(c) => ", after: \""@ + c + "\""@,
        None => Seq::empty(),
    })
        + ") { pageInfo { hasNextPage endCursor } nodes { oid parents { totalCount } } } } } } }"@
}

/// Build the first-commit search query.
pub fn build_first_commit_query(feedstock: &str, cursor: Option<&String>) -> (r: String)
    ensures
        r@ == first_commit_query_spec(
            feedstock@,
            match cursor {
                Some(c) => Some(c@),
                None => None,
            },
        ),
{
    let mut out = String::new();
    out.append("query { repository(owner: \"conda-forge\", name: \"");
    out.append(feedstock);
    out.append("\") { defaultBranchRef { target { ... on Commit { history(first: 100");
    match cursor {
        Some(c) => {
            out.append(", after: \"");
            out.append(c.as_str());
            out.append("\"");
        },
        None => {},
    }
    out.append(
        ") { pageInfo { hasNextPage endCursor } nodes { oid parents { totalCount } } } } } } }",
    );
    proof {
        assert(out@ =~= first_commit_query_spec(
            feedstock@,
            match cursor {
                Some(c) => Some(c@),
                None => None,
            },
        ));
    }
    out
}

/// The REST URL listing the pull requests that contain a commit.
pub open spec fn pr_for_commit_url_spec(feedstock: Seq<char>, sha: Seq<char>) -> Seq<char> {
    "https://api.github.com/repos/conda-forge/"@ + feedstock + "/commits/"@ + sha + "/pulls"@
}

/// Build the pull-requests-for-commit URL.
pub fn pr_for_commit_url(feedstock: &str, commit_sha: &str) -> (r: String)
    ensures
        r@ == pr_for_commit_url_spec(feedstock@, commit_sha@),
{
    let mut out = String::new();
    out.append("https://api.github.com/repos/conda-forge/");
    out.append(feedstock);
    out.append("/commits/");
    out.append(commit_sha);
    out.append("/pulls");
    proof {
        assert(out@ =~= pr_for_commit_url_spec(feedstock@, commit_sha@));
    }
    out
}

/// The REST URL listing a pull request's commits.
pub open spec fn pr_commits_url_spec(feedstock: Seq<char>, pr_number: u32) -> Seq<char> {
    "https://api.github.com/repos/conda-forge/"@ + feedstock + "/pulls/"@ + dec_str(
        pr_number as int,
    ) + "/commits"@
}

/// Build the pull-request-commits URL.
pub fn pr_commits_url(feedstock: &str, pr_number: u32) -> (r: String)
    ensures
        r@ == pr_commits_url_spec(feedstock@, pr_number),
{
    let mut out = String::new();
    out.append("https://api.github.com/repos/conda-forge/");
    out.append(feedstock);
    out.append("/pulls/");
    let num = u64_to_string(pr_number as u64);
    out.append(num.as_str());
    out.append("/commits");
    proof {
        assert(out@ =~= pr_commits_url_spec(feedstock@, pr_number));
    }
    out
}

/// The REST URL for one commit with its changed files.
pub open spec fn commit_url_spec(feedstock: Seq<char>, sha: Seq<char>) -> Seq<char> {
    "https://api.github.com/repos/conda-forge/"@ + feedstock + "/commits/"@ + sha
}

/// Build the single-commit URL.
pub fn commit_url(feedstock: &str, commit_sha: &str) -> (r: String)
    ensures
        r@ == commit_url_spec(feedstock@, commit_sha@),
{
    let mut out = String::new();
    out.append("https://api.github.com/repos/conda-forge/");
    out.append(feedstock);
    out.append("/commits/");
    out.append(commit_sha);
    proof {
        assert(out@ =~= commit_url_spec(feedstock@, commit_sha@));
    }
    out
}

/// The raw-content URL for a file of a feedstock at a ref.
pub open spec fn raw_file_url_spec(
    feedstock: Seq<char>,
    git_ref: Seq<char>,
    path: Seq<char>,
) -> Seq<char> {
    "https://raw.githubusercontent.com/conda-forge/"@ + feedstock + "/"@ + git_ref + "/"@ + path
}

/// Build the raw-content URL, used to fetch the recipe file itself and
/// to probe for its presence in a commit.
pub fn raw_file_url(feedstock: &str, git_ref: &str, path: &str) -> (r: String)
    ensures
        r@ == raw_file_url_spec(feedstock@, git_ref@, path@),
{
    let mut out = String::new();
    out.append("https://raw.githubusercontent.com/conda-forge/");
    out.append(feedstock);
    out.append("/");
    out.append(git_ref);
    out.append("/");
    out.append(path);
    proof {
        assert(out@ =~= raw_file_url_spec(feedstock@, git_ref@, path@));
    }
    out
}

/// How one HTTP status is treated: a success is used, a server error
/// is retried, an authorization failure and any other failure are
/// fatal.
#[derive(Clone, Copy, Debug, PartialEq, Eq, Structural)]
pub enum StatusClass {
    /// 2xx: use the response body.
    Success,
    /// 5xx: transient; retry with backoff.
    ServerError,
    /// 401 or 403: credentials are no good for this run; never retried.
    AuthFailure,
    /// Anything else: fatal for this query.
    OtherFailure,
}

/// The treatment of each HTTP status code.
pub open spec fn status_class_spec(status: u16) -> StatusClass {
    if 500 <= status < 600 {
        StatusClass::ServerError
    } else if status == 401 || status == 403 {
        StatusClass::AuthFailure
    } else if 200 <= status < 300 {
        StatusClass::Success
    } else {
        StatusClass::OtherFailure
    }
}

/// Classify one HTTP status code for the retry policy.
pub fn classify_status(status: u16) -> (r: StatusClass)
    ensures
        r == status_class_spec(status),
{
    if 500 <= status && status < 600 {
        StatusClass::ServerError
    } else if status == 401 || status == 403 {
        StatusClass::AuthFailure
    } else if 200 <= status && status < 300 {
        StatusClass::Success
    } else {
        StatusClass::OtherFailure
    }
}

/// Seconds to wait before retry attempt `attempt`: exponential
/// backoff, 1s before the first retry, then doubling.
pub open spec fn backoff_secs_spec(attempt: u32) -> u64 {
    1u64 << ((attempt - 1) as u64)
}

/// The backoff delay before a retry attempt.
pub fn backoff_secs(attempt: u32) -> (r: u64)
    requires
        1 <= attempt <= 32,
    ensures
        r == backoff_secs_spec(attempt),
{
    1u64 << ((attempt - 1) as u64)
}

/// Whether a further retry is allowed after this attempt.
pub fn retry_allowed(attempt: u32, max_retries: u32) -> (r: bool)
    ensures
        r == (attempt < max_retries),
{
    attempt < max_retries
}

/// A candidate token that is present and non-empty.
pub open spec fn usable_token(o: Option<Seq<char>>) -> bool {
    match o {
        Some(s) => s.len() > 0,
        None => false,
    }
}

/// The token the client uses: the first usable candidate in order —
/// the credential helper's output, then the primary environment
/// variable, then the secondary one; nothing when all are absent or
/// empty.
pub open spec fn token_choice(
    helper: Option<Seq<char>>,
    primary_env: Option<Seq<char>>,
    secondary_env: Option<Seq<char>>,
) -> Option<Seq<char>> {
    if usable_token(helper) {
        helper
    } else if usable_token(primary_env) {
        primary_env
    } else if usable_token(secondary_env) {
        secondary_env
    } else {
        None
    }
}

/// Resolve the bearer token from the three candidate sources, in
/// order; `None` means attribution must be skipped for this run.
pub fn resolve_token(
    helper: Option<String>,
    primary_env: Option<String>,
    secondary_env: Option<String>,
) -> (r: Option<String>)
    ensures
        opt_view(r) == token_choice(
            opt_view(helper),
            opt_view(primary_env),
            opt_view(secondary_env),
        ),
{
    match helper {
        Some(t) => {
            if t.as_str().unicode_len() > 0 {
                return Some(t);
            }
        },
        None => {},
    }
    match primary_env {
        Some(t) => {
            if t.as_str().unicode_len() > 0 {
                return Some(t);
            }
        },
        None => {},
    }
    match secondary_env {
        Some(t) => {
            if t.as_str().unicode_len() > 0 {
                return Some(t);
            }
        },
        None => {},
    }
    None
}

proof fn lemma_rev_cons(x: u64, t: Seq<u64>)
    ensures
        rev_digit_seq(seq![x] + t) == rev_digit_seq(t).push(digit_char(x as int)),
    decreases t.len(),
{
    let s = seq![x] + t;
    if t.len() == 0 {
        assert(s =~= seq![x]);
        assert(s.last() == x);
        assert(s.drop_last() =~= Seq::<u64>::empty());
        assert(rev_digit_seq(Seq::<u64>::empty()) == Seq::<char>::empty());
        assert(rev_digit_seq(s) =~= rev_digit_seq(t).push(digit_char(x as int)));
    } else {
        assert(s.last() == t.last());
        assert(s.drop_last() =~= seq![x] + t.drop_last());
        lemma_rev_cons(x, t.drop_last());
        assert(rev_digit_seq(s) == seq![digit_char(t.last() as int)] + rev_digit_seq(
            s.drop_last(),
        ));
        assert(rev_digit_seq(s.drop_last()) == rev_digit_seq(t.drop_last()).push(
            digit_char(x as int),
        ));
        assert(rev_digit_seq(t) == seq![digit_char(t.last() as int)] + rev_digit_seq(
            t.drop_last(),
        ));
        assert(rev_digit_seq(s) =~= rev_digit_seq(t).push(digit_char(x as int)));
    }
}

} // verus!
