//! The Pagination Resolver: walks further history pages to find the
//! true oldest recipe-file commit when a feedstock's history overflows
//! one page, searches paged history for the repository's zero-parent
//! first commit, and resolves a platform login from a provider noreply
//! email address.

use vstd::prelude::*;

use crate::history::{HistoryPage, PageView, PaginationNeeded};
use crate::models::{CommitView, FirstRecipeCommit, opt_view};
use crate::strutil::{starts_with, starts_with_seq};

verus! {

/// Safety ceiling on pages walked per feedstock.
pub const MAX_PAGES: u32 = 50;

/// Progress of one cursor walk: the next cursor to query, the oldest
/// commit seen so far, and how many pages were fetched.
#[derive(Debug)]
pub struct PaginationState {
    pub feedstock: String,
    /// Recipe-file path being followed.
    pub path: String,
    pub cursor: String,
    pub oldest: FirstRecipeCommit,
    pub pages_done: u32,
}

pub ghost struct PaginationStateView {
    pub feedstock: Seq<char>,
    pub path: Seq<char>,
    pub cursor: Seq<char>,
    pub oldest: CommitView,
    pub pages_done: u32,
}

impl View for PaginationState {
    type V = PaginationStateView;

    open spec fn view(&self) -> PaginationStateView {
        PaginationStateView {
            feedstock: self.feedstock@,
            path: self.path@,
            cursor: self.cursor@,
            oldest: self.oldest@,
            pages_done: self.pages_done,
        }
    }
}

/// Outcome of absorbing one fetched page.
#[derive(Debug)]
pub enum PaginationStep {
    /// More pages remain; query again with the state's cursor.
    Continue(PaginationState),
    /// The walk ended; this is the oldest commit found.
    Done(FirstRecipeCommit),
}

/// What absorbing one page does: the first component is the follow-up
/// state when the walk continues, the second the final commit when it
/// ends; exactly one is present.
pub open spec fn absorb_spec(st: PaginationStateView, page: Option<PageView>) -> (
    Option<PaginationStateView>,
    Option<CommitView>,
) {
    match page {
        None => (None, Some(st.oldest)),
        Some(p) => {
            let oldest = if p.nodes.len() > 0 {
                p.nodes.last()
            } else {
                st.oldest
            };
            if !p.has_next_page {
                (None, Some(oldest))
            } else {
                let cursor = match p.end_cursor {
                    Some(c) => c,
                    None => Seq::empty(),
                };
                if cursor.len() == 0 {
                    (None, Some(oldest))
                } else {
                    (
                        Some(
                            PaginationStateView {
                                feedstock: st.feedstock,
                                path: st.path,
                                cursor: cursor,
                                oldest: oldest,
                                pages_done: (st.pages_done + 1) as u32,
                            },
                        ),
                        None,
                    )
                }
            }
        },
    }
}

impl PaginationState {
    /// Begin a cursor walk from a pagination marker.
    pub fn start(pag: &PaginationNeeded) -> (r: Self)
        ensures
            r@.feedstock == pag@.feedstock,
            r@.path == pag@.path,
            r@.cursor == pag@.cursor,
            r@.oldest == pag@.oldest_commit_so_far,
            r@.pages_done == 0,
    {
        PaginationState {
            feedstock: pag.feedstock.clone(),
            path: pag.path.clone(),
            cursor: pag.cursor.clone(),
            oldest: pag.oldest_commit_so_far.clone(),
            pages_done: 0,
        }
    }

    /// Whether the walk may fetch another page, or has hit the safety
    /// ceiling.
    pub fn wants_more(&self) -> (r: bool)
        ensures
            r == (self@.pages_done < MAX_PAGES),
    {
        self.pages_done < MAX_PAGES
    }

    /// Absorb one fetched page (or a response with no history) and
    /// either continue with the page's cursor or end with the oldest
    /// commit found. The page's last node, being the oldest of the
    /// page, supersedes the oldest seen so far.
    pub fn absorb_page(self, page: Option<&HistoryPage>) -> (r: PaginationStep)
        requires
            self@.pages_done < MAX_PAGES,
        ensures
            match r {
                PaginationStep::Continue(s) => absorb_spec(
                    self@,
                    match page {
                        Some(p) => Some(p@),
                        None => None,
                    },
                ) == (Some(s@), None::<CommitView>),
                PaginationStep::Done(c) => absorb_spec(
                    self@,
                    match page {
                        Some(p) => Some(p@),
                        None => None,
                    },
                ) == (None::<PaginationStateView>, Some(c@)),
            },
    {
        let page = match page {
            None => {
                return PaginationStep::Done(self.oldest);
            },
            Some(p) => p,
        };
        let oldest = if page.nodes.len() > 0 {
            let c = page.nodes[page.nodes.len() - 1].clone();
            proof {
                assert(c@ == page@.nodes.last());
            }
            c
        } else {
            self.oldest
        };
        if !page.has_next_page {
            return PaginationStep::Done(oldest);
        }
        let cursor: String = match &page.end_cursor {
            Some(c) => c.clone(),
            None => String::new(),
        };
        if cursor.unicode_len() == 0 {
            proof {
                assert(cursor@ =~= Seq::<char>::empty());
                assert((match page@.end_cursor {
                    Some(c) => c,
                    None => Seq::<char>::empty(),
                }).len() == 0);
            }
            return PaginationStep::Done(oldest);
        }
        PaginationStep::Continue(
            PaginationState {
                feedstock: self.feedstock,
                path: self.path,
                cursor,
                oldest,
                pages_done: self.pages_done + 1,
            },
        )
    }

    /// The oldest commit found so far; the walk's answer when the page
    /// ceiling ends it.
    pub fn into_oldest(self) -> (r: FirstRecipeCommit)
        ensures
            r@ == self@.oldest,
    {
        self.oldest
    }
}

/// One commit of the repository's full history with its parent count;
/// the zero-parent commit is the repository's first.
#[derive(Debug)]
pub struct ParentCountNode {
    pub sha: String,
    pub parent_count: u64,
}

pub ghost struct ParentCountNodeView {
    pub sha: Seq<char>,
    pub parent_count: u64,
}

impl View for ParentCountNode {
    type V = ParentCountNodeView;

    open spec fn view(&self) -> ParentCountNodeView {
        ParentCountNodeView { sha: self.sha@, parent_count: self.parent_count }
    }
}

impl DeepView for ParentCountNode {
    type V = ParentCountNodeView;

    open spec fn deep_view(&self) -> ParentCountNodeView {
        self.view()
    }
}

/// One page of the repository's full commit history.
#[derive(Debug)]
pub struct FirstCommitPage {
    pub nodes: Vec<ParentCountNode>,
    pub has_next_page: bool,
    pub end_cursor: Option<String>,
}

pub ghost struct FirstCommitPageView {
    pub nodes: Seq<ParentCountNodeView>,
    pub has_next_page: bool,
    pub end_cursor: Option<Seq<char>>,
}

impl View for FirstCommitPage {
    type V = FirstCommitPageView;

    open spec fn view(&self) -> FirstCommitPageView {
        FirstCommitPageView {
            nodes: self.nodes.deep_view(),
            has_next_page: self.has_next_page,
            end_cursor: opt_view(self.end_cursor),
        }
    }
}

/// The sha of the first zero-parent commit in a page, in page order.
pub open spec fn zero_parent_sha(nodes: Seq<ParentCountNodeView>) -> Option<Seq<char>>
    decreases nodes.len(),
{
    if nodes.len() == 0 {
        None
    } else if nodes.first().parent_count == 0 {
        Some(nodes.first().sha)
    } else {
        zero_parent_sha(nodes.drop_first())
    }
}

proof fn lemma_zero_parent_sha_prefix(nodes: Seq<ParentCountNodeView>, i: int)
    requires
        0 <= i <= nodes.len(),
        forall|k: int| 0 <= k < i ==> nodes[k].parent_count != 0,
    ensures
        zero_parent_sha(nodes) == if i == nodes.len() {
            None::<Seq<char>>
        } else if nodes[i].parent_count == 0 {
            Some(nodes[i].sha)
        } else {
            zero_parent_sha(nodes.subrange(i + 1, nodes.len() as int))
        },
    decreases i,
{
    if i == 0 {
        if 0 < nodes.len() && nodes[0].parent_count != 0 {
            assert(nodes.drop_first() =~= nodes.subrange(1, nodes.len() as int));
        }
    } else {
        let t = nodes.drop_first();
        assert(t =~= nodes.subrange(1, nodes.len() as int));
        lemma_zero_parent_sha_prefix(t, i - 1);
        if i < nodes.len() && nodes[i].parent_count != 0 {
            assert(t.subrange(i - 1 + 1, t.len() as int) =~= nodes.subrange(
                i + 1,
                nodes.len() as int,
            ));
        }
    }
}

/// Find the first zero-parent commit in a page.
pub fn find_zero_parent(nodes: &Vec<ParentCountNode>) -> (r: Option<String>)
    ensures
        opt_view(r) == zero_parent_sha(nodes.deep_view()),
{
    let mut i: usize = 0;
    while i < nodes.len()
        invariant
            0 <= i <= nodes@.len(),
            forall|k: int| 0 <= k < i ==> nodes.deep_view()[k].parent_count != 0,
        decreases nodes@.len() - i,
    {
        if nodes[i].parent_count == 0 {
            proof {
                lemma_zero_parent_sha_prefix(nodes.deep_view(), i as int);
            }
            return Some(nodes[i].sha.clone());
        }
        i = i + 1;
    }
    proof {
        lemma_zero_parent_sha_prefix(nodes.deep_view(), nodes.deep_view().len() as int);
    }
    None
}

/// State of the paged search for the repository's first commit: the
/// cursor to resume from, absent on the first page.
#[derive(Debug)]
pub struct FirstCommitSearch {
    pub cursor: Option<String>,
}

/// Outcome of absorbing one page of the first-commit search.
#[derive(Debug)]
pub enum FirstCommitStep {
    /// The zero-parent commit was found.
    Found(String),
    /// The history ended (or was missing) without a zero-parent commit.
    NotFound,
    /// More pages remain; query again from the state's cursor.
    Continue(FirstCommitSearch),
}

/// What absorbing one page of the first-commit search does: the found
/// sha, or the cursor to continue from, or neither when the search is
/// over without an answer.
pub open spec fn first_commit_step_spec(page: Option<FirstCommitPageView>) -> (
    Option<Seq<char>>,
    Option<Option<Seq<char>>>,
) {
    match page {
        None => (None, None),
        Some(p) => match zero_parent_sha(p.nodes) {
            Some(sha) => (Some(sha), None),
            None => if !p.has_next_page {
                (None, None)
            } else {
                (None, Some(p.end_cursor))
            },
        },
    }
}

impl FirstCommitSearch {
    /// Begin the search at the head of the history.
    pub fn start() -> (r: Self)
        ensures
            opt_view(r.cursor) is None,
    {
        FirstCommitSearch { cursor: None }
    }

    /// Absorb one page (or a response with no history): the search ends
    /// with the zero-parent commit's sha, ends empty-handed when no
    /// pages remain, or continues from the page's cursor.
    pub fn absorb_page(self, page: Option<&FirstCommitPage>) -> (r: FirstCommitStep)
        ensures
            match r {
                FirstCommitStep::Found(sha) => first_commit_step_spec(
                    match page {
                        Some(p) => Some(p@),
                        None => None,
                    },
                ) == (Some(sha@), None::<Option<Seq<char>>>),
                FirstCommitStep::NotFound => first_commit_step_spec(
                    match page {
                        Some(p) => Some(p@),
                        None => None,
                    },
                ) == (None::<Seq<char>>, None::<Option<Seq<char>>>),
                FirstCommitStep::Continue(s) => first_commit_step_spec(
                    match page {
                        Some(p) => Some(p@),
                        None => None,
                    },
                ) == (None::<Seq<char>>, Some(opt_view(s.cursor))),
            },
    {
        let page = match page {
            None => {
                return FirstCommitStep::NotFound;
            },
            Some(p) => p,
        };
        match find_zero_parent(&page.nodes) {
            Some(sha) => FirstCommitStep::Found(sha),
            None => {
                if !page.has_next_page {
                    FirstCommitStep::NotFound
                } else {
                    FirstCommitStep::Continue(
                        FirstCommitSearch { cursor: crate::models::clone_opt(&page.end_cursor) },
                    )
                }
            },
        }
    }
}

/// The first position of `c` in `s`, or -1 when `c` does not occur.
pub open spec fn first_index_of(s: Seq<char>, c: char) -> int
    decreases s.len(),
{
    if s.len() == 0 {
        -1
    } else if s[0] == c {
        0
    } else {
        let r = first_index_of(s.drop_first(), c);
        if r == -1 {
            -1
        } else {
            r + 1
        }
    }
}

proof fn lemma_first_index_of(s: Seq<char>, c: char, i: int)
    requires
        0 <= i <= s.len(),
        forall|k: int| 0 <= k < i ==> s[k] != c,
        i == s.len() || s[i] == c,
    ensures
        first_index_of(s, c) == if i == s.len() {
            -1
        } else {
            i
        },
    decreases i,
{
    if i == 0 {
        if s.len() > 0 && s[0] != c {
            let t = s.drop_first();
            assert(t =~= s.subrange(1, s.len() as int));
        }
    } else {
        let t = s.drop_first();
        assert(t =~= s.subrange(1, s.len() as int));
        lemma_first_index_of(t, c, i - 1);
    }
}

/// Find the first position of `c` in `s`.
fn find_char(s: &str, c: char) -> (r: Option<usize>)
    ensures
        match r {
            Some(i) => i < s@.len() && first_index_of(s@, c) == i as int,
            None => first_index_of(s@, c) == -1,
        },
{
    let len: usize = s.unicode_len();
    let mut i: usize = 0;
    while i < len && s.get_char(i) != c
        invariant
            len == s@.len(),
            0 <= i <= len,
            forall|k: int| 0 <= k < i ==> s@[k] != c,
        decreases len - i,
    {
        i = i + 1;
    }
    proof {
        lemma_first_index_of(s@, c, i as int);
    }
    if i < len {
        Some(i)
    } else {
        None
    }
}

/// The login encoded in a provider noreply address: for
/// `id+login@users.noreply.host` or `login@users.noreply.host` the
/// login part, and nothing for any other address.
pub open spec fn noreply_login(email: Seq<char>) -> Option<Seq<char>> {
    let at = first_index_of(email, '@');
    if at <= 0 {
        None
    } else {
        let local = email.subrange(0, at);
        let domain = email.subrange(at + 1, email.len() as int);
        if starts_with_seq(domain, "users.noreply."@) {
            let plus = first_index_of(local, '+');
            if plus == -1 {
                Some(local)
            } else if plus + 1 < local.len() {
                Some(local.subrange(plus + 1, local.len() as int))
            } else {
                None
            }
        } else {
            None
        }
    }
}

/// Resolve a platform login from a bare commit email: only the
/// provider's noreply pattern is trusted; any other address yields
/// nothing.
pub fn login_from_noreply_email(email: &str) -> (r: Option<String>)
    ensures
        opt_view(r) == noreply_login(email@),
{
    let len: usize = email.unicode_len();
    let at = match find_char(email, '@') {
        None => {
            return None;
        },
        Some(i) => i,
    };
    if at == 0 {
        return None;
    }
    let local = email.substring_char(0, at);
    let domain = email.substring_char(at + 1, len);
    if !starts_with(domain, "users.noreply.") {
        return None;
    }
    let local_len: usize = local.unicode_len();
    match find_char(local, '+') {
        None => Some(local.to_owned()),
        Some(plus) => {
            if plus + 1 < local_len {
                Some(local.substring_char(plus + 1, local_len).to_owned())
            } else {
                None
            }
        },
    }
}

} // verus!
