use vstd::prelude::*;
use crate::text::{law_trim_end_leaves_no_suffix, same_text, trim_end_all, trim_end_matches};

verus! {

/// What the logic reads of a parsed URL: its host and its path segments.
pub struct UrlParts {
    pub host: Option<String>,
    pub path_segments: Option<Vec<String>>,
}

pub open spec fn segments_view(segments: Seq<String>) -> Seq<Seq<char>> {
    segments.map_values(|s: String| s@)
}

impl View for UrlParts {
    type V = (Option<Seq<char>>, Option<Seq<Seq<char>>>);

    open spec fn view(&self) -> (Option<Seq<char>>, Option<Seq<Seq<char>>>) {
        (
            match self.host {
                Some(h) => Some(h@),
                None => None,
            },
            match self.path_segments {
                Some(s) => Some(segments_view(s@)),
                None => None,
            },
        )
    }
}

pub open spec fn url_parts_view(parts: Option<UrlParts>) -> Option<
    (Option<Seq<char>>, Option<Seq<Seq<char>>>),
> {
    match parts {
        Some(p) => Some(p@),
        None => None,
    }
}

/// What `url::Url::parse` makes of `input`: `None` when it is no absolute
/// URL, else the URL's host (`host_str`) and its path segments
/// (`path_segments`).
pub uninterp spec fn parsed_url(input: Seq<char>) -> Option<
    (Option<Seq<char>>, Option<Seq<Seq<char>>>),
>;

/// Parses `input` with `url::Url::parse` and reads `host_str` and
/// `path_segments` of the result. Trusted: the result is `parsed_url(input)`,
/// and, as the crate documents for `path_segments`, a present list of path
/// segments is never empty. What the parse yields for a given input is not
/// stated.
#[verifier::external_body]
fn parse_url(input: &str) -> (parts: Option<UrlParts>)
    ensures
        url_parts_view(parts) == parsed_url(input@),
        parts matches Some(p) && p.path_segments matches Some(segs) ==> segs@.len() >= 1,
        parts matches Some(p) && p.path_segments matches Some(segs) ==> forall|i: int|
            0 <= i < segs@.len() ==> !(#[trigger] segs@[i])@.contains('/'),
{
    match url::Url::parse(input) {
        Ok(u) => Some(UrlParts {
            host: u.host_str().map(|h| h.to_string()),
            path_segments: u.path_segments().map(|segs| segs.map(|seg| seg.to_string()).collect()),
        }),
        Err(_) => None,
    }
}

/// The owner and repository named by a parsed URL: only `github.com` URLs
/// with at least two path segments count, a trailing `.git` (repeated or
/// not) is dropped from the repository, and neither part may be empty.
pub open spec fn github_repo_of(parts: Option<(Option<Seq<char>>, Option<Seq<Seq<char>>>)>) -> Option<
    (Seq<char>, Seq<char>),
> {
    match parts {
        None => None,
        Some((host, segments)) => {
            if host != Some("github.com"@) {
                None
            } else {
                match segments {
                    None => None,
                    Some(segs) => {
                        if segs.len() < 2 {
                            None
                        } else {
                            let owner = segs[0];
                            let repo = trim_end_all(segs[1], ".git"@);
                            if owner.len() == 0 || repo.len() == 0 {
                                None
                            } else {
                                Some((owner, repo))
                            }
                        }
                    },
                }
            }
        },
    }
}

/// `base` followed by `k` copies of `.git`.
pub open spec fn with_git_suffixes(base: Seq<char>, k: nat) -> Seq<char>
    decreases k,
{
    if k == 0 {
        base
    } else {
        with_git_suffixes(base, (k - 1) as nat) + ".git"@
    }
}

proof fn lemma_trim_git_suffixes(base: Seq<char>, k: nat)
    requires
        !(".git"@.len() <= base.len() && base.subrange(
            base.len() - ".git"@.len(),
            base.len() as int,
        ) == ".git"@),
    ensures
        trim_end_all(with_git_suffixes(base, k), ".git"@) == base,
    decreases k,
{
    reveal_strlit(".git");
    if k > 0 {
        let prev = with_git_suffixes(base, (k - 1) as nat);
        let s = with_git_suffixes(base, k);
        lemma_trim_git_suffixes(base, (k - 1) as nat);
        assert(s.subrange(s.len() - 4, s.len() as int) =~= ".git"@);
        assert(s.subrange(0, s.len() - 4) =~= prev);
    }
}

/// A well-formed GitHub URL names its owner and repository: with host
/// `github.com` and path segments `owner`, `repo` followed by any number of
/// `.git` suffixes, and any further segments, the result is `(owner, repo)`,
/// provided both are non-empty and `repo` does not itself end with `.git`.
pub proof fn law_github_repo_of_well_formed(
    owner: Seq<char>,
    repo: Seq<char>,
    suffixes: nat,
    rest: Seq<Seq<char>>,
)
    requires
        owner.len() > 0,
        repo.len() > 0,
        !(".git"@.len() <= repo.len() && repo.subrange(
            repo.len() - ".git"@.len(),
            repo.len() as int,
        ) == ".git"@),
    ensures
        github_repo_of(
            Some((Some("github.com"@), Some(seq![owner, with_git_suffixes(repo, suffixes)] + rest))),
        ) == Some((owner, repo)),
{
    lemma_trim_git_suffixes(repo, suffixes);
    let segs = seq![owner, with_git_suffixes(repo, suffixes)] + rest;
    assert(segs[0] == owner);
    assert(segs[1] == with_git_suffixes(repo, suffixes));
}

proof fn lemma_trim_is_base_of_suffixes(s: Seq<char>)
    ensures
        exists|k: nat| with_git_suffixes(trim_end_all(s, ".git"@), k) == s,
    decreases s.len(),
{
    reveal_strlit(".git");
    if 4 <= s.len() && s.subrange(s.len() - 4, s.len() as int) == ".git"@ {
        let shorter = s.subrange(0, s.len() - 4);
        lemma_trim_is_base_of_suffixes(shorter);
        let k = choose|k: nat| with_git_suffixes(trim_end_all(shorter, ".git"@), k) == shorter;
        assert(with_git_suffixes(trim_end_all(s, ".git"@), k + 1) =~= s);
    } else {
        assert(with_git_suffixes(trim_end_all(s, ".git"@), 0) == s);
    }
}

/// Only a `github.com` URL with at least two path segments names a
/// repository, and then the owner is the first segment and the second
/// segment is the repository followed by some number of `.git` suffixes.
pub proof fn law_github_repo_comes_from_first_segments(
    parts: Option<(Option<Seq<char>>, Option<Seq<Seq<char>>>)>,
)
    ensures
        github_repo_of(parts) matches Some((owner, repo)) ==> {
            &&& parts is Some
            &&& parts.unwrap().0 == Some("github.com"@)
            &&& parts.unwrap().1 is Some
            &&& parts.unwrap().1.unwrap().len() >= 2
            &&& owner == parts.unwrap().1.unwrap()[0]
            &&& exists|k: nat| with_git_suffixes(repo, k) == parts.unwrap().1.unwrap()[1]
            &&& owner.len() > 0
            &&& repo.len() > 0
        },
{
    if let Some((_, Some(segs))) = parts {
        if segs.len() >= 2 {
            lemma_trim_is_base_of_suffixes(segs[1]);
        }
    }
}

pub open spec fn pair_view(pair: Option<(String, String)>) -> Option<(Seq<char>, Seq<char>)> {
    match pair {
        Some((a, b)) => Some((a@, b@)),
        None => None,
    }
}

/// The GitHub owner and repository that already parsed URL parts name.
pub fn github_repo_from_parts(parts: Option<UrlParts>) -> (repo: Option<(String, String)>)
    ensures
        pair_view(repo) == github_repo_of(url_parts_view(parts)),
{
    let parts = match parts {
        Some(p) => p,
        None => return None,
    };
    let is_github = match &parts.host {
        Some(h) => same_text(h.as_str(), "github.com"),
        None => false,
    };
    if !is_github {
        return None;
    }
    let segments = match &parts.path_segments {
        Some(s) => s,
        None => return None,
    };
    if segments.len() < 2 {
        return None;
    }
    let owner = segments[0].clone();
    let repo = trim_end_matches(segments[1].as_str(), ".git");
    assert(segments_view(segments@)[0] == segments@[0]@);
    assert(segments_view(segments@)[1] == segments@[1]@);
    if owner.as_str().unicode_len() == 0 || repo.as_str().unicode_len() == 0 {
        return None;
    }
    Some((owner, repo))
}

/// The GitHub owner and repository of a repository URL such as
/// `https://github.com/owner/repo(.git)`; `None` for anything else. The
/// owner and the repository are never empty, hold no `/`, and the repository
/// does not end with `.git`.
pub fn parse_github_url(url: &str) -> (repo: Option<(String, String)>)
    ensures
        pair_view(repo) == github_repo_of(parsed_url(url@)),
        repo matches Some((owner, name)) ==> {
            &&& owner@.len() > 0
            &&& name@.len() > 0
            &&& !owner@.contains('/')
            &&& !name@.contains('/')
            &&& !(".git"@.len() <= name@.len() && name@.subrange(
                name@.len() - ".git"@.len(),
                name@.len() as int,
            ) == ".git"@)
        },
{
    let parts = parse_url(url);
    let ghost pv = url_parts_view(parts);
    let repo = github_repo_from_parts(parts);
    proof {
        if let Some((owner, name)) = pair_view(repo) {
            reveal_strlit(".git");
            let segs = pv.unwrap().1.unwrap();
            let p = parts.unwrap();
            let raw = p.path_segments.unwrap();
            assert(segs == segments_view(raw@));
            assert(segs[0] == raw@[0]@);
            assert(segs[1] == raw@[1]@);
            assert(!raw@[0]@.contains('/'));
            assert(!raw@[1]@.contains('/'));
            law_trim_end_leaves_no_suffix(segs[1], ".git"@);
            let t = trim_end_all(segs[1], ".git"@);
            assert(t == name);
            if t.contains('/') {
                let k = choose|k: int| 0 <= k < t.len() && t[k] == '/';
                assert(segs[1][k] == '/');
            }
        }
    }
    repo
}

/// What the health check reads of a GitHub repository.
#[derive(Debug)]
pub struct GithubRepoStats {
    pub stars: u32,
    pub open_issues: u32,
    pub is_archived: bool,
}

impl GithubRepoStats {
    /// The statistics of a repository whose counters GitHub may leave out:
    /// a missing count is zero, a missing archive flag means not archived.
    pub fn from_counts(stars: Option<u32>, open_issues: Option<u32>, archived: Option<bool>) -> (stats:
        GithubRepoStats)
        ensures
            stats.stars == (match stars {
                Some(n) => n,
                None => 0,
            }),
            stats.open_issues == (match open_issues {
                Some(n) => n,
                None => 0,
            }),
            stats.is_archived == (archived == Some(true)),
    {
        GithubRepoStats {
            stars: match stars {
                Some(n) => n,
                None => 0,
            },
            open_issues: match open_issues {
                Some(n) => n,
                None => 0,
            },
            is_archived: match archived {
                Some(b) => b,
                None => false,
            },
        }
    }
}

} // verus!
