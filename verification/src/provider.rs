//! The source-provider data model and the pure computations around it:
//! decoding fetched file content, the pagination stop rule, and the
//! conversions from raw provider records to the library's own records.
//!
//! The HTTP calls themselves are not made here; callers hand the raw
//! records in and take plain values back.

use vstd::prelude::*;
use crate::errors::FetchError;
use crate::stats::{GitHubProfile, RepositoryInfo};
use crate::text::{to_chars, chars_to_string, chars_starts_with_str, spec_starts_with, spec_trim};
use crate::extract::{spec_first_idx, first_idx};

verus! {

/// Repositories fetched per page when listing a user's repositories fully.
pub const REPOS_PER_PAGE: usize = 100;

/// Most pages fetched when listing a user's repositories fully.
pub const MAX_REPO_PAGES: u32 = 10;

/// A repository as the short listing returns it.
pub struct GitHubRepo {
    pub name: String,
    pub owner: RepoOwner,
    pub fork: bool,
}

/// The owner of a repository.
pub struct RepoOwner {
    pub login: String,
}

/// One commit of a listing.
pub struct GitHubCommit {
    pub sha: String,
    pub commit: CommitInfo,
}

/// The metadata of one commit.
pub struct CommitInfo {
    pub message: String,
}

/// One commit with its changed files.
pub struct CommitDetail {
    pub files: Option<Vec<CommitFile>>,
}

/// One changed file of a commit.
pub struct CommitFile {
    pub filename: String,
    pub patch: Option<String>,
    pub additions: i32,
    pub deletions: i32,
}

/// Raw file content as the provider returns it: base64 text, usually with
/// embedded newlines.
pub struct FileContent {
    pub content: Option<String>,
    pub encoding: Option<String>,
}

/// A repository with the full metadata used for analysis.
pub struct GitHubRepoFull {
    pub name: String,
    pub owner: RepoOwner,
    pub fork: bool,
    pub description: Option<String>,
    pub stargazers_count: u32,
    pub forks_count: u32,
    pub watchers_count: u32,
    pub language: Option<String>,
    pub size: u32,
    pub created_at: String,
    pub updated_at: String,
}

/// A user profile as the provider returns it.
pub struct GitHubUser {
    pub login: String,
    pub name: Option<String>,
    pub bio: Option<String>,
    pub avatar_url: String,
    pub public_repos: u32,
    pub followers: u32,
    pub following: u32,
    pub created_at: String,
}

// ---------------------------------------------------------------------------
// File-content decoding
// ---------------------------------------------------------------------------

/// The bytes that the standard base64 alphabet decodes `s` to, when `s` is
/// valid base64.
pub uninterp spec fn spec_base64_bytes(s: Seq<char>) -> Seq<u8>;

/// Whether `s` is valid base64 for the standard padded alphabet: exactly
/// the inputs the decoder accepts.
pub uninterp spec fn spec_base64_valid(s: Seq<char>) -> bool;

/// The characters that a best-effort UTF-8 decode of `b` yields, with
/// invalid sequences replaced.
pub uninterp spec fn spec_utf8_lossy(b: Seq<u8>) -> Seq<char>;

/// Relies on base64's `Engine::decode` with the `STANDARD` engine: whether
/// the call succeeds, and what bytes it yields, are functions of the input
/// characters alone, and an empty input decodes to no bytes.
#[verifier::external_body]
fn base64_decode(s: &str) -> (r: Option<Vec<u8>>)
    ensures
        match r {
            Some(b) => spec_base64_valid(s@) && b@ == spec_base64_bytes(s@) && (s@.len() == 0
                ==> b@.len() == 0),
            None => !spec_base64_valid(s@) && s@.len() > 0,
        },
{
    base64::engine::Engine::decode(&base64::engine::general_purpose::STANDARD, s).ok()
}

/// Relies on std's `String::from_utf8_lossy`: the decoded characters are a
/// function of the bytes alone, empty input stays empty, and bytes that are
/// all ASCII decode to exactly their characters.
#[verifier::external_body]
fn utf8_lossy(b: &Vec<u8>) -> (r: String)
    ensures
        r@ == spec_utf8_lossy(b@),
        r@.len() == 0 || b@.len() > 0,
        r@ == b@.map_values(|x: u8| (x as char)) || exists|i: int|
            0 <= i < b@.len() && b@[i] >= 128,
{
    String::from_utf8_lossy(b).into_owned()
}

/// `s` with every newline removed (the provider wraps base64 with them).
pub open spec fn spec_remove_nl(s: Seq<char>) -> Seq<char>
    decreases s.len(),
{
    if s.len() == 0 {
        Seq::empty()
    } else {
        spec_remove_nl(s.drop_last()) + (if s.last() == '\n' {
            Seq::<char>::empty()
        } else {
            seq![s.last()]
        })
    }
}

fn remove_nl(v: &Vec<char>) -> (r: Vec<char>)
    ensures
        r@ == spec_remove_nl(v@),
{
    let mut r: Vec<char> = Vec::new();
    let mut i: usize = 0;
    proof {
        assert(v@.subrange(0, 0) =~= Seq::<char>::empty());
    }
    while i < v.len()
        invariant
            i <= v@.len(),
            r@ == spec_remove_nl(v@.subrange(0, i as int)),
        decreases v.len() - i,
    {
        let c = v[i];
        proof {
            let pre = v@.subrange(0, i + 1);
            assert(pre.drop_last() =~= v@.subrange(0, i as int));
            assert(pre.last() == v@[i as int]);
        }
        if c != '\n' {
            r.push(c);
        }
        proof {
            if v@[i as int] == '\n' {
                assert(r@ =~= spec_remove_nl(v@.subrange(0, i as int)) + Seq::<char>::empty());
            } else {
                assert(r@ =~= spec_remove_nl(v@.subrange(0, i as int)) + seq![v@[i as int]]);
            }
        }
        i = i + 1;
    }
    proof {
        assert(v@.subrange(0, v@.len() as int) =~= v@);
    }
    r
}

/// Decode the provider's base64 file payload to text, best effort: absent
/// content stands for an empty file, embedded newlines are stripped before
/// decoding, exactly the undecodable payloads are a malformed response, and
/// whatever bytes come out are decoded to text with invalid sequences
/// replaced, never a crash.
pub fn decode_file_text(content: &FileContent) -> (r: Result<String, FetchError>)
    ensures
        content.content is None ==> (r matches Ok(s) && s@.len() == 0),
        content.content matches Some(enc) ==> {
            let cleaned = spec_remove_nl(enc@);
            &&& (r is Ok <==> spec_base64_valid(cleaned))
            &&& (r matches Ok(s) ==> s@ == spec_utf8_lossy(spec_base64_bytes(cleaned)))
            &&& (r matches Err(e) ==> e == FetchError::MalformedResponse)
        },
{
    match &content.content {
        None => Ok(String::new()),
        Some(enc) => {
            let ev = to_chars(enc.as_str());
            let cleaned = remove_nl(&ev);
            let cleaned_str = chars_to_string(&cleaned);
            match base64_decode(cleaned_str.as_str()) {
                Some(bytes) => Ok(utf8_lossy(&bytes)),
                None => Err(FetchError::MalformedResponse),
            }
        },
    }
}

// ---------------------------------------------------------------------------
// Pagination
// ---------------------------------------------------------------------------

/// Whether a full repository listing should fetch one more page: it stops
/// at the first empty page or once the page cap is reached, whichever comes
/// first.
pub fn should_fetch_next_page(next_page: u32, last_page_count: usize) -> (r: bool)
    ensures
        r == (last_page_count > 0 && next_page <= MAX_REPO_PAGES),
{
    last_page_count > 0 && next_page <= MAX_REPO_PAGES
}

// ---------------------------------------------------------------------------
// Conversions into the library's records
// ---------------------------------------------------------------------------

/// The repository metadata kept for analysis, taken from a raw listing
/// entry.
pub fn to_repository_info(r: &GitHubRepoFull) -> (info: RepositoryInfo)
    ensures
        info.name@ == r.name@,
        match r.description {
            Some(d) => info.description matches Some(x) && x@ == d@,
            None => info.description is None,
        },
        match r.language {
            Some(l) => info.language matches Some(x) && x@ == l@,
            None => info.language is None,
        },
        info.is_fork == r.fork,
        info.size == r.size,
        info.created_at@ == r.created_at@,
        info.updated_at@ == r.updated_at@,
{
    RepositoryInfo {
        name: r.name.clone(),
        description: match &r.description {
            Some(d) => Some(d.clone()),
            None => None,
        },
        language: match &r.language {
            Some(l) => Some(l.clone()),
            None => None,
        },
        is_fork: r.fork,
        size: r.size,
        created_at: r.created_at.clone(),
        updated_at: r.updated_at.clone(),
    }
}

/// The profile snapshot kept for analysis, taken from a raw user record.
pub fn to_profile(u: &GitHubUser) -> (p: GitHubProfile)
    ensures
        match u.name {
            Some(n) => p.name matches Some(x) && x@ == n@,
            None => p.name is None,
        },
        match u.bio {
            Some(b) => p.bio matches Some(x) && x@ == b@,
            None => p.bio is None,
        },
        p.avatar_url@ == u.avatar_url@,
        p.public_repos == u.public_repos,
        p.followers == u.followers,
        p.following == u.following,
        p.created_at@ == u.created_at@,
{
    GitHubProfile {
        name: match &u.name {
            Some(n) => Some(n.clone()),
            None => None,
        },
        bio: match &u.bio {
            Some(b) => Some(b.clone()),
            None => None,
        },
        avatar_url: u.avatar_url.clone(),
        public_repos: u.public_repos,
        followers: u.followers,
        following: u.following,
        created_at: u.created_at.clone(),
    }
}

// ---------------------------------------------------------------------------
// Profile-link parsing
// ---------------------------------------------------------------------------

/// `s` with trailing `/` characters removed.
pub open spec fn spec_strip_trailing_slashes(s: Seq<char>) -> Seq<char>
    decreases s.len(),
{
    if s.len() > 0 && s.last() == '/' {
        spec_strip_trailing_slashes(s.drop_last())
    } else {
        s
    }
}

/// The account name a profile link points at: the first path segment after
/// a recognised host prefix, with surrounding whitespace and trailing
/// slashes ignored; links of any other shape name nobody.
pub open spec fn spec_github_username(url: Seq<char>) -> Option<Seq<char>> {
    let cleaned = spec_strip_trailing_slashes(spec_trim(url));
    if spec_starts_with(cleaned, "https://github.com/"@) {
        Some(spec_first_segment(cleaned.skip(19)))
    } else if spec_starts_with(cleaned, "http://github.com/"@) {
        Some(spec_first_segment(cleaned.skip(18)))
    } else if spec_starts_with(cleaned, "github.com/"@) {
        Some(spec_first_segment(cleaned.skip(11)))
    } else {
        None
    }
}

/// The part of `s` before its first `/` (all of `s` when it has none).
pub open spec fn spec_first_segment(s: Seq<char>) -> Seq<char> {
    if spec_first_idx(s, '/') >= 0 {
        s.subrange(0, spec_first_idx(s, '/'))
    } else {
        s
    }
}

/// Pull the account name out of a profile link, accepting the common
/// spellings of the code-hosting site's URL.
pub fn extract_github_username(url: &str) -> (r: Option<String>)
    ensures
        match spec_github_username(url@) {
            Some(n) => r matches Some(x) && x@ == n,
            None => r is None,
        },
{
    let uv = to_chars(url);
    let trimmed = crate::text::chars_trim(&uv);
    let mut cleaned = trimmed;
    proof {
        assert(spec_strip_trailing_slashes(spec_trim(url@)) == spec_strip_trailing_slashes(
            cleaned@,
        ));
    }
    while cleaned.len() > 0 && cleaned[cleaned.len() - 1] == '/'
        invariant
            spec_strip_trailing_slashes(spec_trim(url@)) == spec_strip_trailing_slashes(cleaned@),
        decreases cleaned.len(),
    {
        let ghost before = cleaned@;
        cleaned.pop();
        proof {
            assert(cleaned@ =~= before.drop_last());
        }
    }
    proof {
        assert(spec_strip_trailing_slashes(cleaned@) == cleaned@);
    }
    let n: usize = if chars_starts_with_str(&cleaned, "https://github.com/") {
        proof {
            reveal_strlit("https://github.com/");
        }
        19
    } else if chars_starts_with_str(&cleaned, "http://github.com/") {
        proof {
            reveal_strlit("http://github.com/");
        }
        18
    } else if chars_starts_with_str(&cleaned, "github.com/") {
        proof {
            reveal_strlit("github.com/");
        }
        11
    } else {
        return None;
    };
    proof {
        assert(n <= cleaned@.len());
        assert(Seq::<char>::empty() =~= cleaned@.subrange(n as int, n as int));
    }
    let mut rest: Vec<char> = Vec::new();
    let mut i: usize = n;
    while i < cleaned.len()
        invariant
            n <= i <= cleaned@.len(),
            rest@ == cleaned@.subrange(n as int, i as int),
        decreases cleaned.len() - i,
    {
        rest.push(cleaned[i]);
        proof {
            assert(cleaned@.subrange(n as int, i + 1) =~= cleaned@.subrange(n as int, i as int).push(
                cleaned@[i as int],
            ));
        }
        i = i + 1;
    }
    proof {
        assert(rest@ =~= cleaned@.skip(n as int));
    }
    let seg = match first_idx(&rest, '/') {
        Some(k) => {
            let mut out: Vec<char> = Vec::new();
            let mut t: usize = 0;
            while t < k
                invariant
                    t <= k,
                    k < rest@.len(),
                    out@ == rest@.subrange(0, t as int),
                decreases k - t,
            {
                out.push(rest[t]);
                proof {
                    assert(rest@.subrange(0, t + 1) =~= rest@.subrange(0, t as int).push(
                        rest@[t as int],
                    ));
                }
                t = t + 1;
            }
            out
        },
        None => rest,
    };
    Some(chars_to_string(&seg))
}

} // verus!
