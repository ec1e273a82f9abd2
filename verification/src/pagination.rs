//! Cursor pagination: the page-size constants, the fan-out cursor plan
//! for concurrently fetched pages, page ingestion from plain values,
//! and the sequential cursor state for the repository listing.

use vstd::prelude::*;
use vstd::string::StringExecFns;

use crate::errors::StatsError;
use crate::outside::{b64_encode_str, b64_of, rfc3339_parse};
use crate::text::{dec_str, u32_to_dec};
use crate::types::{PullRequest, Repository};

verus! {

/// Records per page, the remote API's maximum.
pub const PER_PAGE: u32 = 100;

/// The most results a single search query will ever return, however
/// many truly match.
pub const MAX_RESULTS: u32 = 1000;

/// The plain text a continuation cursor encodes: `cursor:` followed by
/// the decimal offset.
pub open spec fn cursor_payload(n: int) -> Seq<char> {
    "cursor:"@ + dec_str(n)
}

fn encode_cursor(offset: u32) -> (r: String)
    ensures
        r@ == b64_of(cursor_payload(offset as int)),
{
    let mut p = "cursor:".to_owned();
    let digits = u32_to_dec(offset);
    p.append(digits.as_str());
    b64_encode_str(p.as_str())
}

/// How many pages of size 100 cover the offsets `beginning..total`.
pub open spec fn page_count(beginning: int, total: int) -> int
    decreases total - beginning,
{
    if total <= beginning {
        0
    } else if total <= beginning + 100 {
        1
    } else {
        1 + page_count(beginning + 100, total)
    }
}

/// The encoded continuation cursors for fetching the result offsets
/// `beginning..total` concurrently, one cursor per page of 100.
pub fn plan_page_cursors(beginning: u32, total: u32) -> (r: Vec<String>)
    ensures
        r@.len() == page_count(beginning as int, total as int),
        forall|i: int|
            0 <= i < r@.len() ==> (#[trigger] r@[i])@ == b64_of(
                cursor_payload(beginning as int + 100 * i),
            ),
{
    let mut out: Vec<String> = Vec::new();
    let mut c: u64 = beginning as u64;
    while c < total as u64
        invariant
            beginning as int <= c as int,
            c as int == beginning as int + 100 * out@.len(),
            c as int <= beginning as int + 100 * 0xffff_ffffu64,
            page_count(beginning as int, total as int) == out@.len() + page_count(
                c as int,
                total as int,
            ),
            forall|i: int|
                0 <= i < out@.len() ==> (#[trigger] out@[i])@ == b64_of(
                    cursor_payload(beginning as int + 100 * i),
                ),
        decreases total as int + 100 - c as int,
    {
        let cur = encode_cursor(c as u32);
        out.push(cur);
        c = c + 100;
    }
    out
}

/// One raw pull-request record as the transport adapter hands it over:
/// plain text straight from the response body.
pub struct RawPullRequest {
    /// The canonical URL.
    pub url: String,
    /// The creation time as RFC 3339 text.
    pub created_at: String,
}

/// Turns one page of raw pull-request records into typed records,
/// parsing each creation timestamp.  Returns `StatsError::Decode`
/// exactly when some timestamp is not valid RFC 3339 text.
pub fn ingest_pr_page(raw: &Vec<RawPullRequest>) -> (r: Result<Vec<PullRequest>, StatsError>)
    ensures
        match r {
            Ok(v) => v@.len() == raw@.len() && forall|i: int|
                0 <= i < v@.len() ==> (#[trigger] v@[i]).url@ == raw@[i].url@ && Some(
                    v@[i].created_at,
                ) == rfc3339_parse(raw@[i].created_at@),
            Err(e) => e == StatsError::Decode && exists|i: int|
                0 <= i < raw@.len() && rfc3339_parse((#[trigger] raw@[i]).created_at@) is None,
        },
{
    let mut out: Vec<PullRequest> = Vec::new();
    let mut i: usize = 0;
    while i < raw.len()
        invariant
            i <= raw@.len(),
            out@.len() == i,
            forall|k: int|
                0 <= k < i ==> (#[trigger] out@[k]).url@ == raw@[k].url@ && Some(
                    out@[k].created_at,
                ) == rfc3339_parse(raw@[k].created_at@),
        decreases raw@.len() - i,
    {
        let rec = &raw[i];
        match crate::outside::parse_rfc3339_millis(rec.created_at.as_str()) {
            Some(t) => {
                out.push(PullRequest { url: rec.url.clone(), created_at: t });
            },
            None => {
                return Err(StatsError::Decode);
            },
        }
        i = i + 1;
    }
    Ok(out)
}

/// One raw repository record as the transport adapter hands it over.
pub struct RawRepository {
    /// The combined `owner/name` identity string.
    pub name_with_owner: String,
    /// The star count.
    pub stargazer_count: u32,
    /// The fork count.
    pub fork_count: u32,
    /// The primary language, if the remote reports one.
    pub primary_language: Option<String>,
    /// Whether the repository is archived.
    pub is_archived: bool,
    /// The creation time as RFC 3339 text.
    pub created_at: String,
    /// The last-pushed time as RFC 3339 text, if any.
    pub pushed_at: Option<String>,
}

/// Whether a raw repository record's timestamps all parse.
pub open spec fn raw_repo_ok(rr: RawRepository) -> bool {
    &&& rfc3339_parse(rr.created_at@) is Some
    &&& match rr.pushed_at {
        Some(p) => rfc3339_parse(p@) is Some,
        None => true,
    }
}

/// Whether a typed repository record faithfully carries a raw one.
pub open spec fn repo_carries(v: Repository, rr: RawRepository) -> bool {
    &&& v.name_with_owner@ == rr.name_with_owner@
    &&& v.stargazer_count == rr.stargazer_count
    &&& v.fork_count == rr.fork_count
    &&& match rr.primary_language {
        Some(l) => v.primary_language matches Some(vl) && vl@ == l@,
        None => v.primary_language is None,
    }
    &&& v.is_archived == rr.is_archived
    &&& Some(v.created_at) == rfc3339_parse(rr.created_at@)
    &&& match rr.pushed_at {
        Some(p) => v.pushed_at matches Some(t) && Some(t) == rfc3339_parse(p@),
        None => v.pushed_at is None,
    }
}

/// Turns one page of raw repository records into typed records, parsing
/// each timestamp.  Returns `StatsError::Decode` exactly when some
/// timestamp is not valid RFC 3339 text.
pub fn ingest_repo_page(raw: &Vec<RawRepository>) -> (r: Result<Vec<Repository>, StatsError>)
    ensures
        match r {
            Ok(v) => v@.len() == raw@.len() && forall|i: int|
                0 <= i < v@.len() ==> repo_carries(#[trigger] v@[i], raw@[i]),
            Err(e) => e == StatsError::Decode && exists|i: int|
                0 <= i < raw@.len() && !raw_repo_ok(#[trigger] raw@[i]),
        },
{
    let mut out: Vec<Repository> = Vec::new();
    let mut i: usize = 0;
    while i < raw.len()
        invariant
            i <= raw@.len(),
            out@.len() == i,
            forall|k: int| 0 <= k < i ==> repo_carries(#[trigger] out@[k], raw@[k]),
        decreases raw@.len() - i,
    {
        let rec = &raw[i];
        let created = match crate::outside::parse_rfc3339_millis(rec.created_at.as_str()) {
            Some(t) => t,
            None => {
                return Err(StatsError::Decode);
            },
        };
        let pushed = match &rec.pushed_at {
            Some(p) => match crate::outside::parse_rfc3339_millis(p.as_str()) {
                Some(t) => Some(t),
                None => {
                    return Err(StatsError::Decode);
                },
            },
            None => None,
        };
        let language = match &rec.primary_language {
            Some(l) => Some(l.clone()),
            None => None,
        };
        out.push(
            Repository {
                name_with_owner: rec.name_with_owner.clone(),
                stargazer_count: rec.stargazer_count,
                fork_count: rec.fork_count,
                primary_language: language,
                is_archived: rec.is_archived,
                created_at: created,
                pushed_at: pushed,
            },
        );
        i = i + 1;
    }
    Ok(out)
}

/// The sequential cursor state for the repository listing: each page's
/// records are appended and the returned cursor is threaded into the
/// next request.
pub struct CreatedPager {
    /// All records accumulated so far.
    pub repos: Vec<Repository>,
    /// The continuation cursor for the next request, absent on the
    /// first request.
    pub cursor: Option<String>,
    /// Whether another page remains to be fetched.
    pub has_next: bool,
}

impl CreatedPager {
    /// A fresh pager: nothing fetched, first request pending.
    pub fn new() -> (s: Self)
        ensures
            s.repos@.len() == 0,
            s.cursor is None,
            s.has_next,
    {
        CreatedPager { repos: Vec::new(), cursor: None, has_next: true }
    }

    /// Absorbs one fetched page: appends its records and takes over its
    /// continuation state.
    pub fn absorb_page(
        &mut self,
        page: Vec<Repository>,
        has_next_page: bool,
        end_cursor: Option<String>,
    )
        ensures
            final(self).repos@ == old(self).repos@ + page@,
            final(self).has_next == has_next_page,
            final(self).cursor == end_cursor,
    {
        let mut page = page;
        self.repos.append(&mut page);
        self.has_next = has_next_page;
        self.cursor = end_cursor;
    }
}

} // verus!
