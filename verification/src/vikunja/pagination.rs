//! Pagination of Vikunja list endpoints: `page` / `per_page` query
//! parameters, the `x-pagination-total-pages` and
//! `x-pagination-result-count` response headers, and bounded walks over
//! several pages.

use vstd::prelude::*;

use crate::text::{chars_of, decimal, parse_u32, parse_u32_spec, trim, trim_chars, u64_to_string};

verus! {

pub const TOTAL_PAGES_HEADER: &'static str = "x-pagination-total-pages";

pub const RESULT_COUNT_HEADER: &'static str = "x-pagination-result-count";

/// Requested page of a list endpoint.
#[derive(Debug, Clone, Copy, Default, PartialEq, Eq)]
pub struct PageParams {
    /// 1-based page number; the server defaults to 1.
    pub page: Option<u32>,
    /// Items per page; Vikunja caps this server-side.
    pub per_page: Option<u32>,
}

/// The query pairs of a page request: `page` then `per_page`, each only
/// when set.
pub open spec fn page_query(page: Option<u32>, per_page: Option<u32>) -> Seq<(Seq<char>, Seq<char>)> {
    (match page {
        Some(p) => seq![("page"@, decimal(p as nat))],
        None => seq![],
    }) + (match per_page {
        Some(n) => seq![("per_page"@, decimal(n as nat))],
        None => seq![],
    })
}

pub open spec fn query_view(q: Seq<(&'static str, String)>) -> Seq<(Seq<char>, Seq<char>)> {
    q.map_values(|p: (&'static str, String)| (p.0@, p.1@))
}

impl PageParams {
    pub fn new(page: Option<u32>, per_page: Option<u32>) -> (p: Self)
        ensures
            p.page == page,
            p.per_page == per_page,
    {
        PageParams { page, per_page }
    }

    /// Query-string pairs for this page request.
    pub fn to_query(self) -> (q: Vec<(&'static str, String)>)
        ensures
            query_view(q@) == page_query(self.page, self.per_page),
    {
        let mut query: Vec<(&'static str, String)> = Vec::new();
        if let Some(page) = self.page {
            query.push(("page", u64_to_string(page as u64)));
        }
        let ghost mid = query@;
        if let Some(per_page) = self.per_page {
            query.push(("per_page", u64_to_string(per_page as u64)));
        }
        assert(query_view(query@) =~= page_query(self.page, self.per_page));
        query
    }
}

/// Pagination metadata returned alongside a page of results.
#[derive(Debug, Clone, PartialEq, Eq)]
pub struct PageInfo {
    /// The 1-based page number that was fetched.
    pub page: u32,
    /// The page size that was requested, if any.
    pub per_page: Option<u32>,
    /// Total number of pages, from `x-pagination-total-pages`.
    pub total_pages: Option<u32>,
    /// Number of items in this page, from `x-pagination-result-count`.
    pub result_count: Option<u32>,
    /// True when more pages are available after this one.
    pub has_more: Option<bool>,
}

/// A header value as a count: the trimmed text parsed as a `u32`;
/// missing or malformed values are unknown.
pub open spec fn header_count(value: Option<Seq<char>>) -> Option<u32> {
    match value {
        Some(v) => parse_u32_spec(trim(v)),
        None => None,
    }
}

/// Reads a pagination header value (already decoded to text).
pub fn parse_header_value(value: Option<&str>) -> (r: Option<u32>)
    ensures
        r == header_count(
            match value {
                Some(v) => Some(v@),
                None => None,
            },
        ),
{
    match value {
        Some(v) => {
            let t = trim_chars(&chars_of(v));
            parse_u32(&t)
        },
        None => None,
    }
}

impl PageInfo {
    /// Builds the metadata of a fetched page from the requested params and
    /// the text of the two pagination headers (`None` when absent or not
    /// valid text).
    pub fn from_header_values(
        params: PageParams,
        total_pages: Option<&str>,
        result_count: Option<&str>,
    ) -> (info: Self)
        ensures
            info.page == match params.page {
                Some(p) => p,
                None => 1u32,
            },
            info.per_page == params.per_page,
            info.total_pages == header_count(
                match total_pages {
                    Some(v) => Some(v@),
                    None => None,
                },
            ),
            info.result_count == header_count(
                match result_count {
                    Some(v) => Some(v@),
                    None => None,
                },
            ),
            info.has_more == match info.total_pages {
                Some(total) => Some(info.page < total),
                None => None,
            },
    {
        let page = match params.page {
            Some(p) => p,
            None => 1,
        };
        let total = parse_header_value(total_pages);
        let count = parse_header_value(result_count);
        let has_more = match total {
            Some(t) => Some(page < t),
            None => None,
        };
        PageInfo {
            page,
            per_page: params.per_page,
            total_pages: total,
            result_count: count,
            has_more,
        }
    }
}

/// One page of items plus its pagination metadata.
#[derive(Debug, Clone)]
pub struct Page<T> {
    pub items: Vec<T>,
    pub info: PageInfo,
}

/// Result of a bounded multi-page walk.
#[derive(Debug, Clone)]
pub struct BoundedPage<T> {
    pub items: Vec<T>,
    /// Number of pages actually fetched (at least 1).
    pub pages_read: u32,
    /// The page cap the walk was bounded by.
    pub page_cap: u32,
    /// True when the cap was hit while the server still reported more
    /// pages.
    pub truncated: bool,
    /// Pagination metadata of the last fetched page.
    pub last_info: PageInfo,
}

/// Where a bounded page walk stands: the next page to fetch and the cap.
/// Walks start at page 1 and always fetch at least one page, even with a
/// cap of 0.
#[derive(Debug, Clone, Copy, PartialEq, Eq)]
pub struct PageWalk {
    pub page: u32,
    pub page_cap: u32,
}

/// What to do after a page was fetched.
#[derive(Debug, Clone, Copy, PartialEq, Eq)]
pub enum WalkStep {
    /// Fetch the next page.
    Fetch(PageWalk),
    /// Stop: `pages_read` pages were fetched; `truncated` when the server
    /// still reported more pages.
    Done { pages_read: u32, truncated: bool },
}

impl PageWalk {
    pub open spec fn valid(self) -> bool {
        1 <= self.page && (self.page <= self.page_cap || self.page == 1)
    }

    /// A walk bounded by `page_cap` pages.
    pub fn start(page_cap: u32) -> (w: Self)
        ensures
            w.page == 1,
            w.page_cap == page_cap,
            w.valid(),
    {
        PageWalk { page: 1, page_cap }
    }

    /// The decision after the current page was fetched: continue while the
    /// server reports more pages (`has_more == Some(true)`) and the cap is
    /// not reached.
    pub fn after_page(self, has_more: Option<bool>) -> (step: WalkStep)
        requires
            self.valid(),
        ensures
            ({
                let more = has_more == Some(true);
                if !more || self.page >= self.page_cap {
                    step == WalkStep::Done { pages_read: self.page, truncated: more }
                } else {
                    step == WalkStep::Fetch(PageWalk { page: (self.page + 1) as u32, page_cap: self.page_cap })
                }
            }),
            step matches WalkStep::Fetch(next) ==> next.valid(),
    {
        let more = match has_more {
            Some(b) => b,
            None => false,
        };
        if !more || self.page >= self.page_cap {
            WalkStep::Done { pages_read: self.page, truncated: more }
        } else {
            WalkStep::Fetch(PageWalk { page: self.page + 1, page_cap: self.page_cap })
        }
    }
}

/// A walk ends within its cap: every page it fetches is at most
/// `max(page_cap, 1)`, so `pages_read` never exceeds that bound, and it is
/// only truncated when the server reported more pages.
pub proof fn lemma_walk_bounded(w: PageWalk, has_more: Option<bool>)
    requires
        w.valid(),
    ensures
        w.page <= if w.page_cap == 0 { 1 } else { w.page_cap },
        ({
            let more = has_more == Some(true);
            let step = if !more || w.page >= w.page_cap {
                WalkStep::Done { pages_read: w.page, truncated: more }
            } else {
                WalkStep::Fetch(PageWalk { page: (w.page + 1) as u32, page_cap: w.page_cap })
            };
            &&& step matches WalkStep::Done { pages_read, truncated } ==> pages_read >= 1
                && pages_read <= (if w.page_cap == 0 { 1 } else { w.page_cap }) && (truncated
                ==> more)
            &&& step matches WalkStep::Fetch(next) ==> next.page == w.page + 1 && next.page
                <= w.page_cap
        }),
{
}

} // verus!
