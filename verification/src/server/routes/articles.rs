//! Article routes: list, search, and fetch-by-id over the local article store.
use vstd::prelude::*;

use crate::agent::tools::{limit_spec, opt_view, ToolQuery};
use crate::server::error::{not_found, ApiError};
use crate::text::{decimal, decimal_i64};

verus! {

/// Default number of articles a list/search route returns when unspecified.
pub const DEFAULT_LIMIT: i64 = 20;

/// Hard cap so one request cannot ask for an unbounded result set.
pub const MAX_LIMIT: i64 = 50;

/// Clamp a caller-provided limit into `1..=MAX_LIMIT`, defaulting when absent.
pub fn resolve_limit(limit: Option<i64>) -> (r: i64)
    ensures
        r == limit_spec(limit, DEFAULT_LIMIT, MAX_LIMIT),
        1 <= r <= MAX_LIMIT,
{
    let l = match limit {
        Some(l) => l,
        None => DEFAULT_LIMIT,
    };
    if l < 1 {
        1
    } else if l > MAX_LIMIT {
        MAX_LIMIT
    } else {
        l
    }
}

/// Query of `GET /articles`.
pub struct ListQuery {
    /// Restrict to one category (e.g. `crypto`, `ai`, `security`, `market`, `defi`).
    pub category: Option<String>,
    /// Maximum number of articles to return. Clamped to `1..=50`; defaults to 20.
    pub limit: Option<i64>,
}

/// Query of `GET /articles/search`.
pub struct SearchQuery {
    /// Search query text.
    pub q: String,
    /// When true, run meaning-based vector search; otherwise exact keyword search.
    pub semantic: bool,
    /// Maximum number of results to return. Clamped to `1..=50`; defaults to 20.
    pub limit: Option<i64>,
}

impl ListQuery {
    /// The store query `GET /articles` runs: the newest articles, of the
    /// category when one is given.
    pub fn to_query(&self) -> (q: ToolQuery)
        ensures
            q matches ToolQuery::ListRecent { category, limit } && opt_view(category) == opt_view(self.category)
                && limit == limit_spec(self.limit, DEFAULT_LIMIT, MAX_LIMIT),
    {
        let category = match &self.category {
            Some(c) => Some(c.clone()),
            None => None,
        };
        ToolQuery::ListRecent { category, limit: resolve_limit(self.limit) }
    }
}

impl SearchQuery {
    /// The store query `GET /articles/search` runs: meaning-based search when
    /// `semantic` is set, else keyword search, for `q` as given.
    pub fn to_query(&self) -> (q: ToolQuery)
        ensures
            if self.semantic {
                q matches ToolQuery::SemanticSearch { query, limit } && query@ == self.q@ && limit == limit_spec(
                    self.limit,
                    DEFAULT_LIMIT,
                    MAX_LIMIT,
                )
            } else {
                q matches ToolQuery::KeywordSearch { query, limit } && query@ == self.q@ && limit == limit_spec(
                    self.limit,
                    DEFAULT_LIMIT,
                    MAX_LIMIT,
                )
            },
    {
        let limit = resolve_limit(self.limit);
        if self.semantic {
            ToolQuery::SemanticSearch { query: self.q.clone(), limit }
        } else {
            ToolQuery::KeywordSearch { query: self.q.clone(), limit }
        }
    }
}

/// The 404 for an article id with no article.
pub fn missing_article(id: i64) -> (e: ApiError)
    ensures
        e.status == 404,
        e.body.error@ == "no article with id "@ + decimal(id as int),
{
    not_found(String::from_str("no article with id ").concat(decimal_i64(id).as_str()))
}

} // verus!
