//! Read-only, fail-open lookup of publishers in `catalog-api`'s publisher search, backing the
//! publisher name picker on the add-new-system form. Every error path (no configured base URL,
//! a query too short to send, a transport failure, a non-2xx status, an unparseable body)
//! yields an empty result rather than a failure. The request itself is sent by the application
//! around this library; this module decides whether and where to send it and what the answer
//! yields.

use vstd::prelude::*;

use crate::game_systems_client::{is_success, is_success_status};
use crate::text::{strip_trailing_slashes, trailing_slashes_removed, trim, trim_str};

verus! {

/// Shortest query, in bytes after trimming, worth sending upstream.
pub const MIN_QUERY_LEN: usize = 2;

/// One publisher from `catalog-api`, trimmed to what the picker needs.
#[derive(Clone, Debug, PartialEq, Eq)]
pub struct Publisher {
    pub id: String,
    pub name: String,
}

/// One resource of the JSON:API search envelope, with an absent id or name read as empty.
#[derive(Clone, Debug, Default)]
pub struct PublisherResource {
    pub id: String,
    pub name: String,
}

/// How a publisher search request went.
#[derive(Debug)]
pub enum SearchResponse {
    /// The request could not be sent or timed out.
    Failed,
    /// A response came back with `status`; `body` holds the envelope's resources, or `None`
    /// when the body did not parse.
    Received { status: u16, body: Option<Vec<PublisherResource>> },
}

/// A publisher search to send: `GET url` with the query parameter `q`.
#[derive(Clone, Debug)]
pub struct SearchRequest {
    pub url: String,
    pub q: String,
}

/// The publishers a list of resources yields: those with a non-empty id and name, in order.
pub open spec fn publishers_of(rs: Seq<PublisherResource>) -> Seq<(Seq<char>, Seq<char>)>
    decreases rs.len(),
{
    if rs.len() == 0 {
        Seq::empty()
    } else {
        let rest = publishers_of(rs.drop_last());
        let r = rs.last();
        if r.id@.len() > 0 && r.name@.len() > 0 {
            rest.push((r.id@, r.name@))
        } else {
            rest
        }
    }
}

pub open spec fn publishers_view(ps: Seq<Publisher>) -> Seq<(Seq<char>, Seq<char>)> {
    ps.map_values(|p: Publisher| (p.id@, p.name@))
}

/// The publishers a search response yields: none unless it arrived with a success status and a
/// body that parsed.
pub open spec fn search_results_of(response: SearchResponse) -> Seq<(Seq<char>, Seq<char>)> {
    match response {
        SearchResponse::Received { status, body: Some(rs) } => if is_success_status(status) {
            publishers_of(rs@)
        } else {
            Seq::empty()
        },
        _ => Seq::empty(),
    }
}

/// Resources that all carry an id and a name are every one of them a publisher, in order.
pub proof fn law_complete_resources_are_all_kept(rs: Seq<PublisherResource>)
    requires
        forall|k: int| 0 <= k < rs.len() ==> (#[trigger] rs[k]).id@.len() > 0 && rs[k].name@.len() > 0,
    ensures
        publishers_of(rs) == rs.map_values(|r: PublisherResource| (r.id@, r.name@)),
    decreases rs.len(),
{
    if rs.len() > 0 {
        law_complete_resources_are_all_kept(rs.drop_last());
        assert(publishers_of(rs) =~= rs.map_values(|r: PublisherResource| (r.id@, r.name@)));
    } else {
        assert(publishers_of(rs) =~= rs.map_values(|r: PublisherResource| (r.id@, r.name@)));
    }
}

/// A resource without an id or without a name adds no publisher, wherever it stands in the list.
pub proof fn law_incomplete_resource_is_dropped(
    before: Seq<PublisherResource>,
    r: PublisherResource,
    after: Seq<PublisherResource>,
)
    requires
        r.id@.len() == 0 || r.name@.len() == 0,
    ensures
        publishers_of(before.push(r) + after) == publishers_of(before + after),
    decreases after.len(),
{
    if after.len() == 0 {
        assert(before.push(r) + after =~= before.push(r));
        assert(before + after =~= before);
        assert(before.push(r).drop_last() =~= before);
    } else {
        law_incomplete_resource_is_dropped(before, r, after.drop_last());
        assert((before.push(r) + after).drop_last() =~= before.push(r) + after.drop_last());
        assert((before + after).drop_last() =~= before + after.drop_last());
        assert((before.push(r) + after).last() == after.last());
        assert((before + after).last() == after.last());
    }
}

pub proof fn lemma_publishers_nonempty(rs: Seq<PublisherResource>)
    ensures
        forall|k: int|
            0 <= k < publishers_of(rs).len() ==> (#[trigger] publishers_of(rs)[k]).0.len() > 0
                && publishers_of(rs)[k].1.len() > 0,
    decreases rs.len(),
{
    if rs.len() > 0 {
        lemma_publishers_nonempty(rs.drop_last());
        let rest = publishers_of(rs.drop_last());
        assert forall|k: int| 0 <= k < publishers_of(rs).len() implies (#[trigger] publishers_of(
            rs,
        )[k]).0.len() > 0 && publishers_of(rs)[k].1.len() > 0 by {
            if k < rest.len() {
                assert(publishers_of(rs)[k] == rest[k]);
            }
        }
    }
}

/// The search fails open: a disabled client sends nothing, and a failed request, a non-2xx
/// status or a body that did not parse all yield no publishers.
pub proof fn law_search_fails_open(
    query: Seq<char>,
    status: u16,
    body: Option<Vec<PublisherResource>>,
)
    ensures
        !sends_search(None, query),
        search_results_of(SearchResponse::Failed).len() == 0,
        search_results_of((SearchResponse::Received { status, body: None })).len() == 0,
        !is_success_status(status) ==> search_results_of(
            (SearchResponse::Received { status, body }),
        ).len() == 0,
{
}

/// The publishers a search response yields.
pub fn search_results(response: SearchResponse) -> (r: Vec<Publisher>)
    ensures
        publishers_view(r@) == search_results_of(response),
        response matches SearchResponse::Received { status, body: Some(rs) } ==> (200 <= status
            <= 299 ==> publishers_view(r@) == publishers_of(rs@)),
        response matches SearchResponse::Received { status, .. } ==> (!(200 <= status <= 299)
            ==> r@.len() == 0),
        response matches SearchResponse::Received { body: None, .. } ==> r@.len() == 0,
        response is Failed ==> r@.len() == 0,
        forall|k: int| 0 <= k < r@.len() ==> (#[trigger] r@[k]).id@.len() > 0 && r@[k].name@.len() > 0,
{
    let mut out: Vec<Publisher> = Vec::new();
    match response {
        SearchResponse::Received { status, body: Some(rs) } => {
            if is_success(status) {
                let n = rs.len();
                let mut i: usize = 0;
                while i < n
                    invariant
                        n == rs@.len(),
                        i <= n,
                        publishers_view(out@) == publishers_of(rs@.take(i as int)),
                    decreases n - i,
                {
                    assert(rs@.take(i + 1).drop_last() =~= rs@.take(i as int));
                    let r = &rs[i];
                    if r.id.as_str().unicode_len() > 0 && r.name.as_str().unicode_len() > 0 {
                        out.push(Publisher { id: r.id.clone(), name: r.name.clone() });
                    }
                    assert(publishers_view(out@) =~= publishers_of(rs@.take(i + 1)));
                    i = i + 1;
                }
                assert(rs@.take(n as int) =~= rs@);
                proof {
                    lemma_publishers_nonempty(rs@);
                    assert forall|k: int| 0 <= k < out@.len() implies (#[trigger] out@[k]).id@.len()
                        > 0 && out@[k].name@.len() > 0 by {
                        assert(publishers_view(out@)[k] == publishers_of(rs@)[k]);
                    }
                }
            } else {
                assert(publishers_view(out@) =~= Seq::empty());
            }
        },
        _ => {
            assert(publishers_view(out@) =~= Seq::empty());
        },
    }
    out
}

/// The publisher search client. Without a base URL (`CATALOG_API_URL` unset) it never sends a
/// request and every search is empty.
#[derive(Clone, Debug)]
pub struct CatalogClient {
    base_url: Option<String>,
}

/// Whether a search for `query` is sent at all: only with a base URL and a trimmed query of at
/// least `MIN_QUERY_LEN` bytes (its byte length as `str::len` gives it).
pub open spec fn sends_search(base: Option<Seq<char>>, query: Seq<char>) -> bool {
    base is Some && vstd::utf8::encode_utf8(trim(query)).len() as usize >= MIN_QUERY_LEN
}

impl CatalogClient {
    /// The base URL, without trailing slashes, or `None` when the client is disabled.
    pub closed spec fn base(&self) -> Option<Seq<char>> {
        match self.base_url {
            Some(u) => Some(u@),
            None => None,
        }
    }

    pub fn new(base_url: Option<String>) -> (r: Self)
        ensures
            r.base() == match base_url {
                Some(u) => Some(trailing_slashes_removed(u@)),
                None => None,
            },
    {
        match base_url {
            Some(u) => CatalogClient { base_url: Some(strip_trailing_slashes(u.as_str())) },
            None => CatalogClient { base_url: None },
        }
    }

    /// Whether the client has a base URL to send searches to.
    pub fn is_enabled(&self) -> (r: bool)
        ensures
            r == self.base() is Some,
    {
        self.base_url.is_some()
    }

    /// The request to send for `query`, or `None` when the search is not sent: `GET
    /// {base}/publishers/search` with `q` set to the trimmed query.
    pub fn search_request(&self, query: &str) -> (r: Option<SearchRequest>)
        ensures
            r is Some <==> sends_search(self.base(), query@),
            r is Some <==> (self.base() is Some && vstd::utf8::encode_utf8(trim(query@)).len()
                as usize >= 2),
            r matches Some(req) ==> req.url@ == self.base()->0 + "/publishers/search"@ && req.q@
                == trim(query@),
    {
        let q = trim_str(query);
        match &self.base_url {
            None => None,
            Some(base) => {
                if q.len() < MIN_QUERY_LEN {
                    None
                } else {
                    let mut url = base.clone();
                    url.append("/publishers/search");
                    Some(SearchRequest { url, q: String::from_str(q) })
                }
            },
        }
    }
}

} // verus!
