//! The data `game-systems-api` exchanges with this frontend, and the decisions the client makes
//! around each request: which URL and query parameters to send, how a `GET /systems` payload
//! becomes a page of results, and which error a non-success status maps to. The requests
//! themselves are sent by the application around this library.

use vstd::prelude::*;

use crate::text::{decimal, decimal_string, strip_trailing_slashes, trailing_slashes_removed};

verus! {

/// One tag on a game system.
#[derive(Clone, Debug, Default)]
pub struct Tag {
    pub name: String,
    pub value: String,
}

/// The flattened current view `game-systems-api` returns from `GET /systems` and
/// `GET /systems/:id`: the current version's fields plus the record's identity.
#[derive(Clone, Debug, Default)]
pub struct GameSystemView {
    pub id: String,
    pub record_id: String,
    pub version: i64,
    pub name: String,
    pub edition: String,
    pub publisher_id: String,
    pub notes: String,
    pub tags: Vec<Tag>,
}

/// One historical version row from `GET /systems/:id/versions`.
#[derive(Clone, Debug, Default)]
pub struct GameSystemVersionRow {
    pub version: i64,
    pub name: String,
    pub edition: String,
    pub state: String,
}

/// One page of systems. `total` counts the live systems matching the search, independent of
/// the page size.
#[derive(Clone, Debug)]
pub struct SystemsPage {
    pub systems: Vec<GameSystemView>,
    pub total: i64,
    pub page: u32,
    pub per_page: u32,
    /// The API answered with a bare array of every live system, without server-side paging:
    /// the page is the whole list.
    pub whole_list: bool,
}

/// The two shapes `GET /systems` is served in: the paginated envelope, or a bare array of every
/// live system.
#[derive(Debug)]
pub enum SystemsPayload {
    Envelope { systems: Vec<GameSystemView>, total: i64, page: u32, per_page: u32 },
    BareList(Vec<GameSystemView>),
}

/// Query parameters for the browse/search list, forwarded verbatim to `game-systems-api`.
#[derive(Clone, Debug, Default)]
pub struct ListQuery {
    pub search: Option<String>,
    pub sort: Option<String>,
    pub page: Option<u32>,
    pub per_page: Option<u32>,
}

/// Body for `POST /systems`: the stable slug plus the new system's initial version fields.
#[derive(Clone, Debug, Default)]
pub struct NewSystem {
    pub system_id: String,
    pub name: String,
    pub edition: String,
    pub publisher_id: String,
    pub notes: String,
    pub tags: Vec<Tag>,
}

/// `game-systems-api`'s error envelope.
#[derive(Clone, Debug, Default)]
pub struct ApiError {
    pub error: String,
    pub message: String,
}

/// What went wrong talking to `game-systems-api`.
#[derive(Debug)]
pub enum ClientError {
    /// The system id resolved to nothing.
    NotFound,
    /// The caller lacks a write role at the API.
    Forbidden(ApiError),
    /// The API rejected the submission (validation, duplicate slug).
    BadRequest(ApiError),
    /// Transport failure or a non-client-error status from the API.
    Upstream(String),
}

/// The text a `ClientError` is shown as.
pub open spec fn client_error_message(e: ClientError) -> Seq<char> {
    match e {
        ClientError::NotFound => "not found"@,
        ClientError::Forbidden(a) => "forbidden: "@ + a.message@,
        ClientError::BadRequest(a) => "bad request: "@ + a.message@,
        ClientError::Upstream(m) => "upstream error: "@ + m@,
    }
}

impl ClientError {
    /// The error as text, as it is logged.
    pub fn message(&self) -> (r: String)
        ensures
            r@ == client_error_message(*self),
    {
        match self {
            ClientError::NotFound => String::from_str("not found"),
            ClientError::Forbidden(e) => {
                let mut r = String::from_str("forbidden: ");
                r.append(e.message.as_str());
                r
            },
            ClientError::BadRequest(e) => {
                let mut r = String::from_str("bad request: ");
                r.append(e.message.as_str());
                r
            },
            ClientError::Upstream(m) => {
                let mut r = String::from_str("upstream error: ");
                r.append(m.as_str());
                r
            },
        }
    }
}

/// `n` as a Rust `as i64` conversion gives it.
pub open spec fn len_as_i64(n: nat) -> i64 {
    n as i64
}

pub open spec fn at_least_one(n: u32) -> u32 {
    if n == 0 {
        1
    } else {
        n
    }
}

/// The page a payload stands for. An envelope keeps its systems; a zero total is replaced by
/// the number of systems on the page and page and page size are at least one. A bare array is
/// one page holding every system.
pub open spec fn page_from_payload(p: SystemsPayload) -> SystemsPage {
    match p {
        SystemsPayload::Envelope { systems, total, page, per_page } => SystemsPage {
            systems,
            total: if total > 0 {
                total
            } else {
                len_as_i64(systems@.len())
            },
            page: at_least_one(page),
            per_page: at_least_one(per_page),
            whole_list: false,
        },
        SystemsPayload::BareList(systems) => SystemsPage {
            systems,
            total: len_as_i64(systems@.len()),
            page: 1,
            per_page: (if systems@.len() == 0 {
                1
            } else {
                systems@.len()
            }) as u32,
            whole_list: true,
        },
    }
}

impl SystemsPage {
    /// The page a `GET /systems` payload stands for.
    pub fn from_payload(payload: SystemsPayload) -> (r: SystemsPage)
        ensures
            r == page_from_payload(payload),
            payload matches SystemsPayload::Envelope { systems, total, .. } ==> (r.systems
                == systems && !r.whole_list && (total > 0 ==> r.total == total) && (total <= 0
                ==> r.total == systems@.len() as i64)),
            payload matches SystemsPayload::Envelope { page, per_page, .. } ==> ((page >= 1
                ==> r.page == page) && (page == 0 ==> r.page == 1) && (per_page >= 1 ==> r.per_page
                == per_page) && (per_page == 0 ==> r.per_page == 1)),
            payload matches SystemsPayload::BareList(systems) ==> (r.systems == systems
                && r.whole_list && r.total == systems@.len() as i64 && r.page == 1 && (
            systems@.len() >= 1 ==> r.per_page == systems@.len() as u32) && (systems@.len() == 0
                ==> r.per_page == 1)),
    {
        match payload {
            SystemsPayload::Envelope { systems, total, page, per_page } => {
                let n = systems.len();
                SystemsPage {
                    total: if total > 0 {
                        total
                    } else {
                        n as i64
                    },
                    page: if page == 0 {
                        1
                    } else {
                        page
                    },
                    per_page: if per_page == 0 {
                        1
                    } else {
                        per_page
                    },
                    systems,
                    whole_list: false,
                }
            },
            SystemsPayload::BareList(systems) => {
                let n = systems.len();
                let shown = if n == 0 {
                    1
                } else {
                    n
                };
                SystemsPage {
                    total: n as i64,
                    page: 1,
                    per_page: shown as u32,
                    systems,
                    whole_list: true,
                }
            },
        }
    }
}

/// The page and page size of every page built from a payload are at least one (for a bare
/// array, one whose length fits a `u32`).
pub proof fn law_page_numbers_are_positive(p: SystemsPayload)
    requires
        p matches SystemsPayload::BareList(s) ==> s@.len() <= u32::MAX,
    ensures
        page_from_payload(p).page >= 1,
        page_from_payload(p).per_page >= 1,
{
}

/// A bare array is a single page: its one page at its page size covers every system.
pub proof fn law_bare_list_is_one_page(p: SystemsPayload)
    requires
        p matches SystemsPayload::BareList(s) && s@.len() <= u32::MAX,
    ensures
        page_from_payload(p).page * page_from_payload(p).per_page >= page_from_payload(p).total,
{
}

/// An envelope with a positive total keeps it as the page's total, however many systems the
/// page itself holds: the total counts every matching system, not the page.
pub proof fn law_envelope_total_is_kept(p: SystemsPayload)
    requires
        p matches SystemsPayload::Envelope { total, .. } && total > 0,
    ensures
        p matches SystemsPayload::Envelope { total, systems, .. } ==> (page_from_payload(p).total
            == total && page_from_payload(p).systems == systems),
{
}

/// An envelope's page and page size are kept when they are at least one, and read as one
/// otherwise.
pub proof fn law_envelope_page_is_kept(p: SystemsPayload)
    requires
        p is Envelope,
    ensures
        p matches SystemsPayload::Envelope { page, per_page, .. } ==> (page_from_payload(p).page
            == (if page == 0 { 1 } else { page }) && page_from_payload(p).per_page == (if per_page
            == 0 { 1 } else { per_page })),
{
}

/// One query-string parameter, when it is present.
pub open spec fn param(present: bool, key: Seq<char>, value: Seq<char>) -> Seq<(Seq<char>, Seq<char>)> {
    if present {
        seq![(key, value)]
    } else {
        Seq::empty()
    }
}

/// The query string `GET /systems` is sent with: a non-empty search as `q`, a non-empty sort as
/// `sort`, then `page` and `per_page` when they are set.
pub open spec fn list_params_of(q: ListQuery) -> Seq<(Seq<char>, Seq<char>)> {
    param(q.search is Some && q.search->0@.len() > 0, "q"@, q.search->0@) + param(
        q.sort is Some && q.sort->0@.len() > 0,
        "sort"@,
        q.sort->0@,
    ) + param(q.page is Some, "page"@, decimal(q.page->0 as nat)) + param(
        q.per_page is Some,
        "per_page"@,
        decimal(q.per_page->0 as nat),
    )
}

/// One when `o` holds a non-empty text, zero otherwise: how many parameters it adds.
pub open spec fn present_count(o: Option<String>) -> int {
    match o {
        Some(t) => if t@.len() > 0 {
            1
        } else {
            0
        },
        None => 0,
    }
}

/// A non-empty sort is always sent, as the `sort` parameter right after the search (or first,
/// without a search) and before the page; an empty or absent one never is.
pub proof fn law_sort_is_forwarded(q: ListQuery)
    ensures
        q.sort matches Some(s) ==> (s@.len() > 0 ==> (list_params_of(q)[present_count(q.search)]
            == ("sort"@, s@) && (q.page is Some ==> list_params_of(q)[present_count(q.search)
            + 1].0 == "page"@))),
        present_count(q.sort) == 0 ==> forall|k: int|
            0 <= k < list_params_of(q).len() ==> (#[trigger] list_params_of(q)[k]).0 != "sort"@,
        list_params_of(q).len() == present_count(q.search) + present_count(q.sort) + (if q.page
            is Some { 1int } else { 0 }) + (if q.per_page is Some { 1int } else { 0 }),
{
    law_list_params_in_order(q);
    let ps = list_params_of(q);
    if present_count(q.sort) == 0 {
        reveal_strlit("q");
        reveal_strlit("sort");
        reveal_strlit("page");
        reveal_strlit("per_page");
        assert forall|k: int| 0 <= k < ps.len() implies (#[trigger] ps[k]).0 != "sort"@ by {
            assert("q"@[0] != "sort"@[0]);
            assert("page"@[0] != "sort"@[0]);
            assert("per_page"@[0] != "sort"@[0]);
        }
    }
}

/// The query string holds, in this order, the search as `q` when it is not empty, the sort as
/// `sort` when it is not empty, the page, and the page size, and nothing else.
pub proof fn law_list_params_in_order(q: ListQuery)
    ensures
        list_params_of(q).len() == present_count(q.search) + present_count(q.sort) + (if q.page
            is Some { 1int } else { 0 }) + (if q.per_page is Some { 1int } else { 0 }),
        q.search matches Some(t) ==> (t@.len() > 0 ==> list_params_of(q)[0] == ("q"@, t@)),
        q.sort matches Some(t) ==> (t@.len() > 0 ==> list_params_of(q)[present_count(q.search)]
            == ("sort"@, t@)),
        q.page matches Some(p) ==> list_params_of(q)[present_count(q.search) + present_count(q.sort)]
            == ("page"@, decimal(p as nat)),
        q.per_page matches Some(p) ==> list_params_of(q).last() == ("per_page"@, decimal(p as nat)),
        forall|k: int|
            0 <= k < list_params_of(q).len() ==> #[trigger] list_params_of(q)[k] == ("q"@,
                q.search->0@) || list_params_of(q)[k] == ("sort"@, q.sort->0@) || list_params_of(
                q)[k] == ("page"@, decimal(q.page->0 as nat)) || list_params_of(q)[k] == (
                "per_page"@,
                decimal(q.per_page->0 as nat),
            ),
{
    let a = param(q.search is Some && q.search->0@.len() > 0, "q"@, q.search->0@);
    let b = param(q.sort is Some && q.sort->0@.len() > 0, "sort"@, q.sort->0@);
    let c = param(q.page is Some, "page"@, decimal(q.page->0 as nat));
    let d = param(q.per_page is Some, "per_page"@, decimal(q.per_page->0 as nat));
    let ps = list_params_of(q);
    assert(ps == a + b + c + d);
    assert(a.len() == present_count(q.search));
    assert(b.len() == present_count(q.sort));
    assert forall|k: int| 0 <= k < ps.len() implies #[trigger] ps[k] == ("q"@, q.search->0@)
        || ps[k] == ("sort"@, q.sort->0@) || ps[k] == ("page"@, decimal(q.page->0 as nat))
        || ps[k] == ("per_page"@, decimal(q.per_page->0 as nat)) by {
        if k < a.len() {
            assert(ps[k] == a[k]);
        } else if k < a.len() + b.len() {
            assert(ps[k] == b[k - a.len()]);
        } else if k < a.len() + b.len() + c.len() {
            assert(ps[k] == c[k - a.len() - b.len()]);
        } else {
            assert(ps[k] == d[k - a.len() - b.len() - c.len()]);
        }
    }
}

pub open spec fn pairs_view(v: Seq<(String, String)>) -> Seq<(Seq<char>, Seq<char>)> {
    v.map_values(|p: (String, String)| (p.0@, p.1@))
}

fn push_param(params: &mut Vec<(String, String)>, key: &str, value: String)
    ensures
        pairs_view(final(params)@) == pairs_view(old(params)@).push((key@, value@)),
{
    params.push((String::from_str(key), value));
    assert(pairs_view(params@) =~= pairs_view(old(params)@).push((key@, value@)));
}

/// Status codes `http` counts as success.
pub open spec fn is_success_status(status: u16) -> bool {
    200 <= status < 300
}

pub fn is_success(status: u16) -> (r: bool)
    ensures
        r == is_success_status(status),
        r <==> 200 <= status <= 299,
{
    200 <= status && status < 300
}

/// The canonical reason phrase of a status code, as the `http` crate's table gives it.
pub uninterp spec fn canonical_reason(code: u16) -> Option<Seq<char>>;

/// Calls `http::StatusCode::canonical_reason` (re-exported by `reqwest`) for `code`. The
/// contract only names the result: the phrase comes from that crate's fixed table, so it depends
/// on the code alone.
#[verifier::external_body]
fn status_reason(code: u16) -> (r: Option<String>)
    requires
        100 <= code <= 999,
    ensures
        match r {
            Some(s) => canonical_reason(code) == Some(s@),
            None => canonical_reason(code) is None,
        },
{
    match reqwest::StatusCode::from_u16(code) {
        Ok(status) => match status.canonical_reason() {
            Some(reason) => Some(reason.to_string()),
            None => None,
        },
        Err(_) => None,
    }
}

/// How a status code is printed: the number and its reason phrase.
pub open spec fn status_text(code: u16, reason: Option<Seq<char>>) -> Seq<char> {
    decimal(code as nat) + " "@ + match reason {
        Some(r) => r,
        None => "<unknown status code>"@,
    }
}

/// `r` is the error a non-success `status` maps to, given the status's reason phrase: 404 is
/// `NotFound`, 401 and 403 are `Forbidden` and any other 4xx is `BadRequest`, both carrying the
/// API's error envelope; everything else is `Upstream` with the status in its text.
pub open spec fn is_status_error(
    r: ClientError,
    status: u16,
    reason: Option<Seq<char>>,
    api_err: ApiError,
) -> bool {
    if status == 404 {
        r is NotFound
    } else if status == 401 || status == 403 {
        r == ClientError::Forbidden(api_err)
    } else if 400 <= status < 500 {
        r == ClientError::BadRequest(api_err)
    } else {
        r matches ClientError::Upstream(m) && m@ == "api returned "@ + status_text(status, reason)
    }
}

pub open spec fn reason_view(reason: Option<String>) -> Option<Seq<char>> {
    match reason {
        Some(s) => Some(s@),
        None => None,
    }
}

/// The error for a non-success `status` once its reason phrase is known: 404 is `NotFound`, 401
/// and 403 are `Forbidden`, any other 4xx is `BadRequest`, and everything else is `Upstream`
/// with the status in its text.
pub fn error_for_status_with_reason(status: u16, reason: Option<String>, api_err: ApiError) -> (r:
    ClientError)
    requires
        100 <= status <= 999,
        !is_success_status(status),
    ensures
        is_status_error(r, status, reason_view(reason), api_err),
        status == 404 ==> r is NotFound,
        status == 401 || status == 403 ==> r == ClientError::Forbidden(api_err),
        400 <= status <= 499 && status != 401 && status != 403 && status != 404 ==> r
            == ClientError::BadRequest(api_err),
        !(400 <= status <= 499) ==> (r matches ClientError::Upstream(m) && m@ == "api returned "@
            + decimal(status as nat) + " "@ + match reason {
            Some(t) => t@,
            None => "<unknown status code>"@,
        }),
{
    if status == 404 {
        ClientError::NotFound
    } else if status == 401 || status == 403 {
        ClientError::Forbidden(api_err)
    } else if 400 <= status && status < 500 {
        ClientError::BadRequest(api_err)
    } else {
        let mut m = String::from_str("api returned ");
        let code = decimal_string(status as u64);
        m.append(code.as_str());
        m.append(" ");
        match reason {
            Some(s) => m.append(s.as_str()),
            None => m.append("<unknown status code>"),
        }
        assert(m@ =~= "api returned "@ + status_text(status, reason_view(reason)));
        ClientError::Upstream(m)
    }
}

/// The error for a non-success `status`, with `api_err` the error envelope from the body (or an
/// empty one where the body did not parse).
pub fn error_for_status(status: u16, api_err: ApiError) -> (r: ClientError)
    requires
        100 <= status <= 999,
        !is_success_status(status),
    ensures
        is_status_error(r, status, canonical_reason(status), api_err),
{
    let reason = status_reason(status);
    error_for_status_with_reason(status, reason, api_err)
}

/// Client over `game-systems-api`, holding its base URL without trailing slashes.
#[derive(Clone, Debug)]
pub struct GameSystemsApiClient {
    base_url: String,
}

impl GameSystemsApiClient {
    pub closed spec fn base(&self) -> Seq<char> {
        self.base_url@
    }

    pub fn new(base_url: String) -> (r: Self)
        ensures
            r.base() == trailing_slashes_removed(base_url@),
    {
        GameSystemsApiClient { base_url: strip_trailing_slashes(base_url.as_str()) }
    }

    /// The base URL requests go to.
    pub fn base_url(&self) -> (r: &str)
        ensures
            r@ == self.base(),
    {
        self.base_url.as_str()
    }

    /// The full URL of `path` on the API.
    pub fn url(&self, path: &str) -> (r: String)
        ensures
            r@ == self.base() + path@,
    {
        let mut r = self.base_url.clone();
        r.append(path);
        r
    }

    /// URL of `GET /systems` and `POST /systems`.
    pub fn systems_url(&self) -> (r: String)
        ensures
            r@ == self.base() + "/systems"@,
    {
        self.url("/systems")
    }

    /// URL of `GET /systems/:id`.
    pub fn system_url(&self, id: &str) -> (r: String)
        ensures
            r@ == self.base() + "/systems/"@ + id@,
    {
        let mut r = self.url("/systems/");
        r.append(id);
        r
    }

    /// URL of `GET /systems/:id/versions`.
    pub fn versions_url(&self, id: &str) -> (r: String)
        ensures
            r@ == self.base() + "/systems/"@ + id@ + "/versions"@,
    {
        let mut r = self.system_url(id);
        r.append("/versions");
        r
    }

    /// The query parameters `GET /systems` is sent with for `query`.
    pub fn list_params(query: &ListQuery) -> (r: Vec<(String, String)>)
        ensures
            pairs_view(r@) == list_params_of(*query),
            r@.len() == present_count(query.search) + present_count(query.sort) + (if query.page
                is Some { 1int } else { 0 }) + (if query.per_page is Some { 1int } else { 0 }),
            query.search matches Some(q) ==> (q@.len() > 0 ==> (r@[0].0@ == "q"@ && r@[0].1@
                == q@)),
            query.sort matches Some(s) ==> (s@.len() > 0 ==> (r@[present_count(query.search)].0@
                == "sort"@ && r@[present_count(query.search)].1@ == s@)),
            query.page matches Some(p) ==> (r@[present_count(query.search) + present_count(
                query.sort)].0@ == "page"@ && r@[present_count(query.search) + present_count(
                query.sort)].1@ == decimal(p as nat)),
            query.per_page matches Some(p) ==> (r@.last().0@ == "per_page"@ && r@.last().1@
                == decimal(p as nat)),
    {
        let mut params: Vec<(String, String)> = Vec::new();
        assert(pairs_view(params@) =~= Seq::empty());
        match &query.search {
            Some(q) => {
                if q.as_str().unicode_len() > 0 {
                    push_param(&mut params, "q", q.clone());
                }
            },
            None => {},
        }
        match &query.sort {
            Some(s) => {
                if s.as_str().unicode_len() > 0 {
                    push_param(&mut params, "sort", s.clone());
                }
            },
            None => {},
        }
        match query.page {
            Some(p) => push_param(&mut params, "page", decimal_string(p as u64)),
            None => {},
        }
        match query.per_page {
            Some(p) => push_param(&mut params, "per_page", decimal_string(p as u64)),
            None => {},
        }
        assert(pairs_view(params@) =~= list_params_of(*query));
        proof {
            law_list_params_in_order(*query);
            let pv = pairs_view(params@);
            assert(forall|k: int| 0 <= k < params@.len() ==> #[trigger] pv[k] == (params@[k].0@, params@[k].1@));
            if params@.len() > 0 {
                assert(pv[0] == (params@[0].0@, params@[0].1@));
                assert(pv.last() == (params@.last().0@, params@.last().1@));
            }
        }
        params
    }
}

} // verus!
