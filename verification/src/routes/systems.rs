//! The decisions behind the three pages: the detail page of one system, the browse-and-search
//! list, and the role-gated form to add a system. Reading the request, calling the API and
//! rendering templates happen in the application; this module computes what each page shows,
//! which links it carries and where a request is sent next.

use vstd::prelude::*;
use vstd::utf8::{encode_utf8, is_ascii_chars};

use crate::catalog_client::Publisher;
use crate::i18n::strings_view;
use crate::game_systems_client::{
    is_status_error, law_bare_list_is_one_page, page_from_payload, ApiError, ClientError,
    GameSystemView, ListQuery, NewSystem, SystemsPage, SystemsPayload, Tag,
};
use crate::text::{
    decimal, decimal_string, find_char_from, index_of, lemma_index_of_bounds,
    form_parse, is_white_space, lemma_ascii_bytes, lemma_decimal_digits, lemma_encode_utf8_concat,
    lemma_form_decode_plain, lemma_form_pair_of, lemma_form_parse_cons, lemma_form_parse_last,
    lemma_form_roundtrip, lemma_index_of_is, urlencoded_bytes, lemma_trim_keeps_absent, law_trim_leaves_no_outer_whitespace, law_trim_keeps_clean_text,
    str_eq, trim, trim_str, urlencode, urlencoded,
};

verus! {

/// Page size of the browse list when the request names none.
pub const DEFAULT_PER_PAGE: u32 = 24;

/// Largest page size the browse list accepts.
pub const MAX_PER_PAGE: u32 = 100;

/// Browser-facing base path of this app behind the shared-host Ingress.
pub const BASE_PATH: &'static str = "/game-systems";

/// `auth-web`'s sign-out path on the shared host.
pub const LOGOUT_URL: &'static str = "/auth/logout";

// ---------------------------------------------------------------------------
// roles, sort keys and links
// ---------------------------------------------------------------------------

/// Roles that may see and submit the add-new-system form.
pub open spec fn is_write_role(r: Seq<char>) -> bool {
    r == "submitter"@ || r == "editor"@ || r == "admin"@
}

/// Sort values forwarded to `game-systems-api`.
pub open spec fn is_allowed_sort(s: Seq<char>) -> bool {
    s == "name"@ || s == "-name"@ || s == "created"@ || s == "-created"@
}

pub fn is_write_role_name(r: &str) -> (b: bool)
    ensures
        b == is_write_role(r@),
{
    str_eq(r, "submitter") || str_eq(r, "editor") || str_eq(r, "admin")
}

pub fn is_allowed_sort_value(s: &str) -> (b: bool)
    ensures
        b == is_allowed_sort(s@),
{
    str_eq(s, "name") || str_eq(s, "-name") || str_eq(s, "created") || str_eq(s, "-created")
}

/// What the pages read of a signed-in visitor's session.
#[derive(Clone, Debug, Default)]
pub struct SessionUser {
    pub name: String,
    pub roles: Vec<String>,
    /// The bearer token forwarded on writes; sessions from before `auth-web` carried one have
    /// none.
    pub access_token: Option<String>,
}

/// Whether any of `roles` is a write role.
pub open spec fn any_write_role(roles: Seq<String>) -> bool {
    exists|i: int| 0 <= i < roles.len() && is_write_role(#[trigger] roles[i]@)
}

/// Whether the visitor may see and submit the add-new-system form.
pub fn has_write_role(user: &SessionUser) -> (b: bool)
    ensures
        b == any_write_role(user.roles@),
        b <==> exists|i: int|
            0 <= i < user.roles@.len() && (#[trigger] user.roles@[i]@ == "submitter"@
                || user.roles@[i]@ == "editor"@ || user.roles@[i]@ == "admin"@),
{
    let n = user.roles.len();
    let mut i: usize = 0;
    while i < n
        invariant
            n == user.roles@.len(),
            i <= n,
            forall|k: int| 0 <= k < i ==> !is_write_role(#[trigger] user.roles@[k]@),
        decreases n - i,
    {
        if is_write_role_name(user.roles[i].as_str()) {
            return true;
        }
        i = i + 1;
    }
    false
}

/// `auth-web`'s sign-in link that returns to `return_to`.
pub open spec fn login_url_of(return_to: Seq<char>) -> Seq<char> {
    "/auth/login?return_to="@ + urlencoded(return_to)
}

pub fn login_url(return_to: &str) -> (r: String)
    ensures
        r@ == login_url_of(return_to@),
        r@ == "/auth/login?return_to="@ + urlencoded(return_to@),
{
    let mut r = String::from_str("/auth/login?return_to=");
    let enc = urlencode(return_to);
    r.append(enc.as_str());
    r
}

/// The HTTP status whose shared error page shows for an upstream error.
pub open spec fn status_for(err: ClientError) -> u16 {
    match err {
        ClientError::NotFound => 404,
        ClientError::Forbidden(_) => 403,
        ClientError::BadRequest(_) => 400,
        ClientError::Upstream(_) => 502,
    }
}

pub fn upstream_status(err: &ClientError) -> (r: u16)
    ensures
        r == status_for(*err),
        *err is NotFound ==> r == 404,
        *err is Forbidden ==> r == 403,
        *err is BadRequest ==> r == 400,
        *err is Upstream ==> r == 502,
{
    match err {
        ClientError::NotFound => 404,
        ClientError::Forbidden(_) => 403,
        ClientError::BadRequest(_) => 400,
        ClientError::Upstream(_) => 502,
    }
}

/// The shared error page an API status ends on: 404 for 404, 403 for 401 and 403, 400 for
/// any other 4xx, 502 for everything else.
pub open spec fn error_page_for_status(status: u16) -> u16 {
    if status == 404 {
        404
    } else if status == 401 || status == 403 {
        403
    } else if 400 <= status < 500 {
        400
    } else {
        502
    }
}

/// The error a non-success API status maps to is shown with the matching shared error page.
pub proof fn law_error_page_follows_status(
    err: ClientError,
    status: u16,
    reason: Option<Seq<char>>,
    api_err: ApiError,
)
    requires
        is_status_error(err, status, reason, api_err),
    ensures
        status_for(err) == error_page_for_status(status),
{
}

/// Link to a system's detail page.
pub open spec fn detail_url_of(id: Seq<char>) -> Seq<char> {
    "/game-systems/"@ + id
}

pub fn detail_url(id: &str) -> (r: String)
    ensures
        r@ == detail_url_of(id@),
        r@ == "/game-systems/"@ + id@,
{
    let mut r = String::from_str("/game-systems/");
    r.append(id);
    r
}

/// Link to a system's version history.
pub fn version_history_url(id: &str) -> (r: String)
    ensures
        r@ == detail_url_of(id@) + "/versions"@,
{
    let mut r = detail_url(id);
    r.append("/versions");
    r
}

/// The id a system's links are built from: its record id, or its id when the view carries no
/// record id.
pub open spec fn link_id_of(v: GameSystemView) -> Seq<char> {
    if v.record_id@.len() > 0 {
        v.record_id@
    } else {
        v.id@
    }
}

pub fn link_id(v: &GameSystemView) -> (r: &str)
    ensures
        r@ == link_id_of(*v),
        v.record_id@.len() > 0 ==> r@ == v.record_id@,
        v.record_id@.len() == 0 ==> r@ == v.id@,
{
    if v.record_id.as_str().unicode_len() > 0 {
        v.record_id.as_str()
    } else {
        v.id.as_str()
    }
}

// ---------------------------------------------------------------------------
// detail page
// ---------------------------------------------------------------------------

/// Template-facing projection of a system: tags flattened to display strings.
#[derive(Clone, Debug)]
pub struct SystemView {
    pub name: String,
    pub edition: String,
    pub publisher_id: String,
    pub notes: String,
    pub tags: Vec<String>,
}

/// A tag as shown: its name, or `name: value` when it has a value.
pub open spec fn tag_label(t: Tag) -> Seq<char> {
    if t.value@.len() == 0 {
        t.name@
    } else {
        t.name@ + ": "@ + t.value@
    }
}

/// The labels of `tags`, in order, without empty ones.
pub open spec fn tag_labels(tags: Seq<Tag>) -> Seq<Seq<char>>
    decreases tags.len(),
{
    if tags.len() == 0 {
        Seq::empty()
    } else {
        let rest = tag_labels(tags.drop_last());
        if tag_label(tags.last()).len() > 0 {
            rest.push(tag_label(tags.last()))
        } else {
            rest
        }
    }
}

fn label_of(t: &Tag) -> (r: String)
    ensures
        r@ == tag_label(*t),
{
    if t.value.as_str().unicode_len() == 0 {
        t.name.clone()
    } else {
        let mut r = t.name.clone();
        r.append(": ");
        r.append(t.value.as_str());
        r
    }
}

impl SystemView {
    pub fn from_view(v: GameSystemView) -> (r: SystemView)
        ensures
            r.name@ == v.name@,
            r.edition@ == v.edition@,
            r.publisher_id@ == v.publisher_id@,
            r.notes@ == v.notes@,
            strings_view(r.tags@) == tag_labels(v.tags@),
    {
        let mut tags: Vec<String> = Vec::new();
        let n = v.tags.len();
        let mut i: usize = 0;
        while i < n
            invariant
                n == v.tags@.len(),
                i <= n,
                strings_view(tags@) == tag_labels(v.tags@.take(i as int)),
            decreases n - i,
        {
            assert(v.tags@.take(i + 1).drop_last() =~= v.tags@.take(i as int));
            let label = label_of(&v.tags[i]);
            if label.as_str().unicode_len() > 0 {
                tags.push(label);
            }
            assert(strings_view(tags@) =~= tag_labels(v.tags@.take(i + 1)));
            i = i + 1;
        }
        assert(v.tags@.take(n as int) =~= v.tags@);
        SystemView {
            name: v.name,
            edition: v.edition,
            publisher_id: v.publisher_id,
            notes: v.notes,
            tags,
        }
    }
}

/// What the detail page shows: the system and the link to its version history.
#[derive(Clone, Debug)]
pub struct DetailPage {
    pub system: SystemView,
    pub version_history_url: String,
}

/// The detail page for a system the API returned; the version-history link is built from the
/// system's link id.
pub fn detail_page(view: GameSystemView) -> (r: DetailPage)
    ensures
        r.version_history_url@ == detail_url_of(link_id_of(view)) + "/versions"@,
        r.system.name@ == view.name@,
        r.system.edition@ == view.edition@,
        r.system.publisher_id@ == view.publisher_id@,
        r.system.notes@ == view.notes@,
        strings_view(r.system.tags@) == tag_labels(view.tags@),
{
    let version_history_url = version_history_url(link_id(&view));
    DetailPage { system: SystemView::from_view(view), version_history_url }
}

// ---------------------------------------------------------------------------
// browse page
// ---------------------------------------------------------------------------

/// The browse page's query string as the request gave it.
#[derive(Clone, Debug, Default)]
pub struct BrowseParams {
    pub q: Option<String>,
    pub sort: Option<String>,
    pub page: Option<u32>,
    pub per_page: Option<u32>,
}

/// The browse request after clean-up: trimmed search, an allowed sort or none, a page of at
/// least one and a page size between one and `MAX_PER_PAGE`.
#[derive(Clone, Debug)]
pub struct BrowseRequest {
    pub search: String,
    pub sort: String,
    pub page: u32,
    pub per_page: u32,
}

/// The sort a request keeps: an allowed value, or none (empty).
pub open spec fn kept_sort(sort: Option<String>) -> Seq<char> {
    match sort {
        Some(s) => if is_allowed_sort(s@) {
            s@
        } else {
            Seq::empty()
        },
        None => Seq::empty(),
    }
}

pub open spec fn clamp(v: u32, lo: u32, hi: u32) -> u32 {
    if v < lo {
        lo
    } else if v > hi {
        hi
    } else {
        v
    }
}

/// The page a request asks for: `page`, one when absent, at least one.
pub open spec fn requested_page(page: Option<u32>) -> u32 {
    match page {
        Some(p) => if p == 0 {
            1
        } else {
            p
        },
        None => 1,
    }
}

/// The page size a request asks for: `per_page`, `DEFAULT_PER_PAGE` when absent, clamped.
pub open spec fn requested_per_page(per_page: Option<u32>) -> u32 {
    clamp(
        match per_page {
            Some(p) => p,
            None => DEFAULT_PER_PAGE,
        },
        1,
        MAX_PER_PAGE,
    )
}

/// Sorting by name and by creation date, each either way, is kept exactly as asked for.
pub proof fn law_allowed_sorts_are_kept(s: String)
    requires
        s@ == "name"@ || s@ == "-name"@ || s@ == "created"@ || s@ == "-created"@,
    ensures
        kept_sort(Some(s)) == s@,
{
}

/// Any other sort value is dropped, so the list comes in the API's default order.
pub proof fn law_other_sorts_are_dropped(s: String)
    requires
        !(s@ == "name"@ || s@ == "-name"@ || s@ == "created"@ || s@ == "-created"@),
    ensures
        kept_sort(Some(s)).len() == 0,
{
}

/// The page asked for is kept when it is at least one; the page size is kept within one to a
/// hundred, raised to one below it and lowered to a hundred above it, and is twenty-four when
/// not asked for.
pub proof fn law_page_and_size_are_clamped(page: u32, per_page: u32)
    ensures
        page >= 1 ==> requested_page(Some(page)) == page,
        requested_page(Some(0)) == 1 && requested_page(None) == 1,
        1 <= per_page <= 100 ==> requested_per_page(Some(per_page)) == per_page,
        per_page > 100 ==> requested_per_page(Some(per_page)) == 100,
        requested_per_page(Some(0)) == 1 && requested_per_page(None) == 24,
{
}

/// The sort value a request keeps: an allowed one, otherwise none.
pub fn sanitize_sort(sort: Option<String>) -> (r: String)
    ensures
        r@ == kept_sort(sort),
        sort matches Some(s) ==> ((s@ == "name"@ || s@ == "-name"@ || s@ == "created"@ || s@
            == "-created"@) ==> r@ == s@),
        sort matches Some(s) ==> (!(s@ == "name"@ || s@ == "-name"@ || s@ == "created"@ || s@
            == "-created"@) ==> r@.len() == 0),
        sort is None ==> r@.len() == 0,
{
    match sort {
        Some(s) => if is_allowed_sort_value(s.as_str()) {
            s
        } else {
            String::new()
        },
        None => String::new(),
    }
}

/// Cleans up the browse page's query string.
pub fn plan_browse(params: BrowseParams) -> (r: BrowseRequest)
    ensures
        r.search@ == trim(
            match params.q {
                Some(q) => q@,
                None => Seq::empty(),
            },
        ),
        r.sort@ == kept_sort(params.sort),
        r.page == requested_page(params.page),
        r.per_page == requested_per_page(params.per_page),
        params.sort matches Some(s) ==> ((s@ == "name"@ || s@ == "-name"@ || s@ == "created"@
            || s@ == "-created"@) ==> r.sort@ == s@),
        params.sort matches Some(s) ==> (!(s@ == "name"@ || s@ == "-name"@ || s@ == "created"@
            || s@ == "-created"@) ==> r.sort@.len() == 0),
        params.sort is None ==> r.sort@.len() == 0,
        params.page matches Some(p) ==> ((p >= 1 ==> r.page == p) && (p == 0 ==> r.page == 1)),
        params.page is None ==> r.page == 1,
        params.per_page matches Some(p) ==> ((p == 0 ==> r.per_page == 1) && (1 <= p <= 100
            ==> r.per_page == p) && (p > 100 ==> r.per_page == 100)),
        params.per_page is None ==> r.per_page == 24,
        r.page >= 1,
        1 <= r.per_page <= MAX_PER_PAGE,
        r.sort@.len() == 0 || is_allowed_sort(r.sort@),
{
    let search = match &params.q {
        Some(q) => String::from_str(trim_str(q.as_str())),
        None => String::new(),
    };
    proof {
        if params.q is None {
            assert(trim(Seq::<char>::empty()) =~= Seq::<char>::empty());
        }
    }
    let sort = sanitize_sort(params.sort);
    let page = match params.page {
        Some(p) => if p == 0 {
            1
        } else {
            p
        },
        None => 1,
    };
    let wanted = match params.per_page {
        Some(p) => p,
        None => DEFAULT_PER_PAGE,
    };
    let per_page = if wanted < 1 {
        1
    } else if wanted > MAX_PER_PAGE {
        MAX_PER_PAGE
    } else {
        wanted
    };
    BrowseRequest { search, sort, page, per_page }
}

impl BrowseRequest {
    /// The list query sent to `game-systems-api`: search and sort when not empty, and always
    /// the page and page size.
    pub fn list_query(&self) -> (r: ListQuery)
        ensures
            match r.search {
                Some(s) => self.search@.len() > 0 && s@ == self.search@,
                None => self.search@.len() == 0,
            },
            match r.sort {
                Some(s) => self.sort@.len() > 0 && s@ == self.sort@,
                None => self.sort@.len() == 0,
            },
            r.page == Some(self.page),
            r.per_page == Some(self.per_page),
    {
        ListQuery {
            search: if self.search.as_str().unicode_len() > 0 {
                Some(self.search.clone())
            } else {
                None
            },
            sort: if self.sort.as_str().unicode_len() > 0 {
                Some(self.sort.clone())
            } else {
                None
            },
            page: Some(self.page),
            per_page: Some(self.per_page),
        }
    }
}

/// Link to another page of the browse list with the same search and sort.
pub open spec fn page_url_of(search: Seq<char>, sort: Seq<char>, page: nat) -> Seq<char> {
    "/game-systems?"@ + page_link_query(search, sort, page)
}

/// The query string of a browse-page link: `q` when searching, `sort` when sorted, then `page`.
pub open spec fn page_link_query(search: Seq<char>, sort: Seq<char>, page: nat) -> Seq<char> {
    (if search.len() > 0 {
        "q="@ + urlencoded(search) + "&"@
    } else {
        Seq::empty()
    }) + (if sort.len() > 0 {
        "sort="@ + urlencoded(sort) + "&"@
    } else {
        Seq::empty()
    }) + ("page="@ + decimal(page))
}

/// The name and value bytes a browse-page link's query parses back to: the UTF-8 of the search,
/// the sort and the page number, under `q`, `sort` and `page`.
pub open spec fn page_link_pairs(search: Seq<char>, sort: Seq<char>, page: nat) -> Seq<
    (Seq<u8>, Seq<u8>),
> {
    (if search.len() > 0 {
        seq![(encode_utf8("q"@), encode_utf8(search))]
    } else {
        Seq::empty()
    }) + (if sort.len() > 0 {
        seq![(encode_utf8("sort"@), encode_utf8(sort))]
    } else {
        Seq::empty()
    }) + seq![(encode_utf8("page"@), encode_utf8(decimal(page)))]
}

/// A query name made of lower-case ASCII letters: its bytes are the letters, so they hold no
/// `&`, `=`, `+` or `%`, and `name=` is those bytes and `=`.
proof fn lemma_query_name(name: Seq<char>, with_eq: Seq<char>)
    requires
        with_eq == name + seq!['='],
        forall|k: int| 0 <= k < name.len() ==> 'a' <= #[trigger] name[k] <= 'z',
    ensures
        encode_utf8(with_eq) == encode_utf8(name) + seq![0x3Du8],
        encode_utf8(name).len() == name.len(),
        !encode_utf8(name).contains(0x26u8),
        !encode_utf8(name).contains(0x3Du8),
        !encode_utf8(name).contains(0x2Bu8),
        !encode_utf8(name).contains(0x25u8),
{
    assert(is_ascii_chars(name));
    assert(is_ascii_chars(seq!['=']));
    lemma_ascii_bytes(name);
    lemma_ascii_bytes(seq!['=']);
    lemma_encode_utf8_concat(name, seq!['=']);
    assert(encode_utf8(seq!['=']) =~= seq![0x3Du8]);
    let b = encode_utf8(name);
    assert forall|k: int| 0 <= k < b.len() implies b[k] != 0x26u8 && b[k] != 0x3Du8 && b[k]
        != 0x2Bu8 && b[k] != 0x25u8 by {
        assert(b[k] == name[k] as u8);
        assert('a' <= name[k] <= 'z');
    }
}

/// One `name=value&` segment of a link's query, as bytes, and what it parses to.
proof fn lemma_query_segment(name: Seq<char>, with_eq: Seq<char>, value: Seq<char>, rest: Seq<u8>)
    requires
        with_eq == name + seq!['='],
        name.len() > 0,
        forall|k: int| 0 <= k < name.len() ==> 'a' <= #[trigger] name[k] <= 'z',
        "&"@ == seq!['&'],
    ensures
        form_parse(encode_utf8(with_eq + urlencoded(value) + "&"@) + rest) == seq![
            (encode_utf8(name), encode_utf8(value)),
        ] + form_parse(rest),
{
    lemma_query_name(name, with_eq);
    let nb = encode_utf8(name);
    let eb = urlencoded_bytes(encode_utf8(value));
    lemma_form_roundtrip(encode_utf8(value));
    assert(is_ascii_chars(seq!['&']));
    lemma_ascii_bytes(seq!['&']);
    assert(encode_utf8(seq!['&']) =~= seq![0x26u8]);
    lemma_encode_utf8_concat(with_eq, urlencoded(value));
    lemma_encode_utf8_concat(with_eq + urlencoded(value), "&"@);
    let piece = nb + seq![0x3Du8] + eb;
    assert(encode_utf8(with_eq + urlencoded(value) + "&"@) == piece + seq![0x26u8]);
    assert(!piece.contains(0x26u8)) by {
        assert forall|k: int| 0 <= k < piece.len() implies piece[k] != 0x26u8 by {
            if k < nb.len() {
                assert(piece[k] == nb[k]);
            } else if k > nb.len() {
                assert(piece[k] == eb[k - nb.len() - 1]);
            }
        }
    }
    assert(piece + seq![0x26u8] + rest =~= encode_utf8(with_eq + urlencoded(value) + "&"@) + rest);
    lemma_form_parse_cons(piece, rest);
    lemma_form_pair_of(nb, eb);
}

/// The decimal digits of a number, as bytes, hold no `&`, `=`, `+` or `%`.
proof fn lemma_decimal_bytes(n: nat)
    ensures
        !encode_utf8(decimal(n)).contains(0x26u8),
        !encode_utf8(decimal(n)).contains(0x2Bu8),
        !encode_utf8(decimal(n)).contains(0x25u8),
{
    lemma_decimal_digits(n);
    let d = decimal(n);
    assert(is_ascii_chars(d));
    lemma_ascii_bytes(d);
    let b = encode_utf8(d);
    assert forall|k: int| 0 <= k < b.len() implies b[k] != 0x26u8 && b[k] != 0x2Bu8 && b[k]
        != 0x25u8 by {
        assert(b[k] == d[k] as u8);
        assert('0' <= d[k] <= '9');
    }
}

/// A browse-page link is the base path and its query, and the query parses back, under the
/// form-urlencoded rules, to exactly the search, the sort and the page number, in that order,
/// whatever characters the search and sort hold.
pub proof fn law_page_link_parses_back(search: Seq<char>, sort: Seq<char>, page: nat)
    ensures
        page_url_of(search, sort, page) == "/game-systems?"@ + page_link_query(search, sort, page),
        form_parse(encode_utf8(page_link_query(search, sort, page))) == page_link_pairs(
            search,
            sort,
            page,
        ),
{
    reveal_strlit("q");
    reveal_strlit("q=");
    reveal_strlit("sort");
    reveal_strlit("sort=");
    reveal_strlit("page");
    reveal_strlit("page=");
    reveal_strlit("&");
    assert("q="@ =~= "q"@ + seq!['=']);
    assert("sort="@ =~= "sort"@ + seq!['=']);
    assert("page="@ =~= "page"@ + seq!['=']);
    assert("&"@ =~= seq!['&']);
    let s1 = if search.len() > 0 {
        "q="@ + urlencoded(search) + "&"@
    } else {
        Seq::<char>::empty()
    };
    let s2 = if sort.len() > 0 {
        "sort="@ + urlencoded(sort) + "&"@
    } else {
        Seq::<char>::empty()
    };
    let pp = "page="@ + decimal(page);
    lemma_encode_utf8_concat(s1 + s2, pp);
    lemma_encode_utf8_concat(s1, s2);
    // the page segment
    lemma_query_name("page"@, "page="@);
    lemma_encode_utf8_concat("page="@, decimal(page));
    lemma_decimal_bytes(page);
    let kp = encode_utf8("page"@);
    let db = encode_utf8(decimal(page));
    let ppb = kp + seq![0x3Du8] + db;
    assert(encode_utf8(pp) =~= ppb);
    assert(!ppb.contains(0x26u8)) by {
        assert forall|k: int| 0 <= k < ppb.len() implies ppb[k] != 0x26u8 by {
            if k < kp.len() {
                assert(ppb[k] == kp[k]);
            } else if k > kp.len() {
                assert(ppb[k] == db[k - kp.len() - 1]);
            }
        }
    }
    lemma_form_parse_last(ppb);
    lemma_form_pair_of(kp, db);
    lemma_form_decode_plain(db);
    let last = seq![(kp, db)];
    assert(form_parse(encode_utf8(pp)) == last);
    // the sort segment
    let after_sort = form_parse(encode_utf8(s2) + encode_utf8(pp));
    if sort.len() > 0 {
        lemma_query_segment("sort"@, "sort="@, sort, encode_utf8(pp));
        assert(after_sort == seq![(encode_utf8("sort"@), encode_utf8(sort))] + last);
    } else {
        assert(encode_utf8(s2) =~= Seq::<u8>::empty());
        assert(encode_utf8(s2) + encode_utf8(pp) =~= encode_utf8(pp));
    }
    // the search segment
    let total = encode_utf8(s1) + (encode_utf8(s2) + encode_utf8(pp));
    assert(encode_utf8(page_link_query(search, sort, page)) =~= total);
    if search.len() > 0 {
        lemma_query_segment("q"@, "q="@, search, encode_utf8(s2) + encode_utf8(pp));
    } else {
        assert(encode_utf8(s1) =~= Seq::<u8>::empty());
        assert(total =~= encode_utf8(s2) + encode_utf8(pp));
    }
    assert(form_parse(total) =~= page_link_pairs(search, sort, page));
}

pub fn page_url(search: &str, sort: &str, page: u32) -> (r: String)
    ensures
        r@ == page_url_of(search@, sort@, page as nat),
{
    let mut r = String::from_str("/game-systems?");
    if search.unicode_len() > 0 {
        r.append("q=");
        let enc = urlencode(search);
        r.append(enc.as_str());
        r.append("&");
    }
    if sort.unicode_len() > 0 {
        r.append("sort=");
        let enc = urlencode(sort);
        r.append(enc.as_str());
        r.append("&");
    }
    r.append("page=");
    let digits = decimal_string(page as u64);
    r.append(digits.as_str());
    assert(r@ =~= page_url_of(search@, sort@, page as nat));
    r
}

/// One row of the browse list.
#[derive(Clone, Debug)]
pub struct BrowseRow {
    pub id: String,
    pub name: String,
    pub edition: String,
    /// Link to the system's detail page.
    pub detail_url: String,
}

/// What the browse page shows.
#[derive(Clone, Debug)]
pub struct BrowsePage {
    pub search: String,
    pub sort: String,
    pub rows: Vec<BrowseRow>,
    pub can_add: bool,
    pub page: u32,
    pub has_prev: bool,
    pub has_next: bool,
    pub prev_url: String,
    pub next_url: String,
}

/// Whether `a * b < total`, computed without overflow.
fn product_below(a: u32, b: u32, total: i64) -> (r: bool)
    ensures
        r == (a * b < total),
{
    assert((a as int) * (b as int) <= 0xFFFF_FFFFint * 0xFFFF_FFFFint) by (nonlinear_arith)
        requires
            a <= 0xFFFF_FFFFint,
            b <= 0xFFFF_FFFFint,
    ;
    (a as i128) * (b as i128) < (total as i128)
}

/// Whether the browse page links to a next page. A whole list (the API's bare array) is one
/// page, judged by its own page and size, so the pager collapses; otherwise there is a next page
/// while the pages up to the requested one hold fewer than `total` systems.
pub open spec fn next_page_exists(page: u32, per_page: u32, result: SystemsPage) -> bool {
    if result.whole_list {
        result.page * result.per_page < result.total
    } else {
        page * per_page < result.total
    }
}

/// A bare-array answer shows as a single page: whatever page and size were asked for, there is
/// no next page (for an array whose length fits a `u32`).
pub proof fn law_bare_list_pager_collapses(p: SystemsPayload, page: u32, per_page: u32)
    requires
        p matches SystemsPayload::BareList(s) && s@.len() <= u32::MAX,
    ensures
        !next_page_exists(page, per_page, page_from_payload(p)),
{
    law_bare_list_is_one_page(p);
}

/// For an envelope with a positive total, the pager offers a next page exactly while the pages
/// up to the requested one hold fewer systems than that total.
pub proof fn law_pager_follows_envelope_total(p: SystemsPayload, page: u32, per_page: u32)
    requires
        p matches SystemsPayload::Envelope { total, .. } && total > 0,
    ensures
        p matches SystemsPayload::Envelope { total, .. } ==> (next_page_exists(
            page,
            per_page,
            page_from_payload(p),
        ) <==> page * per_page < total),
{
}

/// Once there is no next page, there is none after it either: moving forward never brings the
/// next-page link back.
pub proof fn law_no_next_page_stays_so(page: u32, per_page: u32, result: SystemsPage)
    requires
        page < u32::MAX,
        !next_page_exists(page, per_page, result),
    ensures
        !next_page_exists((page + 1) as u32, per_page, result),
{
    assert(page * per_page <= (page + 1) * per_page) by (nonlinear_arith);
}

/// Whether a visitor may use the add form: signed in with a write role.
pub open spec fn may_add(user: Option<&SessionUser>) -> bool {
    match user {
        Some(u) => any_write_role(u.roles@),
        None => false,
    }
}

/// The browse page for a cleaned-up request, the page of systems the API answered with and the
/// signed-in visitor, if any. There is a previous page after the first; whether there is a next
/// page is `next_page_exists`.
pub fn browse_page(req: BrowseRequest, result: SystemsPage, user: Option<&SessionUser>) -> (r:
    BrowsePage)
    requires
        req.page < u32::MAX,
    ensures
        r.search@ == req.search@,
        r.sort@ == req.sort@,
        r.page == req.page,
        r.rows@.len() == result.systems@.len(),
        forall|k: int|
            0 <= k < r.rows@.len() ==> (#[trigger] r.rows@[k]).id@ == result.systems@[k].id@
                && r.rows@[k].name@ == result.systems@[k].name@ && r.rows@[k].edition@
                == result.systems@[k].edition@ && r.rows@[k].detail_url@ == detail_url_of(
                link_id_of(result.systems@[k]),
            ),
        r.can_add == may_add(user),
        r.has_prev == (req.page > 1),
        r.has_next == next_page_exists(req.page, req.per_page, result),
        !result.whole_list ==> (r.has_next <==> req.page * req.per_page < result.total),
        result.whole_list ==> (r.has_next <==> result.page * result.per_page < result.total),
        r.prev_url@ == page_url_of(
            req.search@,
            req.sort@,
            if req.page > 1 {
                (req.page - 1) as nat
            } else {
                1
            },
        ),
        r.next_url@ == page_url_of(req.search@, req.sort@, (req.page + 1) as nat),
{
    let mut rows: Vec<BrowseRow> = Vec::new();
    let n = result.systems.len();
    let mut i: usize = 0;
    while i < n
        invariant
            n == result.systems@.len(),
            i <= n,
            rows@.len() == i,
            forall|k: int|
                0 <= k < i ==> (#[trigger] rows@[k]).id@ == result.systems@[k].id@
                    && rows@[k].name@ == result.systems@[k].name@ && rows@[k].edition@
                    == result.systems@[k].edition@ && rows@[k].detail_url@ == detail_url_of(
                    link_id_of(result.systems@[k]),
                ),
        decreases n - i,
    {
        let s = &result.systems[i];
        rows.push(
            BrowseRow {
                id: s.id.clone(),
                name: s.name.clone(),
                edition: s.edition.clone(),
                detail_url: detail_url(link_id(s)),
            },
        );
        i = i + 1;
    }
    let can_add = match user {
        Some(u) => has_write_role(u),
        None => false,
    };
    let page = req.page;
    let has_prev = page > 1;
    let has_next = if result.whole_list {
        product_below(result.page, result.per_page, result.total)
    } else {
        product_below(page, req.per_page, result.total)
    };
    let prev = if page > 1 {
        page - 1
    } else {
        1
    };
    let prev_url = page_url(req.search.as_str(), req.sort.as_str(), prev);
    let next_url = page_url(req.search.as_str(), req.sort.as_str(), page + 1);
    BrowsePage {
        search: req.search,
        sort: req.sort,
        rows,
        can_add,
        page,
        has_prev,
        has_next,
        prev_url,
        next_url,
    }
}

// ---------------------------------------------------------------------------
// add-new-system form
// ---------------------------------------------------------------------------

/// The values the form is filled with when it is shown again.
#[derive(Clone, Debug, Default)]
pub struct NewFormValues {
    pub system_id: String,
    pub name: String,
    pub edition: String,
    pub publisher_id: String,
    pub publisher_name: String,
    pub notes: String,
    pub tags: String,
}

/// The submitted form. `publisher_id` is set by the publisher picker from a chosen suggestion;
/// `publisher_name` is the name typed into the picker; `tags` holds comma-separated tag names.
#[derive(Clone, Debug, Default)]
pub struct NewFormSubmission {
    pub system_id: String,
    pub name: String,
    pub edition: String,
    pub publisher_id: String,
    pub publisher_name: String,
    pub notes: String,
    pub tags: String,
}

impl NewFormValues {
    /// The submitted values, as typed.
    pub fn from_submission(s: &NewFormSubmission) -> (r: NewFormValues)
        ensures
            r.system_id == s.system_id,
            r.name == s.name,
            r.edition == s.edition,
            r.publisher_id == s.publisher_id,
            r.publisher_name == s.publisher_name,
            r.notes == s.notes,
            r.tags == s.tags,
    {
        NewFormValues {
            system_id: s.system_id.clone(),
            name: s.name.clone(),
            edition: s.edition.clone(),
            publisher_id: s.publisher_id.clone(),
            publisher_name: s.publisher_name.clone(),
            notes: s.notes.clone(),
            tags: s.tags.clone(),
        }
    }
}

/// The tag names in a comma-separated list: each piece between commas, trimmed, without empty
/// ones, in order.
pub open spec fn tag_names(raw: Seq<char>) -> Seq<Seq<char>>
    decreases raw.len(),
{
    let i = index_of(raw, ',');
    let piece = trim(raw.take(i));
    let head = if piece.len() > 0 {
        seq![piece]
    } else {
        Seq::empty()
    };
    if i >= raw.len() {
        head
    } else {
        proof {
            lemma_index_of_bounds(raw, ',');
        }
        head + tag_names(raw.skip(i + 1))
    }
}

/// Every parsed tag name is non-empty and holds no comma.
pub proof fn law_tag_names_are_non_empty_and_comma_free(raw: Seq<char>)
    ensures
        forall|k: int|
            0 <= k < tag_names(raw).len() ==> (#[trigger] tag_names(raw)[k]).len() > 0
                && !tag_names(raw)[k].contains(','),
    decreases raw.len(),
{
    let i = index_of(raw, ',');
    lemma_index_of_bounds(raw, ',');
    let piece = trim(raw.take(i));
    assert(!raw.take(i).contains(',')) by {
        assert forall|k: int| 0 <= k < raw.take(i).len() implies raw.take(i)[k] != ',' by {
            assert(raw.take(i)[k] == raw[k]);
        }
    }
    lemma_trim_keeps_absent(raw.take(i), ',');
    if i < raw.len() {
        law_tag_names_are_non_empty_and_comma_free(raw.skip(i + 1));
        let head = if piece.len() > 0 {
            seq![piece]
        } else {
            Seq::<Seq<char>>::empty()
        };
        let rest = tag_names(raw.skip(i + 1));
        assert forall|k: int| 0 <= k < tag_names(raw).len() implies (#[trigger] tag_names(
            raw,
        )[k]).len() > 0 && !tag_names(raw)[k].contains(',') by {
            if k < head.len() {
                assert(tag_names(raw)[k] == piece);
            } else {
                assert(tag_names(raw)[k] == rest[k - head.len()]);
            }
        }
    }
}

/// Names joined into one comma-separated list.
pub open spec fn join_with_commas(names: Seq<Seq<char>>) -> Seq<char>
    decreases names.len(),
{
    if names.len() == 0 {
        Seq::empty()
    } else if names.len() == 1 {
        names[0]
    } else {
        names[0] + seq![','] + join_with_commas(names.drop_first())
    }
}

/// Names a tag list can hold as they are: non-empty, without commas, already trimmed.
pub open spec fn clean_names(names: Seq<Seq<char>>) -> bool {
    forall|k: int|
        0 <= k < names.len() ==> (#[trigger] names[k]).len() > 0 && !names[k].contains(',')
            && trim(names[k]) == names[k]
}

/// Non-empty, trimmed names without commas, joined with commas, parse back to exactly those
/// names, in order.
pub proof fn law_joined_clean_names_parse_back(names: Seq<Seq<char>>)
    requires
        clean_names(names),
    ensures
        tag_names(join_with_commas(names)) == names,
    decreases names.len(),
{
    if names.len() == 0 {
        assert(trim(Seq::<char>::empty()) =~= Seq::<char>::empty());
        assert(tag_names(join_with_commas(names)) =~= names);
    } else {
        let n0 = names[0];
        assert(n0.len() > 0 && !n0.contains(',') && trim(n0) == n0);
        if names.len() == 1 {
            lemma_index_of_is(n0, ',', n0.len() as int);
            assert(n0.take(n0.len() as int) =~= n0);
            assert(tag_names(n0) =~= seq![n0]);
            assert(names =~= seq![n0]);
        } else {
            let rest = names.drop_first();
            assert(clean_names(rest)) by {
                assert forall|k: int| 0 <= k < rest.len() implies (#[trigger] rest[k]).len() > 0
                    && !rest[k].contains(',') && trim(rest[k]) == rest[k] by {
                    assert(rest[k] == names[k + 1]);
                }
            }
            law_joined_clean_names_parse_back(rest);
            let j = join_with_commas(names);
            let tail = join_with_commas(rest);
            assert(j == n0 + seq![','] + tail);
            lemma_index_of_is(j, ',', n0.len() as int);
            assert(j.take(n0.len() as int) =~= n0);
            assert(j.skip(n0.len() as int + 1) =~= tail);
            assert(tag_names(j) =~= seq![n0] + rest);
            assert(names =~= seq![n0] + rest);
        }
    }
}

/// Parsed tag names have no whitespace at either end, and joining them with commas and parsing
/// the list again gives the same names.
pub proof fn law_tag_names_reparse(raw: Seq<char>)
    ensures
        forall|k: int|
            0 <= k < tag_names(raw).len() ==> !is_white_space((#[trigger] tag_names(raw)[k])[0])
                && !is_white_space(tag_names(raw)[k].last()),
        tag_names(join_with_commas(tag_names(raw))) == tag_names(raw),
{
    let names = tag_names(raw);
    law_tag_names_are_non_empty_and_comma_free(raw);
    lemma_tag_names_trimmed(raw);
    law_joined_clean_names_parse_back(names);
}

proof fn lemma_tag_names_trimmed(raw: Seq<char>)
    ensures
        forall|k: int|
            0 <= k < tag_names(raw).len() ==> trim(#[trigger] tag_names(raw)[k]) == tag_names(raw)[k]
                && (tag_names(raw)[k].len() > 0 ==> !is_white_space(tag_names(raw)[k][0])
                && !is_white_space(tag_names(raw)[k].last())),
    decreases raw.len(),
{
    let i = index_of(raw, ',');
    lemma_index_of_bounds(raw, ',');
    let piece = trim(raw.take(i));
    law_trim_leaves_no_outer_whitespace(raw.take(i));
    let head = if piece.len() > 0 {
        seq![piece]
    } else {
        Seq::<Seq<char>>::empty()
    };
    if i < raw.len() {
        lemma_tag_names_trimmed(raw.skip(i + 1));
        let rest = tag_names(raw.skip(i + 1));
        assert forall|k: int| 0 <= k < tag_names(raw).len() implies trim(
            #[trigger] tag_names(raw)[k],
        ) == tag_names(raw)[k] && (tag_names(raw)[k].len() > 0 ==> !is_white_space(
            tag_names(raw)[k][0],
        ) && !is_white_space(tag_names(raw)[k].last())) by {
            if k < head.len() {
                assert(tag_names(raw)[k] == piece);
            } else {
                assert(tag_names(raw)[k] == rest[k - head.len()]);
            }
        }
    } else {
        assert forall|k: int| 0 <= k < tag_names(raw).len() implies trim(
            #[trigger] tag_names(raw)[k],
        ) == tag_names(raw)[k] && (tag_names(raw)[k].len() > 0 ==> !is_white_space(
            tag_names(raw)[k][0],
        ) && !is_white_space(tag_names(raw)[k].last())) by {
            assert(tag_names(raw)[k] == piece);
        }
    }
}

pub open spec fn tags_names_view(tags: Seq<Tag>) -> Seq<Seq<char>> {
    tags.map_values(|t: Tag| t.name@)
}

/// Splits a comma-separated tag list into tags with a name and no value.
pub fn parse_tags(raw: &str) -> (r: Vec<Tag>)
    ensures
        tags_names_view(r@) == tag_names(raw@),
        forall|k: int| 0 <= k < r@.len() ==> (#[trigger] r@[k]).value@.len() == 0,
{
    let n = raw.unicode_len();
    let mut tags: Vec<Tag> = Vec::new();
    let mut start: usize = 0;
    assert(raw@.skip(0) =~= raw@);
    loop
        invariant_except_break
            tags_names_view(tags@) + tag_names(raw@.skip(start as int)) == tag_names(raw@),
        invariant
            n == raw@.len(),
            start <= n,
            forall|k: int| 0 <= k < tags@.len() ==> (#[trigger] tags@[k]).value@.len() == 0,
        ensures
            tags_names_view(tags@) == tag_names(raw@),
            forall|k: int| 0 <= k < tags@.len() ==> (#[trigger] tags@[k]).value@.len() == 0,
        decreases n - start,
    {
        let i = find_char_from(raw, ',', start);
        let ghost t = raw@.skip(start as int);
        assert(raw@.subrange(start as int, n as int) =~= t);
        assert(t.take(i - start) =~= raw@.subrange(start as int, i as int));
        let piece = trim_str(raw.substring_char(start, i));
        let ghost old_names = tags_names_view(tags@);
        if piece.unicode_len() > 0 {
            tags.push(Tag { name: String::from_str(piece), value: String::new() });
            assert(tags_names_view(tags@) =~= old_names.push(piece@));
        }
        if i == n {
            assert(tags_names_view(tags@) =~= old_names + tag_names(t));
            break ;
        }
        assert(t.skip(i - start + 1) =~= raw@.skip(i + 1));
        assert(tags_names_view(tags@) + tag_names(raw@.skip(i + 1)) =~= old_names + tag_names(t));
        start = i + 1;
    }
    tags
}

/// `body` is what `POST /systems` is sent for a submission with the given publisher id: the
/// trimmed fields and the parsed tags, each with no value.
pub open spec fn is_body_for(body: NewSystem, s: NewFormSubmission, publisher_id: Seq<char>) -> bool {
    &&& body.system_id@ == trim(s.system_id@)
    &&& body.name@ == trim(s.name@)
    &&& body.edition@ == trim(s.edition@)
    &&& body.publisher_id@ == publisher_id
    &&& body.notes@ == trim(s.notes@)
    &&& tags_names_view(body.tags@) == tag_names(s.tags@)
    &&& forall|k: int| 0 <= k < body.tags@.len() ==> (#[trigger] body.tags@[k]).value@.len() == 0
}

/// Every field of a submission reaches the `POST /systems` body, trimmed: the slug, name,
/// edition and notes, the publisher id it is sent with, and the tags named in the tag list.
pub proof fn law_body_keeps_every_field(body: NewSystem, s: NewFormSubmission, publisher_id: Seq<char>)
    requires
        is_body_for(body, s, publisher_id),
    ensures
        body.system_id@ == trim(s.system_id@),
        body.name@ == trim(s.name@),
        body.edition@ == trim(s.edition@),
        body.publisher_id@ == publisher_id,
        body.notes@ == trim(s.notes@),
        tags_names_view(body.tags@) == tag_names(s.tags@),
        forall|k: int| 0 <= k < body.tags@.len() ==> (#[trigger] body.tags@[k]).value@.len() == 0,
        s.edition@.len() > 0 && !is_white_space(s.edition@[0]) && !is_white_space(
            s.edition@.last(),
        ) ==> body.edition@ == s.edition@,
        s.name@.len() > 0 && !is_white_space(s.name@[0]) && !is_white_space(s.name@.last())
            ==> body.name@ == s.name@,
        s.system_id@.len() > 0 && !is_white_space(s.system_id@[0]) && !is_white_space(
            s.system_id@.last(),
        ) ==> body.system_id@ == s.system_id@,
{
    law_trim_keeps_clean_text(s.edition@);
    law_trim_keeps_clean_text(s.name@);
    law_trim_keeps_clean_text(s.system_id@);
}

/// The body sent to `POST /systems` for a submission, with `publisher_id` as the publisher.
pub fn body_with_publisher(s: &NewFormSubmission, publisher_id: &str) -> (r: NewSystem)
    ensures
        is_body_for(r, *s, publisher_id@),
        r.system_id@ == trim(s.system_id@),
        r.name@ == trim(s.name@),
        r.edition@ == trim(s.edition@),
        r.publisher_id@ == publisher_id@,
        r.notes@ == trim(s.notes@),
        tags_names_view(r.tags@) == tag_names(s.tags@),
{
    NewSystem {
        system_id: String::from_str(trim_str(s.system_id.as_str())),
        name: String::from_str(trim_str(s.name.as_str())),
        edition: String::from_str(trim_str(s.edition.as_str())),
        publisher_id: String::from_str(publisher_id),
        notes: String::from_str(trim_str(s.notes.as_str())),
        tags: parse_tags(s.tags.as_str()),
    }
}

/// The body sent to `POST /systems` for a submission: trimmed fields, the trimmed publisher id
/// and the parsed tags.
pub fn new_system_body(s: &NewFormSubmission) -> (r: NewSystem)
    ensures
        is_body_for(r, *s, trim(s.publisher_id@)),
        r.system_id@ == trim(s.system_id@),
        r.name@ == trim(s.name@),
        r.edition@ == trim(s.edition@),
        r.publisher_id@ == trim(s.publisher_id@),
        r.notes@ == trim(s.notes@),
        tags_names_view(r.tags@) == tag_names(s.tags@),
{
    body_with_publisher(s, trim_str(s.publisher_id.as_str()))
}

// ---------------------------------------------------------------------------
// publisher name resolution
// ---------------------------------------------------------------------------

pub open spec fn ascii_lower(c: char) -> char {
    if 'A' <= c <= 'Z' {
        ((c as u32) + 32) as char
    } else {
        c
    }
}

/// Two names are the same ignoring the case of ASCII letters.
pub open spec fn same_name(a: Seq<char>, b: Seq<char>) -> bool {
    a.len() == b.len() && forall|k: int| 0 <= k < a.len() ==> ascii_lower(#[trigger] a[k]) == ascii_lower(b[k])
}

/// Names match whatever the case of their ASCII letters: a name matches itself, and the same
/// name with its lower-case ASCII letters written in upper case.
pub proof fn law_name_case_is_ignored(a: Seq<char>, b: Seq<char>)
    requires
        a.len() == b.len(),
        forall|k: int|
            0 <= k < a.len() ==> if 'a' <= #[trigger] a[k] <= 'z' {
                b[k] as int + 32 == a[k] as int
            } else {
                b[k] == a[k]
            },
    ensures
        same_name(a, a),
        same_name(a, b),
        same_name(b, a),
{
    assert forall|k: int| 0 <= k < a.len() implies ascii_lower(#[trigger] a[k]) == ascii_lower(b[k]) by {
        if 'a' <= a[k] <= 'z' {
            assert('a' as int == 97 && 'z' as int == 122 && 'A' as int == 65 && 'Z' as int == 90);
            assert(65 <= b[k] as int <= 90);
            assert('A' <= b[k] <= 'Z');
            assert(ascii_lower(b[k]) == a[k]);
        }
    }
}

/// A lone candidate with the typed name, in any ASCII case, is the publisher the name resolves
/// to; one with a name of another length never is.
pub proof fn law_lone_candidate_is_found(name: Seq<char>, c: Publisher)
    ensures
        same_name(c.name@, name) ==> matching_ids(name, seq![c]) == seq![c.id@],
        c.name@.len() != name.len() ==> matching_ids(name, seq![c]).len() == 0,
{
    let one = seq![c];
    assert(one.drop_last() =~= Seq::<Publisher>::empty());
    assert(one.last() == c);
    assert(matching_ids(name, one.drop_last()) == Seq::<Seq<char>>::empty());
    if same_name(c.name@, name) {
        assert(Seq::<Seq<char>>::empty().push(c.id@) =~= seq![c.id@]);
    }
}

fn lower_char(c: char) -> (r: char)
    ensures
        r == ascii_lower(c),
{
    if 'A' <= c && c <= 'Z' {
        let u: u8 = (c as u8) + 32;
        u as char
    } else {
        c
    }
}

fn names_match(a: &str, b: &str) -> (r: bool)
    ensures
        r == same_name(a@, b@),
{
    let n = a.unicode_len();
    if n != b.unicode_len() {
        return false;
    }
    let mut i: usize = 0;
    while i < n
        invariant
            n == a@.len(),
            n == b@.len(),
            i <= n,
            forall|k: int| 0 <= k < i ==> ascii_lower(#[trigger] a@[k]) == ascii_lower(b@[k]),
        decreases n - i,
    {
        if lower_char(a.get_char(i)) != lower_char(b.get_char(i)) {
            return false;
        }
        i = i + 1;
    }
    true
}

/// The ids of the candidates whose name is `name`, ignoring ASCII case, in order.
pub open spec fn matching_ids(name: Seq<char>, candidates: Seq<Publisher>) -> Seq<Seq<char>>
    decreases candidates.len(),
{
    if candidates.len() == 0 {
        Seq::empty()
    } else {
        let rest = matching_ids(name, candidates.drop_last());
        if same_name(candidates.last().name@, name) {
            rest.push(candidates.last().id@)
        } else {
            rest
        }
    }
}

/// Why a typed publisher name could not be resolved.
#[derive(Clone, Copy, Debug, PartialEq, Eq)]
pub enum PublisherError {
    /// No publisher has that name.
    NotFound,
    /// More than one publisher has that name.
    Ambiguous,
}

impl PublisherError {
    /// The error shown on the re-rendered form.
    pub fn message(&self) -> (r: String)
        ensures
            r@ == match *self {
                PublisherError::NotFound => "no publisher has that name"@,
                PublisherError::Ambiguous => "more than one publisher has that name"@,
            },
    {
        match self {
            PublisherError::NotFound => String::from_str("no publisher has that name"),
            PublisherError::Ambiguous => String::from_str("more than one publisher has that name"),
        }
    }
}

/// The publisher a typed name resolves to among the catalog's search results: the id of the one
/// publisher with that name (ignoring ASCII case); `NotFound` when none has it and `Ambiguous`
/// when several do.
pub fn resolve_publisher(name: &str, candidates: &Vec<Publisher>) -> (r: Result<String, PublisherError>)
    ensures
        matching_ids(name@, candidates@).len() == 1 ==> (r matches Ok(id) && id@ == matching_ids(
            name@,
            candidates@,
        )[0]),
        matching_ids(name@, candidates@).len() == 0 ==> r == Err::<String, PublisherError>(
            PublisherError::NotFound,
        ),
        matching_ids(name@, candidates@).len() > 1 ==> r == Err::<String, PublisherError>(
            PublisherError::Ambiguous,
        ),
{
    let n = candidates.len();
    let mut found: Option<String> = None;
    let mut count: usize = 0;
    let mut i: usize = 0;
    while i < n
        invariant
            n == candidates@.len(),
            i <= n,
            count == if matching_ids(name@, candidates@.take(i as int)).len() > 1 {
                2
            } else {
                matching_ids(name@, candidates@.take(i as int)).len()
            },
            count >= 1 ==> (found matches Some(id) && id@ == matching_ids(
                name@,
                candidates@.take(i as int),
            )[0]),
        decreases n - i,
    {
        assert(candidates@.take(i + 1).drop_last() =~= candidates@.take(i as int));
        let c = &candidates[i];
        if names_match(c.name.as_str(), name) {
            if count == 0 {
                found = Some(c.id.clone());
            }
            if count < 2 {
                count = count + 1;
            }
        }
        i = i + 1;
    }
    assert(candidates@.take(n as int) =~= candidates@);
    if count == 1 {
        match found {
            Some(id) => Ok(id),
            None => Err(PublisherError::NotFound),
        }
    } else if count == 0 {
        Err(PublisherError::NotFound)
    } else {
        Err(PublisherError::Ambiguous)
    }
}

/// The create request once a typed publisher name was looked up: the body with the resolved
/// publisher id, or the reason it could not be resolved.
pub fn body_after_lookup(s: &NewFormSubmission, name: &str, candidates: &Vec<Publisher>) -> (r:
    Result<NewSystem, PublisherError>)
    ensures
        matching_ids(name@, candidates@).len() == 1 ==> (r matches Ok(body) && is_body_for(
            body,
            *s,
            matching_ids(name@, candidates@)[0],
        )),
        matching_ids(name@, candidates@).len() == 0 ==> r matches Err(PublisherError::NotFound),
        matching_ids(name@, candidates@).len() > 1 ==> r matches Err(PublisherError::Ambiguous),
        r matches Ok(body) ==> (body.system_id@ == trim(s.system_id@) && body.name@ == trim(
            s.name@,
        ) && body.edition@ == trim(s.edition@) && body.notes@ == trim(s.notes@) && body.publisher_id@
            == matching_ids(name@, candidates@)[0] && tags_names_view(body.tags@) == tag_names(
            s.tags@,
        )),
{
    match resolve_publisher(name, candidates) {
        Ok(id) => Ok(body_with_publisher(s, id.as_str())),
        Err(e) => Err(e),
    }
}

/// The add form's own path, the sign-in return target.
pub open spec fn new_form_path() -> Seq<char> {
    "/game-systems/new"@
}

/// Who may reach the add form.
#[derive(Clone, Debug)]
pub enum FormGate {
    /// Not signed in: redirect to this sign-in link.
    SignIn(String),
    /// Signed in without a write role: answer 403 with the not-authorized text.
    Forbidden,
    /// Signed in with a write role.
    Open,
}

pub open spec fn gate_matches(g: FormGate, user: Option<&SessionUser>) -> bool {
    match user {
        None => g matches FormGate::SignIn(u) && u@ == login_url_of(new_form_path()),
        Some(u) => if any_write_role(u.roles@) {
            g is Open
        } else {
            g is Forbidden
        },
    }
}

/// Who may reach the add form: signed-out visitors are sent to sign in, visitors without a
/// write role are refused.
pub fn form_gate(user: Option<&SessionUser>) -> (r: FormGate)
    ensures
        gate_matches(r, user),
{
    match user {
        None => {
            proof {
                reveal_strlit("/game-systems/new");
            }
            FormGate::SignIn(login_url("/game-systems/new"))
        },
        Some(u) => if has_write_role(u) {
            FormGate::Open
        } else {
            FormGate::Forbidden
        },
    }
}

/// What a form submission leads to before the API is called.
#[derive(Clone, Debug)]
pub enum SubmitStep {
    /// Not signed in: redirect to this sign-in link.
    SignIn(String),
    /// Signed in without a write role: answer 403.
    Forbidden,
    /// The session carries no access token to forward: show the form again with the
    /// not-authorized error.
    MissingToken,
    /// Send `POST /systems` with this bearer token and body.
    Create { token: String, body: NewSystem },
    /// A publisher name was typed but no publisher chosen: search the catalog for `name`, then
    /// resolve it with `body_after_lookup` before sending `POST /systems` with this token.
    LookupPublisher { token: String, name: String },
}

/// Whether a submission's typed publisher name must be looked up before creating: no publisher
/// was chosen, a name was typed and the picker is enabled. With the picker disabled the name is
/// accepted with a blank publisher id.
pub open spec fn needs_lookup(s: NewFormSubmission, picker_enabled: bool) -> bool {
    picker_enabled && trim(s.publisher_id@).len() == 0 && trim(s.publisher_name@).len() > 0
}

/// The visitor's access token, when it is present and not empty.
pub open spec fn usable_token(u: &SessionUser) -> Option<Seq<char>> {
    match u.access_token {
        Some(t) => if t@.len() > 0 {
            Some(t@)
        } else {
            None
        },
        None => None,
    }
}

/// What a form submission leads to: the same gate as the form, then the token check, then
/// either the publisher lookup or the request to create the system.
pub fn submit_step(user: Option<&SessionUser>, submission: &NewFormSubmission, picker_enabled: bool) -> (r:
    SubmitStep)
    ensures
        submit_step_matches(r, user, *submission, picker_enabled),
        r matches SubmitStep::Create { body, .. } ==> (body.system_id@ == trim(
            submission.system_id@,
        ) && body.name@ == trim(submission.name@) && body.edition@ == trim(submission.edition@)
            && body.notes@ == trim(submission.notes@) && body.publisher_id@ == trim(
            submission.publisher_id@,
        ) && tags_names_view(body.tags@) == tag_names(submission.tags@)),
        user is None ==> (r matches SubmitStep::SignIn(u) && u@ == "/auth/login?return_to="@
            + urlencoded("/game-systems/new"@)),
        user matches Some(u) ==> (!(exists|i: int|
            0 <= i < u.roles@.len() && (#[trigger] u.roles@[i]@ == "submitter"@ || u.roles@[i]@
                == "editor"@ || u.roles@[i]@ == "admin"@)) ==> r is Forbidden),
        r matches SubmitStep::LookupPublisher { name, .. } ==> (picker_enabled && trim(
            submission.publisher_id@,
        ).len() == 0 && name@ == trim(submission.publisher_name@) && name@.len() > 0),
        r matches SubmitStep::Create { token, .. } ==> (user matches Some(u) && u.access_token
            matches Some(t) && t@ == token@ && token@.len() > 0),
        r matches SubmitStep::LookupPublisher { token, .. } ==> (user matches Some(u)
            && u.access_token matches Some(t) && t@ == token@ && token@.len() > 0),
{
    match form_gate(user) {
        FormGate::SignIn(url) => SubmitStep::SignIn(url),
        FormGate::Forbidden => SubmitStep::Forbidden,
        FormGate::Open => {
            let u = user.unwrap();
            match &u.access_token {
                Some(t) => if t.as_str().unicode_len() > 0 {
                    let chosen = trim_str(submission.publisher_id.as_str());
                    let typed = trim_str(submission.publisher_name.as_str());
                    if picker_enabled && chosen.unicode_len() == 0 && typed.unicode_len() > 0 {
                        SubmitStep::LookupPublisher { token: t.clone(), name: String::from_str(typed) }
                    } else {
                        SubmitStep::Create { token: t.clone(), body: new_system_body(submission) }
                    }
                } else {
                    SubmitStep::MissingToken
                },
                None => SubmitStep::MissingToken,
            }
        },
    }
}

/// `r` is what a submission by `user` leads to before the API is called.
pub open spec fn submit_step_matches(
    r: SubmitStep,
    user: Option<&SessionUser>,
    submission: NewFormSubmission,
    picker_enabled: bool,
) -> bool {
    match user {
        None => r matches SubmitStep::SignIn(u) && u@ == login_url_of(new_form_path()),
        Some(u) => if !any_write_role(u.roles@) {
            r is Forbidden
        } else {
            match usable_token(u) {
                None => r is MissingToken,
                Some(t) => if needs_lookup(submission, picker_enabled) {
                    r matches SubmitStep::LookupPublisher { token, name } && token@ == t && name@
                        == trim(submission.publisher_name@)
                } else {
                    r matches SubmitStep::Create { token, body } && token@ == t && is_body_for(
                        body,
                        submission,
                        trim(submission.publisher_id@),
                    )
                },
            }
        },
    }
}

/// Submitting the form is gated exactly as showing it: the same visitors are sent to sign in,
/// the same are refused, and only those shown the form get as far as the token check.
pub proof fn law_submit_is_gated_like_the_form(
    g: FormGate,
    r: SubmitStep,
    user: Option<&SessionUser>,
    submission: NewFormSubmission,
    picker_enabled: bool,
)
    requires
        gate_matches(g, user),
        submit_step_matches(r, user, submission, picker_enabled),
    ensures
        g is SignIn <==> r is SignIn,
        g is Forbidden <==> r is Forbidden,
        g is Open <==> (r is MissingToken || r is Create || r is LookupPublisher),
        g matches FormGate::SignIn(a) ==> (r matches SubmitStep::SignIn(b) && a@ == b@),
{
}

/// A publisher is looked up only when the picker is enabled and none was chosen: with the
/// picker disabled, or with a chosen publisher id, a writer with a token always creates.
pub proof fn law_lookup_only_without_chosen_publisher(
    r: SubmitStep,
    user: Option<&SessionUser>,
    submission: NewFormSubmission,
    picker_enabled: bool,
)
    requires
        submit_step_matches(r, user, submission, picker_enabled),
        !picker_enabled || trim(submission.publisher_id@).len() > 0,
    ensures
        !(r is LookupPublisher),
        r is MissingToken || r is SignIn || r is Forbidden || r is Create,
{
}

/// A writer with a non-empty token who chose a publisher gets the create request, carrying that
/// token and the chosen publisher id, trimmed.
pub proof fn law_chosen_publisher_is_sent(
    r: SubmitStep,
    u: &SessionUser,
    submission: NewFormSubmission,
    picker_enabled: bool,
)
    requires
        submit_step_matches(r, Some(u), submission, picker_enabled),
        exists|i: int| 0 <= i < u.roles@.len() && #[trigger] u.roles@[i]@ == "submitter"@,
        u.access_token matches Some(t) && t@.len() > 0,
        trim(submission.publisher_id@).len() > 0,
    ensures
        r matches SubmitStep::Create { token, body } && u.access_token matches Some(t) && token@
            == t@ && body.publisher_id@ == trim(submission.publisher_id@),
{
    let i = choose|i: int| 0 <= i < u.roles@.len() && #[trigger] u.roles@[i]@ == "submitter"@;
    assert(is_write_role(u.roles@[i]@));
}

/// What the page does once `POST /systems` has answered.
#[derive(Clone, Debug)]
pub enum SubmitOutcome {
    /// Created: redirect to this link.
    Redirect(String),
    /// Rejected: show the form again with this error message.
    Rerender(String),
    /// Failed upstream: answer with this status.
    Status(u16),
}

/// The outcome of a create request: the new system's page when it was created, the form again
/// with the API's message when the API rejected or forbade it, the error's status otherwise.
pub fn submit_outcome(result: Result<GameSystemView, ClientError>) -> (r: SubmitOutcome)
    ensures
        match result {
            Ok(created) => r matches SubmitOutcome::Redirect(u) && u@ == detail_url_of(
                link_id_of(created),
            ),
            Err(ClientError::BadRequest(e)) => r matches SubmitOutcome::Rerender(m) && m@
                == e.message@,
            Err(ClientError::Forbidden(e)) => r matches SubmitOutcome::Rerender(m) && m@
                == e.message@,
            Err(e) => r == SubmitOutcome::Status(status_for(e)),
        },
{
    match result {
        Ok(created) => SubmitOutcome::Redirect(detail_url(link_id(&created))),
        Err(ClientError::BadRequest(e)) => SubmitOutcome::Rerender(e.message),
        Err(ClientError::Forbidden(e)) => SubmitOutcome::Rerender(e.message),
        Err(e) => SubmitOutcome::Status(upstream_status(&e)),
    }
}

} // verus!
