//! Locale resolution and message lookup. A request's locale comes from the locale cookie, then the
//! `Accept-Language` header, then English. Messages are looked up in a `Catalog` of
//! translations held by `rust_i18n`'s key-value backend: first under the locale itself, then
//! under each shorter form of it (`zh-Hant-CN` then `zh-Hant` then `zh`), then under each
//! fallback locale, and a key with no translation anywhere reads as the key itself.

use vstd::prelude::*;

use crate::text::{
    before_first, before_first_str, index_of, is_white_space, law_trim_keeps_clean_text,
    lemma_index_of_bounds, lemma_index_of_is, str_eq, trim, trim_str,
};

verus! {

/// The default and fallback locale.
pub const DEFAULT_LOCALE: &'static str = "en";

/// Cookie set by a locale-override request; wins over `Accept-Language`.
pub const LOCALE_COOKIE_NAME: &'static str = "locale";

/// Locales this app can render: English and Esperanto.
pub open spec fn is_supported_locale(l: Seq<char>) -> bool {
    l == DEFAULT_LOCALE@ || l == "eo"@
}

pub fn is_supported(l: &str) -> (r: bool)
    ensures
        r == is_supported_locale(l@),
{
    str_eq(l, DEFAULT_LOCALE) || str_eq(l, "eo")
}

// ---------------------------------------------------------------------------
// the translation backend
// ---------------------------------------------------------------------------

#[verifier::external_type_specification]
#[verifier::external_body]
pub struct ExSimpleBackend(rust_i18n::SimpleBackend);

/// The translations a backend holds, by locale and key.
pub uninterp spec fn backend_entries(b: rust_i18n::SimpleBackend) -> Map<
    (Seq<char>, Seq<char>),
    Seq<char>,
>;

/// No translations at all.
pub open spec fn no_entries() -> Map<(Seq<char>, Seq<char>), Seq<char>> {
    Map::empty()
}

/// Calls `rust_i18n::SimpleBackend::new`, which starts with no translations.
#[verifier::external_body]
fn backend_new() -> (b: rust_i18n::SimpleBackend)
    ensures
        backend_entries(b) == no_entries(),
{
    rust_i18n::SimpleBackend::new()
}

/// Calls `rust_i18n::SimpleBackend::add_translations` with the one pair `key`, `value`. The
/// backend extends its map for `locale` with the pair, replacing an earlier value of `key`.
#[verifier::external_body]
fn backend_add(b: &mut rust_i18n::SimpleBackend, locale: &str, key: &str, value: &str)
    ensures
        backend_entries(*final(b)) == backend_entries(*old(b)).insert((locale@, key@), value@),
{
    b.add_translations(locale, &std::collections::HashMap::from([(key, value)]));
}

/// Calls `rust_i18n::Backend::translate` on the backend: the value stored under `locale` and
/// `key`, if any.
#[verifier::external_body]
fn backend_translate(b: &rust_i18n::SimpleBackend, locale: &str, key: &str) -> (r: Option<String>)
    ensures
        match r {
            Some(v) => backend_entries(*b).contains_key((locale@, key@)) && backend_entries(
                *b,
            )[(locale@, key@)] == v@,
            None => !backend_entries(*b).contains_key((locale@, key@)),
        },
{
    match rust_i18n::Backend::translate(b, locale, key) {
        Some(v) => Some(v.to_string()),
        None => None,
    }
}

// ---------------------------------------------------------------------------
// lookup rules
// ---------------------------------------------------------------------------

/// Index of the last `c` in `s`, or -1.
pub open spec fn last_index_of(s: Seq<char>, c: char) -> int
    decreases s.len(),
{
    if s.len() == 0 {
        -1
    } else if s.last() == c {
        s.len() - 1
    } else {
        last_index_of(s.drop_last(), c)
    }
}

/// `s` without its trailing `-x` pieces (`trim_end_matches("-x")`).
pub open spec fn trim_private_marker(s: Seq<char>) -> Seq<char>
    decreases s.len(),
{
    if s.len() >= 2 && s[s.len() - 2] == '-' && s[s.len() - 1] == 'x' {
        trim_private_marker(s.take(s.len() - 2))
    } else {
        s
    }
}

/// The next shorter form of a locale tag: everything before its last `-`, without trailing
/// `-x` markers. `None` for a tag without `-`.
pub open spec fn parent_locale(l: Seq<char>) -> Option<Seq<char>> {
    let i = last_index_of(l, '-');
    if i < 0 {
        None
    } else {
        Some(trim_private_marker(l.take(i)))
    }
}

pub proof fn lemma_last_index_of_bounds(s: Seq<char>, c: char)
    ensures
        -1 <= last_index_of(s, c) < s.len(),
        last_index_of(s, c) >= 0 ==> s[last_index_of(s, c)] == c,
        forall|k: int| last_index_of(s, c) < k < s.len() ==> s[k] != c,
    decreases s.len(),
{
    if s.len() > 0 && s.last() != c {
        lemma_last_index_of_bounds(s.drop_last(), c);
        assert forall|k: int| last_index_of(s, c) < k < s.len() implies s[k] != c by {
            if k < s.len() - 1 {
                assert(s[k] == s.drop_last()[k]);
            }
        }
    }
}

pub proof fn lemma_trim_private_marker_shorter(s: Seq<char>)
    ensures
        trim_private_marker(s).len() <= s.len(),
        trim_private_marker(s) == s.take(trim_private_marker(s).len() as int),
    decreases s.len(),
{
    if s.len() >= 2 && s[s.len() - 2] == '-' && s[s.len() - 1] == 'x' {
        lemma_trim_private_marker_shorter(s.take(s.len() - 2));
        assert(s.take(s.len() - 2).take(trim_private_marker(s).len() as int) =~= s.take(
            trim_private_marker(s).len() as int,
        ));
    } else {
        assert(s.take(s.len() as int) =~= s);
    }
}

pub proof fn lemma_parent_shorter(l: Seq<char>)
    ensures
        parent_locale(l) matches Some(p) ==> p.len() < l.len(),
{
    lemma_last_index_of_bounds(l, '-');
    let i = last_index_of(l, '-');
    if i >= 0 {
        lemma_trim_private_marker_shorter(l.take(i));
    }
}

/// The translation found under the shorter forms of `locale`, shortest last.
pub open spec fn parent_lookup(
    entries: Map<(Seq<char>, Seq<char>), Seq<char>>,
    locale: Seq<char>,
    key: Seq<char>,
) -> Option<Seq<char>>
    decreases locale.len(),
{
    match parent_locale(locale) {
        None => None,
        Some(p) => {
            proof {
                lemma_parent_shorter(locale);
            }
            if entries.contains_key((p, key)) {
                Some(entries[(p, key)])
            } else {
                parent_lookup(entries, p, key)
            }
        },
    }
}

/// The translation found under the first fallback locale that has one.
pub open spec fn fallback_lookup(
    entries: Map<(Seq<char>, Seq<char>), Seq<char>>,
    fallbacks: Seq<Seq<char>>,
    key: Seq<char>,
) -> Option<Seq<char>>
    decreases fallbacks.len(),
{
    if fallbacks.len() == 0 {
        None
    } else if entries.contains_key((fallbacks[0], key)) {
        Some(entries[(fallbacks[0], key)])
    } else {
        fallback_lookup(entries, fallbacks.drop_first(), key)
    }
}

/// The translation of `key` for `locale`, if any: under `locale`, then its shorter forms, then
/// the fallback locales.
pub open spec fn find_translation(
    entries: Map<(Seq<char>, Seq<char>), Seq<char>>,
    fallbacks: Seq<Seq<char>>,
    locale: Seq<char>,
    key: Seq<char>,
) -> Option<Seq<char>> {
    if entries.contains_key((locale, key)) {
        Some(entries[(locale, key)])
    } else {
        match parent_lookup(entries, locale, key) {
            Some(v) => Some(v),
            None => fallback_lookup(entries, fallbacks, key),
        }
    }
}

/// What `key` reads as in `locale`: its translation, or the key itself when there is none.
pub open spec fn translation(
    entries: Map<(Seq<char>, Seq<char>), Seq<char>>,
    fallbacks: Seq<Seq<char>>,
    locale: Seq<char>,
    key: Seq<char>,
) -> Seq<char> {
    match find_translation(entries, fallbacks, locale, key) {
        Some(v) => v,
        None => key,
    }
}

/// Index of the last `c` in `s`, or `None`.
fn last_index_of_char(s: &str, c: char) -> (r: Option<usize>)
    ensures
        match r {
            Some(i) => i as int == last_index_of(s@, c),
            None => last_index_of(s@, c) == -1,
        },
{
    let n = s.unicode_len();
    let mut j: usize = n;
    assert(s@.take(n as int) =~= s@);
    while j > 0 && s.get_char(j - 1) != c
        invariant
            n == s@.len(),
            j <= n,
            last_index_of(s@.take(j as int), c) == last_index_of(s@, c),
        decreases j,
    {
        assert(s@.take(j as int).drop_last() =~= s@.take(j - 1));
        j = j - 1;
    }
    if j == 0 {
        None
    } else {
        Some(j - 1)
    }
}

/// The next shorter form of a locale tag.
fn parent_of(l: &str) -> (r: Option<&str>)
    ensures
        match r {
            Some(p) => parent_locale(l@) == Some(p@),
            None => parent_locale(l@) is None,
        },
{
    match last_index_of_char(l, '-') {
        None => None,
        Some(i) => {
            proof {
                lemma_last_index_of_bounds(l@, '-');
            }
            let mut end: usize = i;
            assert(l@.take(i as int) =~= l@.subrange(0, i as int));
            while end >= 2 && l.get_char(end - 2) == '-' && l.get_char(end - 1) == 'x'
                invariant
                    i < l@.len(),
                    end <= i,
                    trim_private_marker(l@.subrange(0, end as int)) == trim_private_marker(
                        l@.take(i as int),
                    ),
                decreases end,
            {
                assert(l@.subrange(0, end as int).take(end - 2) =~= l@.subrange(0, end - 2));
                end = end - 2;
            }
            Some(l.substring_char(0, end))
        },
    }
}

/// A set of translations and the locales to fall back on.
pub struct Catalog {
    backend: rust_i18n::SimpleBackend,
    fallbacks: Vec<String>,
}

pub open spec fn strings_view(v: Seq<String>) -> Seq<Seq<char>> {
    v.map_values(|s: String| s@)
}

impl Catalog {
    /// The translations held, by locale and key.
    pub closed spec fn entries(&self) -> Map<(Seq<char>, Seq<char>), Seq<char>> {
        backend_entries(self.backend)
    }

    /// The fallback locales, in the order they are tried.
    pub closed spec fn fallbacks(&self) -> Seq<Seq<char>> {
        strings_view(self.fallbacks@)
    }

    /// What `key` reads as in `locale` with this catalog.
    pub open spec fn text(&self, locale: Seq<char>, key: Seq<char>) -> Seq<char> {
        translation(self.entries(), self.fallbacks(), locale, key)
    }

    /// An empty catalog that falls back on `fallbacks`, tried in order.
    pub fn new(fallbacks: Vec<String>) -> (r: Catalog)
        ensures
            r.entries() == no_entries(),
            r.fallbacks() == strings_view(fallbacks@),
    {
        Catalog { backend: backend_new(), fallbacks }
    }

    /// Adds the translation of `key` in `locale`, replacing an earlier one.
    pub fn add(&mut self, locale: &str, key: &str, value: &str)
        ensures
            final(self).entries() == old(self).entries().insert((locale@, key@), value@),
            final(self).fallbacks() == old(self).fallbacks(),
    {
        backend_add(&mut self.backend, locale, key, value);
    }

    /// The translation of `key` under `locale` in the parent chain and fallbacks.
    fn find(&self, locale: &str, key: &str) -> (r: Option<String>)
        ensures
            match r {
                Some(v) => find_translation(self.entries(), self.fallbacks(), locale@, key@)
                    == Some(v@),
                None => find_translation(self.entries(), self.fallbacks(), locale@, key@) is None,
            },
    {
        match backend_translate(&self.backend, locale, key) {
            Some(v) => {
                return Some(v);
            },
            None => {},
        }
        let mut current: &str = locale;
        loop
            invariant
                !self.entries().contains_key((locale@, key@)),
                parent_lookup(self.entries(), current@, key@) == parent_lookup(
                    self.entries(),
                    locale@,
                    key@,
                ),
            ensures
                parent_lookup(self.entries(), locale@, key@) is None,
            decreases current@.len(),
        {
            match parent_of(current) {
                None => {
                    break ;
                },
                Some(p) => {
                    proof {
                        lemma_parent_shorter(current@);
                    }
                    match backend_translate(&self.backend, p, key) {
                        Some(v) => {
                            return Some(v);
                        },
                        None => {},
                    }
                    current = p;
                },
            }
        }
        let n = self.fallbacks.len();
        let mut i: usize = 0;
        assert(self.fallbacks().skip(0) =~= self.fallbacks());
        while i < n
            invariant
                n == self.fallbacks@.len(),
                i <= n,
                parent_lookup(self.entries(), locale@, key@) is None,
                !self.entries().contains_key((locale@, key@)),
                fallback_lookup(self.entries(), self.fallbacks().skip(i as int), key@)
                    == fallback_lookup(self.entries(), self.fallbacks(), key@),
            decreases n - i,
        {
            assert(self.fallbacks().skip(i as int).drop_first() =~= self.fallbacks().skip(
                i + 1,
            ));
            match backend_translate(&self.backend, self.fallbacks[i].as_str(), key) {
                Some(v) => {
                    return Some(v);
                },
                None => {},
            }
            i = i + 1;
        }
        None
    }

    /// What `key` reads as in `locale`.
    pub fn translate(&self, locale: &str, key: &str) -> (r: String)
        ensures
            r@ == self.text(locale@, key@),
    {
        match self.find(locale, key) {
            Some(v) => v,
            None => String::from_str(key),
        }
    }
}

proof fn lemma_parent_lookup_missing(
    entries: Map<(Seq<char>, Seq<char>), Seq<char>>,
    locale: Seq<char>,
    key: Seq<char>,
)
    requires
        forall|l: Seq<char>| !entries.contains_key((l, key)),
    ensures
        parent_lookup(entries, locale, key) is None,
    decreases locale.len(),
{
    if let Some(p) = parent_locale(locale) {
        lemma_parent_shorter(locale);
        lemma_parent_lookup_missing(entries, p, key);
    }
}

proof fn lemma_fallback_lookup_missing(
    entries: Map<(Seq<char>, Seq<char>), Seq<char>>,
    fallbacks: Seq<Seq<char>>,
    key: Seq<char>,
)
    requires
        forall|l: Seq<char>| !entries.contains_key((l, key)),
    ensures
        fallback_lookup(entries, fallbacks, key) is None,
    decreases fallbacks.len(),
{
    if fallbacks.len() > 0 {
        lemma_fallback_lookup_missing(entries, fallbacks.drop_first(), key);
    }
}

/// A translation that was just added is what its key then reads as in that locale, whatever
/// the catalog held before.
pub proof fn law_added_translation_reads_back(
    before: &Catalog,
    after: &Catalog,
    locale: Seq<char>,
    key: Seq<char>,
    value: Seq<char>,
)
    requires
        after.entries() == before.entries().insert((locale, key), value),
        after.fallbacks() == before.fallbacks(),
    ensures
        after.text(locale, key) == value,
{
}

/// A key that has no translation in any locale reads as the key itself.
pub proof fn law_untranslated_key_reads_as_itself(c: &Catalog, locale: Seq<char>, key: Seq<char>)
    requires
        forall|l: Seq<char>| !c.entries().contains_key((l, key)),
    ensures
        c.text(locale, key) == key,
{
    lemma_parent_lookup_missing(c.entries(), locale, key);
    lemma_fallback_lookup_missing(c.entries(), c.fallbacks(), key);
}

/// In a locale tag without `-` (such as `en` or `eo`), a key missing from the locale reads as
/// its translation in the first fallback locale that has one.
pub proof fn law_missing_key_falls_back(c: &Catalog, locale: Seq<char>, key: Seq<char>)
    requires
        !locale.contains('-'),
        !c.entries().contains_key((locale, key)),
    ensures
        find_translation(c.entries(), c.fallbacks(), locale, key) == fallback_lookup(
            c.entries(),
            c.fallbacks(),
            key,
        ),
{
    lemma_last_index_of_bounds(locale, '-');
    if last_index_of(locale, '-') >= 0 {
        assert(locale[last_index_of(locale, '-')] == '-');
    }
}

/// In a locale tag without `-`, a key missing from the locale reads as its translation in the
/// first fallback locale when that one has it.
pub proof fn law_first_fallback_is_used(c: &Catalog, locale: Seq<char>, key: Seq<char>)
    requires
        !locale.contains('-'),
        !c.entries().contains_key((locale, key)),
        c.fallbacks().len() > 0,
        c.entries().contains_key((c.fallbacks()[0], key)),
    ensures
        c.text(locale, key) == c.entries()[(c.fallbacks()[0], key)],
{
    law_missing_key_falls_back(c, locale, key);
}

/// A key missing from a regional locale (`lang-region`) reads as its translation in the bare
/// language when that one has it.
pub proof fn law_region_falls_back_to_language(
    c: &Catalog,
    lang: Seq<char>,
    region: Seq<char>,
    key: Seq<char>,
)
    requires
        !lang.contains('-'),
        !region.contains('-'),
        !c.entries().contains_key((lang + seq!['-'] + region, key)),
        c.entries().contains_key((lang, key)),
    ensures
        c.text(lang + seq!['-'] + region, key) == c.entries()[(lang, key)],
{
    let t = lang + seq!['-'] + region;
    lemma_last_index_of_bounds(t, '-');
    let i = last_index_of(t, '-');
    assert(t[lang.len() as int] == '-');
    if i > lang.len() {
        assert(t[i] == region[i - lang.len() - 1]);
        assert(region.contains('-'));
    }
    if 0 <= i < lang.len() {
        assert(t[i] == lang[i]);
        assert(lang.contains('-'));
    }
    assert(i == lang.len());
    assert(t.take(i) =~= lang);
    if lang.len() >= 2 && lang[lang.len() - 2] == '-' {
        assert(lang.contains('-'));
    }
    assert(trim_private_marker(lang) == lang);
    assert(parent_locale(t) == Some(lang));
}

// ---------------------------------------------------------------------------
// the per-request translator
// ---------------------------------------------------------------------------

/// The primary language of an `Accept-Language` header: its first entry, without parameters
/// or surrounding whitespace, up to the first `-`.
pub open spec fn accept_language_base(header: Seq<char>) -> Seq<char> {
    before_first(trim(before_first(before_first(header, ','), ';')), '-')
}

/// The locale a request is served in: a supported cookie value, else the supported primary
/// language of `Accept-Language`, else English.
pub open spec fn resolved_locale(cookie: Option<Seq<char>>, accept_language: Option<Seq<char>>) -> Seq<
    char,
> {
    if cookie is Some && is_supported_locale(cookie->0) {
        cookie->0
    } else if accept_language is Some && is_supported_locale(
        accept_language_base(accept_language->0),
    ) {
        accept_language_base(accept_language->0)
    } else {
        DEFAULT_LOCALE@
    }
}

/// A text without `c` has nothing cut off by taking what stands before the first `c`.
proof fn lemma_before_absent(s: Seq<char>, c: char)
    requires
        forall|k: int| 0 <= k < s.len() ==> s[k] != c,
    ensures
        before_first(s, c) == s,
{
    lemma_index_of_is(s, c, s.len() as int);
    assert(s.take(s.len() as int) =~= s);
}

/// `a`, then `c`, then anything: what stands before the first `c` is `a` when `a` holds no `c`.
proof fn lemma_before_separator(a: Seq<char>, c: char, rest: Seq<char>)
    requires
        forall|k: int| 0 <= k < a.len() ==> a[k] != c,
    ensures
        before_first(a + seq![c] + rest, c) == a,
{
    let h = a + seq![c] + rest;
    assert forall|k: int| 0 <= k < a.len() implies h[k] != c by {
        assert(h[k] == a[k]);
    }
    assert(h[a.len() as int] == c);
    lemma_index_of_is(h, c, a.len() as int);
    assert(h.take(a.len() as int) =~= a);
}

/// The primary language of an `Accept-Language` header is the language of its first entry: a
/// bare language tag reads as itself, and so does one followed by parameters or by further
/// entries, or by a region subtag.
pub proof fn law_primary_language_of_header(lang: Seq<char>, region: Seq<char>, rest: Seq<char>)
    requires
        lang.len() > 0,
        !is_white_space(lang[0]),
        !is_white_space(lang.last()),
        forall|k: int| 0 <= k < lang.len() ==> lang[k] != ',' && lang[k] != ';' && lang[k] != '-',
        forall|k: int| 0 <= k < region.len() ==> region[k] != ',' && region[k] != ';',
        region.len() > 0 ==> !is_white_space(region.last()),
    ensures
        accept_language_base(lang) == lang,
        accept_language_base(lang + seq![','] + rest) == lang,
        accept_language_base(lang + seq![';'] + rest) == lang,
        accept_language_base(lang + seq!['-'] + region) == lang,
{
    law_trim_keeps_clean_text(lang);
    lemma_before_absent(lang, ',');
    lemma_before_absent(lang, ';');
    lemma_before_absent(lang, '-');
    lemma_before_separator(lang, ',', rest);
    // parameters: the first `,` comes after the `;`
    let h = lang + seq![';'] + rest;
    let m = index_of(h, ',');
    lemma_index_of_bounds(h, ',');
    assert(h[lang.len() as int] == ';');
    if m <= lang.len() {
        assert(h[m] == lang[m] || m == lang.len());
    }
    assert(m > lang.len());
    let first = before_first(h, ',');
    assert(first =~= lang + seq![';'] + h.subrange(lang.len() as int + 1, m));
    lemma_before_separator(lang, ';', h.subrange(lang.len() as int + 1, m));
    // a region: the whole entry is one clean tag
    let t = lang + seq!['-'] + region;
    assert forall|k: int| 0 <= k < t.len() implies t[k] != ',' && t[k] != ';' by {
        if k < lang.len() {
            assert(t[k] == lang[k]);
        } else if k > lang.len() {
            assert(t[k] == region[k - lang.len() - 1]);
        }
    }
    lemma_before_absent(t, ',');
    lemma_before_absent(t, ';');
    assert(t[0] == lang[0]);
    if region.len() > 0 {
        assert(t.last() == region.last());
    } else {
        assert(t.last() == '-');
    }
    law_trim_keeps_clean_text(t);
    lemma_before_separator(lang, '-', region);
}

/// A locale cookie naming a supported locale always wins, whatever `Accept-Language` asks for.
pub proof fn law_cookie_wins(cookie: Seq<char>, accept_language: Option<Seq<char>>)
    requires
        cookie == "en"@ || cookie == "eo"@,
    ensures
        resolved_locale(Some(cookie), accept_language) == cookie,
{
    reveal_strlit("en");
}

/// Without a supported cookie, a supported primary language of `Accept-Language` is used, and
/// otherwise English; the locale served is always English or Esperanto.
pub proof fn law_header_then_english(cookie: Option<Seq<char>>, accept_language: Option<Seq<char>>)
    ensures
        resolved_locale(cookie, accept_language) == "en"@ || resolved_locale(cookie, accept_language)
            == "eo"@,
        !(cookie matches Some(c) && (c == "en"@ || c == "eo"@)) ==> (accept_language matches Some(
            h,
        ) ==> ((accept_language_base(h) == "en"@ || accept_language_base(h) == "eo"@) ==> resolved_locale(
            cookie,
            accept_language,
        ) == accept_language_base(h))),
        !(cookie matches Some(c) && (c == "en"@ || c == "eo"@)) && accept_language is None
            ==> resolved_locale(cookie, accept_language) == "en"@,
{
    reveal_strlit("en");
}

pub open spec fn opt_view(o: Option<&str>) -> Option<Seq<char>> {
    match o {
        Some(s) => Some(s@),
        None => None,
    }
}

/// Per-request translator handed to the page templates.
#[derive(Clone, Debug)]
pub struct Tr {
    locale: String,
}

impl Tr {
    /// The locale this translator reads messages in.
    pub closed spec fn locale_of(&self) -> Seq<char> {
        self.locale@
    }

    pub fn new(locale: &str) -> (r: Tr)
        ensures
            r.locale_of() == locale@,
    {
        Tr { locale: String::from_str(locale) }
    }

    /// English-only translator, for tests and non-request callers.
    pub fn english() -> (r: Tr)
        ensures
            r.locale_of() == DEFAULT_LOCALE@,
    {
        Self::new(DEFAULT_LOCALE)
    }

    pub fn locale(&self) -> (r: &str)
        ensures
            r@ == self.locale_of(),
    {
        self.locale.as_str()
    }

    /// Translates an arbitrary key.
    pub fn get(&self, catalog: &Catalog, key: &str) -> (r: String)
        ensures
            r@ == catalog.text(self.locale_of(), key@),
    {
        catalog.translate(self.locale.as_str(), key)
    }

    /// Resolves a request's locale from the value of its locale cookie and its
    /// `Accept-Language` header: the cookie when it names a supported locale, then the header's
    /// primary language when supported, then English.
    pub fn resolve(cookie_locale: Option<&str>, accept_language: Option<&str>) -> (r: Tr)
        ensures
            r.locale_of() == resolved_locale(opt_view(cookie_locale), opt_view(accept_language)),
            is_supported_locale(r.locale_of()),
            r.locale_of() == "en"@ || r.locale_of() == "eo"@,
            cookie_locale matches Some(c) ==> ((c@ == "en"@ || c@ == "eo"@) ==> r.locale_of()
                == c@),
            !(cookie_locale matches Some(c) && (c@ == "en"@ || c@ == "eo"@)) ==> (
            accept_language matches Some(h) ==> ((accept_language_base(h@) == "en"@
                || accept_language_base(h@) == "eo"@) ==> r.locale_of() == accept_language_base(
                h@))),
            !(cookie_locale matches Some(c) && (c@ == "en"@ || c@ == "eo"@)) ==> (
            accept_language is None ==> r.locale_of() == "en"@),
    {
        match cookie_locale {
            Some(c) => {
                if is_supported(c) {
                    return Self::new(c);
                }
            },
            None => {},
        }
        match accept_language {
            Some(header) => {
                let tag = trim_str(before_first_str(before_first_str(header, ','), ';'));
                let base = before_first_str(tag, '-');
                if is_supported(base) {
                    return Self::new(base);
                }
            },
            None => {},
        }
        Self::english()
    }

    pub fn site_title(&self, catalog: &Catalog) -> (r: String)
        ensures
            r@ == catalog.text(self.locale_of(), "site.title"@),
    {
        self.get(catalog, "site.title")
    }

    pub fn menu_log_in(&self, catalog: &Catalog) -> (r: String)
        ensures
            r@ == catalog.text(self.locale_of(), "menu.log_in"@),
    {
        self.get(catalog, "menu.log_in")
    }

    pub fn menu_log_out(&self, catalog: &Catalog) -> (r: String)
        ensures
            r@ == catalog.text(self.locale_of(), "menu.log_out"@),
    {
        self.get(catalog, "menu.log_out")
    }

    pub fn browse_title(&self, catalog: &Catalog) -> (r: String)
        ensures
            r@ == catalog.text(self.locale_of(), "browse.title"@),
    {
        self.get(catalog, "browse.title")
    }

    pub fn browse_search_label(&self, catalog: &Catalog) -> (r: String)
        ensures
            r@ == catalog.text(self.locale_of(), "browse.search_label"@),
    {
        self.get(catalog, "browse.search_label")
    }

    pub fn browse_search_placeholder(&self, catalog: &Catalog) -> (r: String)
        ensures
            r@ == catalog.text(self.locale_of(), "browse.search_placeholder"@),
    {
        self.get(catalog, "browse.search_placeholder")
    }

    pub fn browse_search_submit(&self, catalog: &Catalog) -> (r: String)
        ensures
            r@ == catalog.text(self.locale_of(), "browse.search_submit"@),
    {
        self.get(catalog, "browse.search_submit")
    }

    pub fn browse_empty(&self, catalog: &Catalog) -> (r: String)
        ensures
            r@ == catalog.text(self.locale_of(), "browse.empty"@),
    {
        self.get(catalog, "browse.empty")
    }

    pub fn browse_prev(&self, catalog: &Catalog) -> (r: String)
        ensures
            r@ == catalog.text(self.locale_of(), "browse.prev"@),
    {
        self.get(catalog, "browse.prev")
    }

    pub fn browse_next(&self, catalog: &Catalog) -> (r: String)
        ensures
            r@ == catalog.text(self.locale_of(), "browse.next"@),
    {
        self.get(catalog, "browse.next")
    }

    pub fn browse_add_new(&self, catalog: &Catalog) -> (r: String)
        ensures
            r@ == catalog.text(self.locale_of(), "browse.add_new"@),
    {
        self.get(catalog, "browse.add_new")
    }

    pub fn detail_edition(&self, catalog: &Catalog) -> (r: String)
        ensures
            r@ == catalog.text(self.locale_of(), "detail.edition"@),
    {
        self.get(catalog, "detail.edition")
    }

    pub fn detail_publisher(&self, catalog: &Catalog) -> (r: String)
        ensures
            r@ == catalog.text(self.locale_of(), "detail.publisher"@),
    {
        self.get(catalog, "detail.publisher")
    }

    pub fn detail_notes(&self, catalog: &Catalog) -> (r: String)
        ensures
            r@ == catalog.text(self.locale_of(), "detail.notes"@),
    {
        self.get(catalog, "detail.notes")
    }

    pub fn detail_tags(&self, catalog: &Catalog) -> (r: String)
        ensures
            r@ == catalog.text(self.locale_of(), "detail.tags"@),
    {
        self.get(catalog, "detail.tags")
    }

    pub fn detail_version_history(&self, catalog: &Catalog) -> (r: String)
        ensures
            r@ == catalog.text(self.locale_of(), "detail.version_history"@),
    {
        self.get(catalog, "detail.version_history")
    }

    pub fn new_title(&self, catalog: &Catalog) -> (r: String)
        ensures
            r@ == catalog.text(self.locale_of(), "new.title"@),
    {
        self.get(catalog, "new.title")
    }

    pub fn new_field_system_id(&self, catalog: &Catalog) -> (r: String)
        ensures
            r@ == catalog.text(self.locale_of(), "new.field_system_id"@),
    {
        self.get(catalog, "new.field_system_id")
    }

    pub fn new_field_name(&self, catalog: &Catalog) -> (r: String)
        ensures
            r@ == catalog.text(self.locale_of(), "new.field_name"@),
    {
        self.get(catalog, "new.field_name")
    }

    pub fn new_field_edition(&self, catalog: &Catalog) -> (r: String)
        ensures
            r@ == catalog.text(self.locale_of(), "new.field_edition"@),
    {
        self.get(catalog, "new.field_edition")
    }

    pub fn new_field_publisher(&self, catalog: &Catalog) -> (r: String)
        ensures
            r@ == catalog.text(self.locale_of(), "new.field_publisher"@),
    {
        self.get(catalog, "new.field_publisher")
    }

    pub fn new_field_notes(&self, catalog: &Catalog) -> (r: String)
        ensures
            r@ == catalog.text(self.locale_of(), "new.field_notes"@),
    {
        self.get(catalog, "new.field_notes")
    }

    pub fn new_field_tags(&self, catalog: &Catalog) -> (r: String)
        ensures
            r@ == catalog.text(self.locale_of(), "new.field_tags"@),
    {
        self.get(catalog, "new.field_tags")
    }

    pub fn new_submit(&self, catalog: &Catalog) -> (r: String)
        ensures
            r@ == catalog.text(self.locale_of(), "new.submit"@),
    {
        self.get(catalog, "new.submit")
    }

    pub fn new_not_authorized(&self, catalog: &Catalog) -> (r: String)
        ensures
            r@ == catalog.text(self.locale_of(), "new.not_authorized"@),
    {
        self.get(catalog, "new.not_authorized")
    }
}

} // verus!
