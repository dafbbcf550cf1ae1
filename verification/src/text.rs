//! Character-level text handling shared by the page and client logic: Unicode whitespace
//! trimming, splitting at a separator, decimal rendering of integers and the
//! `application/x-www-form-urlencoded` byte serializer.

use vstd::prelude::*;
use vstd::utf8::{encode_utf8, is_ascii_chars, is_ascii_chars_encode_utf8};

verus! {

// ---------------------------------------------------------------------------
// whitespace and trimming
// ---------------------------------------------------------------------------

/// The Unicode `White_Space` property, which is what `char::is_whitespace` and `str::trim` use.
pub open spec fn is_white_space(c: char) -> bool {
    let u = c as u32;
    ||| 0x9 <= u <= 0xD
    ||| u == 0x20
    ||| u == 0x85
    ||| u == 0xA0
    ||| u == 0x1680
    ||| 0x2000 <= u <= 0x200A
    ||| u == 0x2028
    ||| u == 0x2029
    ||| u == 0x202F
    ||| u == 0x205F
    ||| u == 0x3000
}

/// `s` without its leading whitespace.
pub open spec fn trim_start(s: Seq<char>) -> Seq<char>
    decreases s.len(),
{
    if s.len() > 0 && is_white_space(s[0]) {
        trim_start(s.drop_first())
    } else {
        s
    }
}

/// `s` without its trailing whitespace.
pub open spec fn trim_end(s: Seq<char>) -> Seq<char>
    decreases s.len(),
{
    if s.len() > 0 && is_white_space(s.last()) {
        trim_end(s.drop_last())
    } else {
        s
    }
}

/// `s` without leading and trailing whitespace (`str::trim`).
pub open spec fn trim(s: Seq<char>) -> Seq<char> {
    trim_end(trim_start(s))
}

pub fn is_white_space_char(c: char) -> (r: bool)
    ensures
        r == is_white_space(c),
{
    let u = c as u32;
    (0x9 <= u && u <= 0xD) || u == 0x20 || u == 0x85 || u == 0xA0 || u == 0x1680 || (0x2000 <= u
        && u <= 0x200A) || u == 0x2028 || u == 0x2029 || u == 0x202F || u == 0x205F || u == 0x3000
}

/// The slice of `s` with leading and trailing whitespace removed.
pub fn trim_str(s: &str) -> (r: &str)
    ensures
        r@ == trim(s@),
{
    let n = s.unicode_len();
    let mut i: usize = 0;
    assert(s@.subrange(0, n as int) =~= s@);
    while i < n && is_white_space_char(s.get_char(i))
        invariant
            n == s@.len(),
            i <= n,
            trim_start(s@.subrange(i as int, n as int)) == trim_start(s@),
        decreases n - i,
    {
        assert(s@.subrange(i as int, n as int).drop_first() =~= s@.subrange(i + 1, n as int));
        i = i + 1;
    }
    assert(trim_start(s@) == s@.subrange(i as int, n as int));
    let mut j: usize = n;
    while j > i && is_white_space_char(s.get_char(j - 1))
        invariant
            n == s@.len(),
            i <= j <= n,
            trim_start(s@) == s@.subrange(i as int, n as int),
            trim_end(s@.subrange(i as int, j as int)) == trim(s@),
        decreases j,
    {
        assert(s@.subrange(i as int, j as int).drop_last() =~= s@.subrange(i as int, j - 1));
        j = j - 1;
    }
    s.substring_char(i, j)
}

/// `s` without its trailing `/` characters (`trim_end_matches('/')`).
pub open spec fn trailing_slashes_removed(s: Seq<char>) -> Seq<char>
    decreases s.len(),
{
    if s.len() > 0 && s.last() == '/' {
        trailing_slashes_removed(s.drop_last())
    } else {
        s
    }
}

/// A URL with its trailing slashes removed ends without one, and removing them again changes
/// nothing.
pub proof fn law_trailing_slashes_removed(s: Seq<char>)
    ensures
        trailing_slashes_removed(s).len() == 0 || trailing_slashes_removed(s).last() != '/',
        trailing_slashes_removed(trailing_slashes_removed(s)) == trailing_slashes_removed(s),
    decreases s.len(),
{
    if s.len() > 0 && s.last() == '/' {
        law_trailing_slashes_removed(s.drop_last());
    }
}

/// Trimming keeps only characters of `s`: a character absent from `s` is absent from it.
pub proof fn lemma_trim_keeps_absent(s: Seq<char>, c: char)
    requires
        !s.contains(c),
    ensures
        !trim(s).contains(c),
{
    lemma_trim_start_keeps_absent(s, c);
    lemma_trim_end_keeps_absent(trim_start(s), c);
}

proof fn lemma_trim_start_keeps_absent(s: Seq<char>, c: char)
    requires
        !s.contains(c),
    ensures
        !trim_start(s).contains(c),
    decreases s.len(),
{
    if s.len() > 0 && is_white_space(s[0]) {
        assert forall|k: int| 0 <= k < s.drop_first().len() implies s.drop_first()[k] != c by {
            assert(s.drop_first()[k] == s[k + 1]);
        }
        lemma_trim_start_keeps_absent(s.drop_first(), c);
    }
}

proof fn lemma_trim_end_keeps_absent(s: Seq<char>, c: char)
    requires
        !s.contains(c),
    ensures
        !trim_end(s).contains(c),
    decreases s.len(),
{
    if s.len() > 0 && is_white_space(s.last()) {
        assert forall|k: int| 0 <= k < s.drop_last().len() implies s.drop_last()[k] != c by {
            assert(s.drop_last()[k] == s[k]);
        }
        lemma_trim_end_keeps_absent(s.drop_last(), c);
    }
}

proof fn lemma_trim_start_no_leading(s: Seq<char>)
    ensures
        trim_start(s).len() > 0 ==> !is_white_space(trim_start(s)[0]),
    decreases s.len(),
{
    if s.len() > 0 && is_white_space(s[0]) {
        lemma_trim_start_no_leading(s.drop_first());
    }
}

proof fn lemma_trim_end_is_prefix(s: Seq<char>)
    ensures
        trim_end(s).len() <= s.len(),
        trim_end(s) == s.take(trim_end(s).len() as int),
        trim_end(s).len() > 0 ==> !is_white_space(trim_end(s).last()),
    decreases s.len(),
{
    if s.len() > 0 && is_white_space(s.last()) {
        lemma_trim_end_is_prefix(s.drop_last());
        assert(s.drop_last().take(trim_end(s).len() as int) =~= s.take(trim_end(s).len() as int));
    } else {
        assert(s.take(s.len() as int) =~= s);
    }
}

/// A trimmed text has no whitespace at either end, and trimming it again changes nothing.
pub proof fn law_trim_leaves_no_outer_whitespace(s: Seq<char>)
    ensures
        trim(s).len() > 0 ==> !is_white_space(trim(s)[0]) && !is_white_space(trim(s).last()),
        trim(trim(s)) == trim(s),
{
    let ts = trim_start(s);
    let t = trim(s);
    lemma_trim_start_no_leading(s);
    lemma_trim_end_is_prefix(ts);
    if t.len() > 0 {
        assert(t[0] == ts[0]);
        assert(trim_start(t) == t);
        assert(trim_end(t) == t);
    } else {
        assert(trim_start(t) == t);
    }
}

/// Text with no whitespace at either end is left as it is by trimming, and whitespace at
/// either end is always removed.
pub proof fn law_trim_keeps_clean_text(s: Seq<char>)
    ensures
        (s.len() == 0 || (!is_white_space(s[0]) && !is_white_space(s.last()))) ==> trim(s) == s,
        s.len() > 0 && is_white_space(s[0]) ==> trim(s) == trim(s.drop_first()),
        s.len() > 0 && is_white_space(s.last()) ==> trim(s) == trim(s.drop_last()),
{
    if s.len() == 0 || (!is_white_space(s[0]) && !is_white_space(s.last())) {
        assert(trim_start(s) == s);
        assert(trim_end(s) == s);
    }
    if s.len() > 0 && is_white_space(s.last()) {
        lemma_trim_start_drops_last(s);
    }
}

/// Trimming the front and dropping a whitespace character from the back commute.
proof fn lemma_trim_start_drops_last(s: Seq<char>)
    requires
        s.len() > 0,
        is_white_space(s.last()),
    ensures
        trim_end(trim_start(s)) == trim_end(trim_start(s.drop_last())),
    decreases s.len(),
{
    if is_white_space(s[0]) {
        if s.len() == 1 {
            assert(s.drop_first().len() == 0);
            assert(trim_start(s) == trim_start(s.drop_first()));
            assert(trim_start(s.drop_last()) =~= Seq::<char>::empty());
        } else {
            assert(s.drop_first().last() == s.last());
            lemma_trim_start_drops_last(s.drop_first());
            assert(s.drop_first().drop_last() =~= s.drop_last().drop_first());
        }
    } else {
        assert(trim_start(s) == s);
        assert(trim_start(s.drop_last()) == s.drop_last());
    }
}

/// A copy of `s` without its trailing `/` characters.
pub fn strip_trailing_slashes(s: &str) -> (r: String)
    ensures
        r@ == trailing_slashes_removed(s@),
{
    let n = s.unicode_len();
    let mut j: usize = n;
    assert(s@.subrange(0, n as int) =~= s@);
    while j > 0 && s.get_char(j - 1) == '/'
        invariant
            n == s@.len(),
            j <= n,
            trailing_slashes_removed(s@.subrange(0, j as int)) == trailing_slashes_removed(s@),
        decreases j,
    {
        assert(s@.subrange(0, j as int).drop_last() =~= s@.subrange(0, j - 1));
        j = j - 1;
    }
    String::from_str(s.substring_char(0, j))
}

/// Whether two strings hold the same characters.
pub fn str_eq(a: &str, b: &str) -> (r: bool)
    ensures
        r == (a@ == b@),
{
    let n = a.unicode_len();
    if n != b.unicode_len() {
        return false;
    }
    let mut i: usize = 0;
    while i < n
        invariant
            n == a@.len(),
            n == b@.len(),
            i <= n,
            forall|k: int| 0 <= k < i ==> a@[k] == b@[k],
        decreases n - i,
    {
        if a.get_char(i) != b.get_char(i) {
            return false;
        }
        i = i + 1;
    }
    assert(a@ =~= b@);
    true
}

// ---------------------------------------------------------------------------
// separators
// ---------------------------------------------------------------------------

/// Index of the first `c` in `s`, or `s.len()` when there is none.
pub open spec fn index_of(s: Seq<char>, c: char) -> int
    decreases s.len(),
{
    if s.len() == 0 {
        0
    } else if s[0] == c {
        0
    } else {
        1 + index_of(s.drop_first(), c)
    }
}

/// The first piece of `s.split(c)`: everything before the first `c`.
pub open spec fn before_first(s: Seq<char>, c: char) -> Seq<char> {
    s.take(index_of(s, c))
}

pub proof fn lemma_index_of_bounds(s: Seq<char>, c: char)
    ensures
        0 <= index_of(s, c) <= s.len(),
        index_of(s, c) < s.len() ==> s[index_of(s, c)] == c,
        forall|k: int| 0 <= k < index_of(s, c) ==> s[k] != c,
    decreases s.len(),
{
    if s.len() > 0 && s[0] != c {
        lemma_index_of_bounds(s.drop_first(), c);
        assert forall|k: int| 0 <= k < index_of(s, c) implies s[k] != c by {
            if k > 0 {
                assert(s[k] == s.drop_first()[k - 1]);
            }
        }
    }
}

/// `m` is the index of the first `c` when no `c` comes before it and it is a `c` or the end.
pub proof fn lemma_index_of_is(s: Seq<char>, c: char, m: int)
    requires
        0 <= m <= s.len(),
        forall|k: int| 0 <= k < m ==> s[k] != c,
        m < s.len() ==> s[m] == c,
    ensures
        index_of(s, c) == m,
    decreases s.len(),
{
    if s.len() > 0 && s[0] != c {
        assert forall|k: int| 0 <= k < m - 1 implies s.drop_first()[k] != c by {
            assert(s[k + 1] != c);
        }
        lemma_index_of_is(s.drop_first(), c, m - 1);
    }
}

/// Position of the first `c` in `s` at or after `from`, or `s@.len()`.
pub fn find_char_from(s: &str, c: char, from: usize) -> (r: usize)
    requires
        from <= s@.len(),
    ensures
        from <= r <= s@.len(),
        r - from == index_of(s@.subrange(from as int, s@.len() as int), c),
        r < s@.len() ==> s@[r as int] == c,
        forall|k: int| from <= k < r ==> s@[k] != c,
{
    let n = s.unicode_len();
    let mut j = from;
    while j < n && s.get_char(j) != c
        invariant
            n == s@.len(),
            from <= j <= n,
            forall|k: int| from <= k < j ==> s@[k] != c,
        decreases n - j,
    {
        j = j + 1;
    }
    proof {
        let t = s@.subrange(from as int, n as int);
        lemma_index_of_is(t, c, j - from);
    }
    j
}

/// The slice of `s` before the first `c` (the first item of `s.split(c)`).
pub fn before_first_str(s: &str, c: char) -> (r: &str)
    ensures
        r@ == before_first(s@, c),
{
    let n = s.unicode_len();
    let i = find_char_from(s, c, 0);
    assert(s@.subrange(0, n as int) =~= s@);
    s.substring_char(0, i)
}

// ---------------------------------------------------------------------------
// decimal numbers
// ---------------------------------------------------------------------------

pub open spec fn digit_char(d: nat) -> char {
    if d == 0 {
        '0'
    } else if d == 1 {
        '1'
    } else if d == 2 {
        '2'
    } else if d == 3 {
        '3'
    } else if d == 4 {
        '4'
    } else if d == 5 {
        '5'
    } else if d == 6 {
        '6'
    } else if d == 7 {
        '7'
    } else if d == 8 {
        '8'
    } else {
        '9'
    }
}

/// The decimal representation of `n`, without sign or leading zeros (what `{}` prints).
pub open spec fn decimal(n: nat) -> Seq<char>
    decreases n,
{
    if n < 10 {
        seq![digit_char(n)]
    } else {
        decimal(n / 10).push(digit_char(n % 10))
    }
}

/// The one-character string of the digit `d`.
fn digit_str(d: u64) -> (r: &'static str)
    requires
        d < 10,
    ensures
        r@ == seq![digit_char(d as nat)],
{
    if d == 0 {
        proof {
            reveal_strlit("0");
        }
        "0"
    } else if d == 1 {
        proof {
            reveal_strlit("1");
        }
        "1"
    } else if d == 2 {
        proof {
            reveal_strlit("2");
        }
        "2"
    } else if d == 3 {
        proof {
            reveal_strlit("3");
        }
        "3"
    } else if d == 4 {
        proof {
            reveal_strlit("4");
        }
        "4"
    } else if d == 5 {
        proof {
            reveal_strlit("5");
        }
        "5"
    } else if d == 6 {
        proof {
            reveal_strlit("6");
        }
        "6"
    } else if d == 7 {
        proof {
            reveal_strlit("7");
        }
        "7"
    } else if d == 8 {
        proof {
            reveal_strlit("8");
        }
        "8"
    } else {
        proof {
            reveal_strlit("9");
        }
        "9"
    }
}

fn push_decimal(n: u64, out: &mut String)
    ensures
        final(out)@ == old(out)@ + decimal(n as nat),
    decreases n,
{
    if n >= 10 {
        push_decimal(n / 10, out);
    }
    out.append(digit_str(n % 10));
    proof {
        if n >= 10 {
            assert(decimal(n as nat) == decimal((n / 10) as nat).push(digit_char((n % 10) as nat)));
        }
        assert(final(out)@ =~= old(out)@ + decimal(n as nat));
    }
}

/// Every character of a decimal number is an ASCII digit.
pub proof fn lemma_decimal_digits(n: nat)
    ensures
        forall|k: int| 0 <= k < decimal(n).len() ==> '0' <= #[trigger] decimal(n)[k] <= '9',
    decreases n,
{
    if n >= 10 {
        lemma_decimal_digits(n / 10);
        let d = decimal(n);
        assert forall|k: int| 0 <= k < d.len() implies '0' <= #[trigger] d[k] <= '9' by {
            if k < d.len() - 1 {
                assert(d[k] == decimal(n / 10)[k]);
            }
        }
    }
}

/// `n` in decimal (`n.to_string()`).
pub fn decimal_string(n: u64) -> (r: String)
    ensures
        r@ == decimal(n as nat),
{
    let mut s = String::new();
    push_decimal(n, &mut s);
    assert(s@ =~= decimal(n as nat));
    s
}

// ---------------------------------------------------------------------------
// application/x-www-form-urlencoded
// ---------------------------------------------------------------------------

/// Bytes that the form-urlencoded serializer copies as they are.
pub open spec fn form_unchanged(b: u8) -> bool {
    ||| b == 0x2A
    ||| b == 0x2D
    ||| b == 0x2E
    ||| 0x30 <= b <= 0x39
    ||| 0x41 <= b <= 0x5A
    ||| b == 0x5F
    ||| 0x61 <= b <= 0x7A
}

pub open spec fn hex_upper(d: nat) -> char {
    if d < 10 {
        digit_char(d)
    } else if d == 10 {
        'A'
    } else if d == 11 {
        'B'
    } else if d == 12 {
        'C'
    } else if d == 13 {
        'D'
    } else if d == 14 {
        'E'
    } else {
        'F'
    }
}

/// How the serializer writes one byte: unchanged, `+` for a space, `%XX` otherwise.
pub open spec fn form_encode_byte(b: u8) -> Seq<char> {
    if form_unchanged(b) {
        seq![b as char]
    } else if b == 0x20 {
        seq!['+']
    } else {
        seq!['%', hex_upper((b / 16) as nat), hex_upper((b % 16) as nat)]
    }
}

/// The `application/x-www-form-urlencoded` byte serialization of `bytes`.
pub open spec fn form_encode(bytes: Seq<u8>) -> Seq<char>
    decreases bytes.len(),
{
    if bytes.len() == 0 {
        Seq::empty()
    } else {
        form_encode_byte(bytes[0]) + form_encode(bytes.drop_first())
    }
}

/// `s` percent-encoded for a query string value: the serialization of its UTF-8 bytes.
pub open spec fn urlencoded(s: Seq<char>) -> Seq<char> {
    form_encode(encode_utf8(s))
}

/// Calls `url::form_urlencoded::byte_serialize` on the UTF-8 bytes of `s` and joins the pieces
/// it yields. Its contract restates that serializer: bytes `*-._`, ASCII digits and letters are
/// copied, a space becomes `+`, every other byte becomes `%` and two upper-case hex digits.
#[verifier::external_body]
pub(crate) fn urlencode(s: &str) -> (r: String)
    ensures
        r@ == urlencoded(s@),
{
    url::form_urlencoded::byte_serialize(s.as_bytes()).collect()
}


// ---------------------------------------------------------------------------
// application/x-www-form-urlencoded parsing
// ---------------------------------------------------------------------------

pub open spec fn is_hex_byte(b: u8) -> bool {
    (0x30 <= b <= 0x39) || (0x41 <= b <= 0x46) || (0x61 <= b <= 0x66)
}

pub open spec fn hex_byte_value(b: u8) -> nat {
    if b <= 0x39 {
        (b - 0x30) as nat
    } else if b <= 0x46 {
        (b - 0x41 + 10) as nat
    } else {
        (b - 0x61 + 10) as nat
    }
}

/// How the form-urlencoded parser decodes the bytes of one name or value: `+` is a space, `%`
/// and two hex digits is the byte they spell, any other byte is itself.
pub open spec fn form_decode(b: Seq<u8>) -> Seq<u8>
    decreases b.len(),
{
    if b.len() == 0 {
        Seq::empty()
    } else if b[0] == 0x2B {
        seq![0x20u8] + form_decode(b.drop_first())
    } else if b[0] == 0x25 && b.len() >= 3 && is_hex_byte(b[1]) && is_hex_byte(b[2]) {
        seq![(hex_byte_value(b[1]) * 16 + hex_byte_value(b[2])) as u8] + form_decode(b.skip(3))
    } else {
        seq![b[0]] + form_decode(b.drop_first())
    }
}

/// Index of the first `x` in `b`, or `b.len()`.
pub open spec fn byte_index_of(b: Seq<u8>, x: u8) -> int
    decreases b.len(),
{
    if b.len() == 0 {
        0
    } else if b[0] == x {
        0
    } else {
        1 + byte_index_of(b.drop_first(), x)
    }
}

/// The pieces of `b` between the bytes `x`.
pub open spec fn split_bytes(b: Seq<u8>, x: u8) -> Seq<Seq<u8>>
    decreases b.len(),
{
    let i = byte_index_of(b, x);
    if i >= b.len() {
        seq![b]
    } else {
        proof {
            lemma_byte_index_of_bounds(b, x);
        }
        seq![b.take(i)] + split_bytes(b.skip(i + 1), x)
    }
}

/// One `name=value` piece, decoded; a piece without `=` is a name with an empty value.
pub open spec fn form_pair(piece: Seq<u8>) -> (Seq<u8>, Seq<u8>) {
    let i = byte_index_of(piece, 0x3D);
    (
        form_decode(piece.take(i)),
        if i < piece.len() {
            form_decode(piece.skip(i + 1))
        } else {
            Seq::empty()
        },
    )
}

/// The pairs of the non-empty pieces, in order.
pub open spec fn form_pairs_of(pieces: Seq<Seq<u8>>) -> Seq<(Seq<u8>, Seq<u8>)>
    decreases pieces.len(),
{
    if pieces.len() == 0 {
        Seq::empty()
    } else {
        (if pieces[0].len() == 0 {
            Seq::empty()
        } else {
            seq![form_pair(pieces[0])]
        }) + form_pairs_of(pieces.drop_first())
    }
}

/// What `url::form_urlencoded::parse` reads from a query's bytes, as the bytes of each name and
/// value (before they are read as UTF-8): the `&`-separated non-empty pieces, each split at
/// its first `=`.
pub open spec fn form_parse(query: Seq<u8>) -> Seq<(Seq<u8>, Seq<u8>)> {
    form_pairs_of(split_bytes(query, 0x26))
}

pub proof fn lemma_byte_index_of_bounds(b: Seq<u8>, x: u8)
    ensures
        0 <= byte_index_of(b, x) <= b.len(),
    decreases b.len(),
{
    if b.len() > 0 && b[0] != x {
        lemma_byte_index_of_bounds(b.drop_first(), x);
    }
}

pub proof fn lemma_byte_index_of_is(b: Seq<u8>, x: u8, m: int)
    requires
        0 <= m <= b.len(),
        forall|k: int| 0 <= k < m ==> b[k] != x,
        m < b.len() ==> b[m] == x,
    ensures
        byte_index_of(b, x) == m,
    decreases b.len(),
{
    if b.len() > 0 && b[0] != x {
        assert forall|k: int| 0 <= k < m - 1 implies b.drop_first()[k] != x by {
            assert(b[k + 1] != x);
        }
        lemma_byte_index_of_is(b.drop_first(), x, m - 1);
    }
}

/// The UTF-8 encoding of a concatenation is the concatenation of the encodings.
pub proof fn lemma_encode_utf8_concat(a: Seq<char>, b: Seq<char>)
    ensures
        encode_utf8(a + b) == encode_utf8(a) + encode_utf8(b),
    decreases a.len(),
{
    if a.len() == 0 {
        assert(a + b =~= b);
        assert(encode_utf8(a) + encode_utf8(b) =~= encode_utf8(b));
    } else {
        assert((a + b).drop_first() =~= a.drop_first() + b);
        lemma_encode_utf8_concat(a.drop_first(), b);
        assert(encode_utf8(a + b) =~= encode_utf8(a) + encode_utf8(b));
    }
}

/// The bytes of ASCII text are its characters, one byte each.
pub proof fn lemma_ascii_bytes(cs: Seq<char>)
    requires
        is_ascii_chars(cs),
    ensures
        encode_utf8(cs) == cs.map_values(|c: char| c as u8),
{
    is_ascii_chars_encode_utf8(cs);
    assert(encode_utf8(cs) =~= cs.map_values(|c: char| c as u8));
}

/// The bytes of the serializer's output for one byte.
pub open spec fn encoded_byte_bytes(x: u8) -> Seq<u8> {
    encode_utf8(form_encode_byte(x))
}

proof fn lemma_hex_upper(d: nat)
    requires
        d < 16,
    ensures
        '\0' <= hex_upper(d) <= '\u{7f}',
        is_hex_byte(hex_upper(d) as u8),
        hex_byte_value(hex_upper(d) as u8) == d,
        hex_upper(d) as u8 != 0x26 && hex_upper(d) as u8 != 0x3D && hex_upper(d) as u8 != 0x2B
            && hex_upper(d) as u8 != 0x25,
{
}

proof fn lemma_encoded_byte(x: u8)
    ensures
        form_unchanged(x) ==> encoded_byte_bytes(x) == seq![x],
        !form_unchanged(x) && x == 0x20 ==> encoded_byte_bytes(x) == seq![0x2Bu8],
        !form_unchanged(x) && x != 0x20 ==> encoded_byte_bytes(x) == seq![
            0x25u8,
            hex_upper((x / 16) as nat) as u8,
            hex_upper((x % 16) as nat) as u8,
        ],
        form_decode(encoded_byte_bytes(x)) == seq![x],
        !encoded_byte_bytes(x).contains(0x26u8),
        !encoded_byte_bytes(x).contains(0x3Du8),
{
    let cs = form_encode_byte(x);
    if form_unchanged(x) {
        assert(is_ascii_chars(cs));
        lemma_ascii_bytes(cs);
        assert(encoded_byte_bytes(x) =~= seq![x]);
        assert(seq![x].drop_first() =~= Seq::<u8>::empty());
        assert(form_decode(Seq::<u8>::empty()) == Seq::<u8>::empty());
        assert(seq![x] + Seq::<u8>::empty() =~= seq![x]);
        assert(form_decode(seq![x]) =~= seq![x]);
    } else if x == 0x20 {
        assert(is_ascii_chars(cs));
        lemma_ascii_bytes(cs);
        assert(encoded_byte_bytes(x) =~= seq![0x2Bu8]);
        assert(seq![0x2Bu8].drop_first() =~= Seq::<u8>::empty());
        assert(form_decode(Seq::<u8>::empty()) == Seq::<u8>::empty());
        assert(seq![0x20u8] + Seq::<u8>::empty() =~= seq![x]);
        assert(form_decode(seq![0x2Bu8]) =~= seq![x]);
    } else {
        lemma_hex_upper((x / 16) as nat);
        lemma_hex_upper((x % 16) as nat);
        assert(is_ascii_chars(cs));
        lemma_ascii_bytes(cs);
        let e = seq![0x25u8, hex_upper((x / 16) as nat) as u8, hex_upper((x % 16) as nat) as u8];
        assert(encoded_byte_bytes(x) =~= e);
        assert(e.skip(3) =~= Seq::<u8>::empty());
        assert(form_decode(Seq::<u8>::empty()) == Seq::<u8>::empty());
        assert((x / 16) * 16 + x % 16 == x);
        let v = (hex_byte_value(e[1]) * 16 + hex_byte_value(e[2])) as u8;
        assert(v == x);
        assert(seq![v] + Seq::<u8>::empty() =~= seq![x]);
        assert(form_decode(e) =~= seq![x]);
    }
}

/// The serializer's output, as bytes.
pub open spec fn urlencoded_bytes(b: Seq<u8>) -> Seq<u8> {
    encode_utf8(form_encode(b))
}

/// Decoding what the serializer produced gives the bytes back, and the output holds no `&` and
/// no `=`.
pub proof fn lemma_form_roundtrip(b: Seq<u8>)
    ensures
        form_decode(urlencoded_bytes(b)) == b,
        !urlencoded_bytes(b).contains(0x26u8),
        !urlencoded_bytes(b).contains(0x3Du8),
    decreases b.len(),
{
    if b.len() == 0 {
        assert(form_encode(b) =~= Seq::<char>::empty());
        assert(urlencoded_bytes(b) =~= Seq::<u8>::empty());
    } else {
        let x = b[0];
        lemma_form_roundtrip(b.drop_first());
        lemma_encoded_byte(x);
        lemma_encode_utf8_concat(form_encode_byte(x), form_encode(b.drop_first()));
        let e = encoded_byte_bytes(x);
        let r = urlencoded_bytes(b.drop_first());
        assert(urlencoded_bytes(b) == e + r);
        lemma_decode_after(x, r);
        assert(b =~= seq![x] + b.drop_first());
        assert forall|k: int| 0 <= k < (e + r).len() implies (e + r)[k] != 0x26u8 && (e + r)[k]
            != 0x3Du8 by {
            if k < e.len() {
                assert(e[k] == (e + r)[k]);
            } else {
                assert(r[k - e.len()] == (e + r)[k]);
            }
        }
    }
}

proof fn lemma_decode_after(x: u8, r: Seq<u8>)
    ensures
        form_decode(encoded_byte_bytes(x) + r) == seq![x] + form_decode(r),
{
    lemma_encoded_byte(x);
    let e = encoded_byte_bytes(x);
    if form_unchanged(x) || x == 0x20 {
        assert((e + r).drop_first() =~= r);
    } else {
        lemma_hex_upper((x / 16) as nat);
        lemma_hex_upper((x % 16) as nat);
        assert((e + r).skip(3) =~= r);
    }
}

/// Bytes without `+` and `%` decode to themselves.
pub proof fn lemma_form_decode_plain(b: Seq<u8>)
    requires
        !b.contains(0x2Bu8),
        !b.contains(0x25u8),
    ensures
        form_decode(b) == b,
    decreases b.len(),
{
    if b.len() > 0 {
        assert(b[0] != 0x2Bu8 && b[0] != 0x25u8);
        assert forall|k: int| 0 <= k < b.drop_first().len() implies b.drop_first()[k] != 0x2Bu8
            && b.drop_first()[k] != 0x25u8 by {
            assert(b.drop_first()[k] == b[k + 1]);
        }
        lemma_form_decode_plain(b.drop_first());
        assert(b =~= seq![b[0]] + b.drop_first());
    }
}

/// A piece without `&`, followed by `&` and more, parses as that piece's pair and then the rest.
pub proof fn lemma_form_parse_cons(a: Seq<u8>, rest: Seq<u8>)
    requires
        a.len() > 0,
        !a.contains(0x26u8),
    ensures
        form_parse(a + seq![0x26u8] + rest) == seq![form_pair(a)] + form_parse(rest),
{
    let q = a + seq![0x26u8] + rest;
    lemma_byte_index_of_is(q, 0x26u8, a.len() as int);
    assert(q.take(a.len() as int) =~= a);
    assert(q.skip(a.len() as int + 1) =~= rest);
    assert(split_bytes(q, 0x26u8) == seq![a] + split_bytes(rest, 0x26u8));
    assert((seq![a] + split_bytes(rest, 0x26u8)).drop_first() =~= split_bytes(rest, 0x26u8));
}

/// A last piece without `&` parses as that piece's pair.
pub proof fn lemma_form_parse_last(a: Seq<u8>)
    requires
        a.len() > 0,
        !a.contains(0x26u8),
    ensures
        form_parse(a) == seq![form_pair(a)],
{
    lemma_byte_index_of_is(a, 0x26u8, a.len() as int);
    assert(split_bytes(a, 0x26u8) == seq![a]);
    assert(seq![a].drop_first() =~= Seq::<Seq<u8>>::empty());
    assert(form_pairs_of(Seq::<Seq<u8>>::empty()) == Seq::<(Seq<u8>, Seq<u8>)>::empty());
    assert(seq![form_pair(a)] + Seq::<(Seq<u8>, Seq<u8>)>::empty() =~= seq![form_pair(a)]);
}

/// A `name=value` piece whose name holds no `=`, `+` or `%` parses as that name and the
/// decoded value.
pub proof fn lemma_form_pair_of(name: Seq<u8>, value: Seq<u8>)
    requires
        !name.contains(0x3Du8),
        !name.contains(0x2Bu8),
        !name.contains(0x25u8),
    ensures
        form_pair(name + seq![0x3Du8] + value) == (name, form_decode(value)),
{
    let p = name + seq![0x3Du8] + value;
    lemma_byte_index_of_is(p, 0x3Du8, name.len() as int);
    assert(p.take(name.len() as int) =~= name);
    assert(p.skip(name.len() as int + 1) =~= value);
    lemma_form_decode_plain(name);
}

} // verus!
