//! Character-level helpers on strings: Unicode whitespace trimming, ASCII
//! lowercasing and the conversions between `&str`, `String` and `Vec<char>`.
use vstd::prelude::*;

verus! {

/// The characters that carry the Unicode `White_Space` property, which is
/// what `char::is_whitespace` (and so `str::trim`) tests for.
pub open spec fn is_space(c: char) -> bool {
    let u = c as u32;
    ||| 0x9 <= u <= 0xd
    ||| u == 0x20
    ||| u == 0x85
    ||| u == 0xa0
    ||| u == 0x1680
    ||| 0x2000 <= u <= 0x200a
    ||| u == 0x2028
    ||| u == 0x2029
    ||| u == 0x202f
    ||| u == 0x205f
    ||| u == 0x3000
}

/// The characters that a strip removes from both ends of a string.
pub enum Strip {
    Whitespace,
    Slash,
}

/// `c` is one of the characters that `class` strips.
pub open spec fn stripped_by(c: char, class: Strip) -> bool {
    match class {
        Strip::Whitespace => is_space(c),
        Strip::Slash => c == '/',
    }
}

/// `s` without its leading characters of `class`.
pub open spec fn strip_start(s: Seq<char>, class: Strip) -> Seq<char>
    decreases s.len(),
{
    if s.len() > 0 && stripped_by(s[0], class) {
        strip_start(s.drop_first(), class)
    } else {
        s
    }
}

/// `s` without its trailing characters of `class`.
pub open spec fn strip_end(s: Seq<char>, class: Strip) -> Seq<char>
    decreases s.len(),
{
    if s.len() > 0 && stripped_by(s.last(), class) {
        strip_end(s.drop_last(), class)
    } else {
        s
    }
}

/// `s` without the characters of `class` at either end (`str::trim_matches`).
pub open spec fn strip(s: Seq<char>, class: Strip) -> Seq<char> {
    strip_end(strip_start(s, class), class)
}

/// `s` without leading and trailing whitespace, as `str::trim` gives it.
pub open spec fn trim(s: Seq<char>) -> Seq<char> {
    strip(s, Strip::Whitespace)
}

/// ASCII upper-case letters mapped to lower case; every other character kept.
pub open spec fn ascii_lower(c: char) -> char {
    if 'A' <= c <= 'Z' {
        ((c as u32) + 32) as char
    } else {
        c
    }
}

/// `str::to_ascii_lowercase` on a sequence of characters.
pub open spec fn ascii_lower_seq(s: Seq<char>) -> Seq<char> {
    s.map_values(|c: char| ascii_lower(c))
}

/// Neither end of `t` is a character of `class`.
pub open spec fn no_stripped_ends(t: Seq<char>, class: Strip) -> bool {
    t.len() == 0 || (!stripped_by(t[0], class) && !stripped_by(t.last(), class))
}

proof fn lemma_strip_start_head(s: Seq<char>, class: Strip)
    ensures
        strip_start(s, class).len() > 0 ==> !stripped_by(strip_start(s, class)[0], class),
    decreases s.len(),
{
    if s.len() > 0 && stripped_by(s[0], class) {
        lemma_strip_start_head(s.drop_first(), class);
    }
}

proof fn lemma_strip_end_prefix(u: Seq<char>, class: Strip)
    ensures
        strip_end(u, class).len() <= u.len(),
        forall|i: int| 0 <= i < strip_end(u, class).len() ==> strip_end(u, class)[i] == u[i],
        strip_end(u, class).len() > 0 ==> !stripped_by(strip_end(u, class).last(), class),
    decreases u.len(),
{
    if u.len() > 0 && stripped_by(u.last(), class) {
        lemma_strip_end_prefix(u.drop_last(), class);
        assert forall|i: int| 0 <= i < strip_end(u, class).len() implies strip_end(u, class)[i]
            == u[i] by {
            assert(u.drop_last()[i] == u[i]);
        }
    }
}

/// What a strip leaves has no strippable character at either end.
pub proof fn lemma_strip_ends(s: Seq<char>, class: Strip)
    ensures
        no_stripped_ends(strip(s, class), class),
{
    lemma_strip_start_head(s, class);
    lemma_strip_end_prefix(strip_start(s, class), class);
}

/// A text with no strippable character at either end is its own strip.
pub proof fn lemma_strip_keeps(t: Seq<char>, class: Strip)
    requires
        no_stripped_ends(t, class),
    ensures
        strip(t, class) == t,
{
    assert(strip_start(t, class) == t);
    assert(strip_end(t, class) == t);
}

/// Stripping twice strips no more than stripping once.
pub proof fn lemma_strip_idempotent(s: Seq<char>, class: Strip)
    ensures
        strip(strip(s, class), class) == strip(s, class),
{
    lemma_strip_ends(s, class);
    lemma_strip_keeps(strip(s, class), class);
}

/// ASCII lowercasing keeps every character's whitespace-ness, so a trimmed
/// text stays trimmed when lower-cased.
pub proof fn lemma_lower_keeps_trimmed(t: Seq<char>)
    requires
        no_stripped_ends(t, Strip::Whitespace),
    ensures
        no_stripped_ends(ascii_lower_seq(t), Strip::Whitespace),
        trim(ascii_lower_seq(t)) == ascii_lower_seq(t),
{
    lemma_strip_keeps(ascii_lower_seq(t), Strip::Whitespace);
}

/// Lower-casing a lower-cased text changes nothing.
pub proof fn lemma_lower_idempotent(t: Seq<char>)
    ensures
        ascii_lower_seq(ascii_lower_seq(t)) == ascii_lower_seq(t),
{
    assert(ascii_lower_seq(ascii_lower_seq(t)) =~= ascii_lower_seq(t));
}

/// ASCII lower-case letters mapped to upper case; every other character kept.
pub open spec fn ascii_upper(c: char) -> char {
    if 'a' <= c <= 'z' {
        ((c as u32) - 32) as char
    } else {
        c
    }
}

/// `str::to_ascii_uppercase` on a sequence of characters.
pub open spec fn ascii_upper_seq(s: Seq<char>) -> Seq<char> {
    s.map_values(|c: char| ascii_upper(c))
}

proof fn lemma_upper_char(c: char)
    ensures
        is_space(ascii_upper(c)) == is_space(c),
        ascii_lower(ascii_upper(c)) == ascii_lower(c),
{
    if 'a' <= c <= 'z' {
        let u = ascii_upper(c);
        assert(u as u32 == (c as u32) - 32);
        assert(((u as u32) + 32) as char == c);
    }
}

proof fn lemma_upper_strip_start(s: Seq<char>)
    ensures
        strip_start(ascii_upper_seq(s), Strip::Whitespace) == ascii_upper_seq(
            strip_start(s, Strip::Whitespace),
        ),
    decreases s.len(),
{
    if s.len() > 0 {
        lemma_upper_char(s[0]);
        assert(ascii_upper_seq(s)[0] == ascii_upper(s[0]));
        if is_space(s[0]) {
            assert(ascii_upper_seq(s).drop_first() =~= ascii_upper_seq(s.drop_first()));
            lemma_upper_strip_start(s.drop_first());
        }
    }
}

proof fn lemma_upper_strip_end(s: Seq<char>)
    ensures
        strip_end(ascii_upper_seq(s), Strip::Whitespace) == ascii_upper_seq(
            strip_end(s, Strip::Whitespace),
        ),
    decreases s.len(),
{
    if s.len() > 0 {
        lemma_upper_char(s.last());
        assert(ascii_upper_seq(s).last() == ascii_upper(s.last()));
        if is_space(s.last()) {
            assert(ascii_upper_seq(s).drop_last() =~= ascii_upper_seq(s.drop_last()));
            lemma_upper_strip_end(s.drop_last());
        }
    }
}

/// Trimming and ASCII upper-casing commute: upper-casing keeps every
/// character's whitespace-ness.
pub proof fn lemma_upper_trim(s: Seq<char>)
    ensures
        trim(ascii_upper_seq(s)) == ascii_upper_seq(trim(s)),
{
    lemma_upper_strip_start(s);
    lemma_upper_strip_end(strip_start(s, Strip::Whitespace));
}

/// Lower-casing an upper-cased text gives the text lower-cased.
pub proof fn lemma_lower_of_upper(t: Seq<char>)
    ensures
        ascii_lower_seq(ascii_upper_seq(t)) == ascii_lower_seq(t),
{
    assert forall|i: int| 0 <= i < t.len() implies ascii_lower_seq(ascii_upper_seq(t))[i]
        == ascii_lower_seq(t)[i] by {
        lemma_upper_char(t[i]);
    }
    assert(ascii_lower_seq(ascii_upper_seq(t)) =~= ascii_lower_seq(t));
}

pub fn is_space_char(c: char) -> (r: bool)
    ensures
        r == is_space(c),
{
    let u = c as u32;
    (0x9 <= u && u <= 0xd) || u == 0x20 || u == 0x85 || u == 0xa0 || u == 0x1680 || (0x2000 <= u
        && u <= 0x200a) || u == 0x2028 || u == 0x2029 || u == 0x202f || u == 0x205f || u == 0x3000
}

pub fn ascii_lower_char(c: char) -> (r: char)
    ensures
        r == ascii_lower(c),
{
    if 'A' <= c && c <= 'Z' {
        let b: u8 = (c as u32 + 32) as u8;
        b as char
    } else {
        c
    }
}

/// The characters of `s`, in order.
pub fn chars_of(s: &str) -> (v: Vec<char>)
    ensures
        v@ == s@,
{
    let n = s.unicode_len();
    let mut v: Vec<char> = Vec::new();
    for i in 0..n
        invariant
            n == s@.len(),
            v@ == s@.take(i as int),
    {
        v.push(s.get_char(i));
        assert(s@.take(i as int).push(s@[i as int]) =~= s@.take(i + 1));
    }
    assert(s@.take(n as int) =~= s@);
    v
}

fn stripped_by_char(c: char, class: &Strip) -> (r: bool)
    ensures
        r == stripped_by(c, *class),
{
    match class {
        Strip::Whitespace => is_space_char(c),
        Strip::Slash => c == '/',
    }
}

/// `s` with the characters of `class` removed from both of its ends.
pub fn strip_str<'a>(s: &'a str, class: Strip) -> (r: &'a str)
    ensures
        r@ == strip(s@, class),
{
    let chars = chars_of(s);
    let n = chars.len();
    let mut i: usize = 0;
    assert(s@.subrange(0, n as int) =~= s@);
    while i < n && stripped_by_char(chars[i], &class)
        invariant
            n == s@.len(),
            chars@ == s@,
            i <= n,
            strip_start(s@, class) == strip_start(s@.subrange(i as int, n as int), class),
        decreases n - i,
    {
        assert(s@.subrange(i as int, n as int).drop_first() =~= s@.subrange(i + 1, n as int));
        i = i + 1;
    }
    assert(strip_start(s@, class) == s@.subrange(i as int, n as int)) by {
        if i == n {
            assert(s@.subrange(i as int, n as int).len() == 0);
        }
    }
    let mut j: usize = n;
    while j > i && stripped_by_char(chars[j - 1], &class)
        invariant
            n == s@.len(),
            chars@ == s@,
            i <= j <= n,
            strip(s@, class) == strip_end(s@.subrange(i as int, j as int), class),
        decreases j - i,
    {
        assert(s@.subrange(i as int, j as int).drop_last() =~= s@.subrange(i as int, j - 1));
        j = j - 1;
    }
    s.substring_char(i, j)
}

/// `s` with its surrounding whitespace removed, as `str::trim` does it.
pub fn trim_str<'a>(s: &'a str) -> (r: &'a str)
    ensures
        r@ == trim(s@),
{
    strip_str(s, Strip::Whitespace)
}

/// Whether two strings hold the same characters.
pub fn str_eq(a: &str, b: &str) -> (r: bool)
    ensures
        r == (a@ == b@),
{
    let x = chars_of(a);
    let y = chars_of(b);
    if x.len() != y.len() {
        return false;
    }
    let n = x.len();
    for i in 0..n
        invariant
            n == x@.len(),
            n == y@.len(),
            x@ == a@,
            y@ == b@,
            forall|k: int| 0 <= k < i ==> x@[k] == y@[k],
    {
        if x[i] != y[i] {
            return false;
        }
    }
    assert(x@ =~= y@);
    true
}

/// Whether `s` begins with `prefix`.
pub fn starts_with(s: &str, prefix: &str) -> (r: bool)
    ensures
        r == (prefix@.len() <= s@.len() && s@.take(prefix@.len() as int) == prefix@),
{
    let x = chars_of(s);
    let p = chars_of(prefix);
    if p.len() > x.len() {
        return false;
    }
    let n = p.len();
    for i in 0..n
        invariant
            n == p@.len(),
            n <= x@.len(),
            x@ == s@,
            p@ == prefix@,
            forall|k: int| 0 <= k < i ==> x@[k] == p@[k],
    {
        if x[i] != p[i] {
            assert(s@.take(n as int)[i as int] != prefix@[i as int]);
            return false;
        }
    }
    assert(s@.take(n as int) =~= prefix@);
    true
}

/// `str::to_ascii_lowercase`, returned as an owned string.
pub fn ascii_lowercase(s: &str) -> (r: String)
    ensures
        r@ == ascii_lower_seq(s@),
{
    let chars = chars_of(s);
    let n = chars.len();
    let mut out: Vec<char> = Vec::new();
    for i in 0..n
        invariant
            n == s@.len(),
            chars@ == s@,
            out@ == ascii_lower_seq(s@.take(i as int)),
    {
        out.push(ascii_lower_char(chars[i]));
        assert(ascii_lower_seq(s@.take(i + 1)) =~= ascii_lower_seq(s@.take(i as int)).push(
            ascii_lower(s@[i as int]),
        ));
    }
    assert(s@.take(n as int) =~= s@);
    string_from_chars(&out)
}

/// Builds a `String` from its characters (`FromIterator<char>` of std).
#[verifier::external_body]
pub fn string_from_chars(v: &Vec<char>) -> (s: String)
    ensures
        s@ == v@,
{
    v.iter().collect()
}

/// The number of bytes of the UTF-8 encoding of a character.
pub open spec fn utf8_width(c: char) -> nat {
    let u = c as u32;
    if u < 0x80 {
        1
    } else if u < 0x800 {
        2
    } else if u < 0x10000 {
        3
    } else {
        4
    }
}

/// The number of bytes of the UTF-8 encoding of a text (what `str::len`
/// counts).
pub open spec fn utf8_len(s: Seq<char>) -> nat
    decreases s.len(),
{
    if s.len() == 0 {
        0
    } else {
        utf8_len(s.drop_last()) + utf8_width(s.last())
    }
}

proof fn lemma_utf8_len_prefix(s: Seq<char>, k: int)
    requires
        0 <= k <= s.len(),
    ensures
        utf8_len(s.take(k)) <= utf8_len(s),
    decreases s.len(),
{
    if k < s.len() {
        assert(s.drop_last().take(k) =~= s.take(k));
        lemma_utf8_len_prefix(s.drop_last(), k);
    } else {
        assert(s.take(k) =~= s);
    }
}

/// Whether the UTF-8 encoding of `s` has fewer than `limit` bytes.
pub fn utf8_shorter_than(s: &str, limit: u32) -> (r: bool)
    ensures
        r == (utf8_len(s@) < limit),
{
    if limit == 0 {
        return false;
    }
    let chars = chars_of(s);
    let n = chars.len();
    let mut total: u32 = 0;
    for i in 0..n
        invariant
            n == s@.len(),
            chars@ == s@,
            total as nat == utf8_len(s@.take(i as int)),
            total < limit,
    {
        assert(s@.take(i + 1).drop_last() =~= s@.take(i as int));
        let u = chars[i] as u32;
        let w: u32 = if u < 0x80 {
            1
        } else if u < 0x800 {
            2
        } else if u < 0x10000 {
            3
        } else {
            4
        };
        if total as u64 + w as u64 >= limit as u64 {
            proof {
                lemma_utf8_len_prefix(s@, i + 1);
            }
            return false;
        }
        total = total + w;
    }
    assert(s@.take(n as int) =~= s@);
    true
}

} // verus!
