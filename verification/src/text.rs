//! Text helpers over the character sequence that Verus gives a string as its view.

use vstd::prelude::*;

use crate::ids::hex_digit_value;

verus! {

/// Appends one character to a string.
///
/// Trusted: calls `String::push`; the contract claims the view gains that one
/// character at its end, as std documents.
#[verifier::external_body]
pub(crate) fn push_char(s: &mut String, c: char)
    ensures
        final(s)@ == old(s)@.push(c),
{
    s.push(c);
}

/// The characters of a text, in order.
pub fn chars_of(text: &str) -> (result: Vec<char>)
    ensures
        result@ == text@,
{
    let mut result: Vec<char> = Vec::new();
    for c in it: text.chars()
        invariant
            result@ == it.seq().take(it.index() as int),
            it.seq() == text@,
    {
        result.push(c);
    }
    result
}

/// Builds a string from characters.
pub fn string_from_chars(chars: &Vec<char>) -> (result: String)
    ensures
        result@ == chars@,
{
    let mut result = String::new();
    let n = chars.len();
    let mut i: usize = 0;
    while i < n
        invariant
            n == chars.len(),
            i <= n,
            result@ == chars@.take(i as int),
        decreases n - i,
    {
        push_char(&mut result, chars[i]);
        assert(chars@.take(i + 1) == chars@.take(i as int).push(chars@[i as int]));
        i = i + 1;
    }
    assert(chars@.take(n as int) == chars@);
    result
}

/// Unicode's White_Space property, as `char::is_whitespace` decides it.
pub open spec fn is_white_space(c: char) -> bool {
    let v = c as u32;
    ||| 0x09 <= v <= 0x0d
    ||| v == 0x20
    ||| v == 0x85
    ||| v == 0xa0
    ||| v == 0x1680
    ||| 0x2000 <= v <= 0x200a
    ||| v == 0x2028
    ||| v == 0x2029
    ||| v == 0x202f
    ||| v == 0x205f
    ||| v == 0x3000
}

/// A text that holds nothing but white space (the empty text among them):
/// what trims to the empty text.
pub open spec fn is_blank(s: Seq<char>) -> bool {
    forall|i: int| 0 <= i < s.len() ==> is_white_space(#[trigger] s[i])
}

pub fn white_space_char(c: char) -> (r: bool)
    ensures
        r == is_white_space(c),
{
    let v = c as u32;
    (0x09 <= v && v <= 0x0d) || v == 0x20 || v == 0x85 || v == 0xa0 || v == 0x1680 || (0x2000 <= v
        && v <= 0x200a) || v == 0x2028 || v == 0x2029 || v == 0x202f || v == 0x205f || v == 0x3000
}

/// Whether a text trims to nothing.
pub fn blank_text(text: &str) -> (r: bool)
    ensures
        r == is_blank(text@),
{
    let chars = chars_of(text);
    let n = chars.len();
    let mut i: usize = 0;
    while i < n
        invariant
            n == chars@.len(),
            chars@ == text@,
            i <= n,
            forall|j: int| 0 <= j < i ==> is_white_space(#[trigger] chars@[j]),
        decreases n - i,
    {
        if !white_space_char(chars[i]) {
            return false;
        }
        i = i + 1;
    }
    true
}

/// The ASCII upper case of a character; other characters stay as they are.
pub open spec fn ascii_upper(c: char) -> char {
    if 'a' <= c <= 'z' {
        ((c as u32) - 32) as char
    } else {
        c
    }
}

/// The ASCII lower case of a character; other characters stay as they are.
pub open spec fn ascii_lower(c: char) -> char {
    if 'A' <= c <= 'Z' {
        ((c as u32) + 32) as char
    } else {
        c
    }
}

/// Maps a character to its ASCII upper case.
pub(crate) fn char_ascii_upper(c: char) -> (r: char)
    ensures
        r == ascii_upper(c),
{
    if 'a' <= c && c <= 'z' {
        let b: u8 = c as u8;
        ((b - 32) as char)
    } else {
        c
    }
}

/// Maps a character to its ASCII lower case.
pub(crate) fn char_ascii_lower(c: char) -> (r: char)
    ensures
        r == ascii_lower(c),
{
    if 'A' <= c && c <= 'Z' {
        let b: u8 = c as u8;
        ((b + 32) as char)
    } else {
        c
    }
}

/// The text with every ASCII letter in upper case.
pub open spec fn upper_ascii(s: Seq<char>) -> Seq<char> {
    s.map_values(|c: char| ascii_upper(c))
}

/// Two texts that are equal once ASCII letters are taken in one case.
pub open spec fn same_ignoring_ascii_case(a: Seq<char>, b: Seq<char>) -> bool {
    a.len() == b.len() && forall|i: int| 0 <= i < a.len() ==> ascii_lower(#[trigger] a[i]) == ascii_lower(b[i])
}

/// `text` in ASCII upper case.
pub fn to_ascii_upper(text: &str) -> (r: String)
    ensures
        r@ == upper_ascii(text@),
{
    let chars = chars_of(text);
    let mut out: Vec<char> = Vec::new();
    let n = chars.len();
    let mut i: usize = 0;
    while i < n
        invariant
            n == chars@.len(),
            chars@ == text@,
            i <= n,
            out@ == upper_ascii(text@.take(i as int)),
        decreases n - i,
    {
        out.push(char_ascii_upper(chars[i]));
        assert(upper_ascii(text@.take(i + 1)) =~= upper_ascii(text@.take(i as int)).push(ascii_upper(text@[i as int])));
        i = i + 1;
    }
    assert(text@.take(n as int) == text@);
    string_from_chars(&out)
}

/// Whether two texts are equal once ASCII letters are taken in one case.
pub fn eq_ignore_ascii_case(a: &str, b: &str) -> (r: bool)
    ensures
        r == same_ignoring_ascii_case(a@, b@),
{
    let x = chars_of(a);
    let y = chars_of(b);
    if x.len() != y.len() {
        return false;
    }
    let n = x.len();
    let mut i: usize = 0;
    while i < n
        invariant
            n == x@.len(),
            n == y@.len(),
            x@ == a@,
            y@ == b@,
            i <= n,
            forall|j: int| 0 <= j < i ==> ascii_lower(#[trigger] x@[j]) == ascii_lower(y@[j]),
        decreases n - i,
    {
        if char_ascii_lower(x[i]) != char_ascii_lower(y[i]) {
            return false;
        }
        i = i + 1;
    }
    true
}

/// Whether two texts are equal.
pub fn text_eq(a: &str, b: &str) -> (r: bool)
    ensures
        r == (a@ == b@),
{
    let x = chars_of(a);
    let y = chars_of(b);
    if x.len() != y.len() {
        return false;
    }
    let n = x.len();
    let mut i: usize = 0;
    while i < n
        invariant
            n == x@.len(),
            n == y@.len(),
            x@ == a@,
            y@ == b@,
            i <= n,
            forall|j: int| 0 <= j < i ==> x@[j] == y@[j],
        decreases n - i,
    {
        if x[i] != y[i] {
            return false;
        }
        i = i + 1;
    }
    assert(x@ =~= y@);
    true
}

/// `needle` occurs in `hay` starting at `at`.
pub open spec fn occurs_at(hay: Seq<char>, needle: Seq<char>, at: int) -> bool {
    0 <= at && at + needle.len() <= hay.len() && hay.subrange(at, at + needle.len()) == needle
}

/// `needle` occurs somewhere in `hay`.
pub open spec fn has_infix(hay: Seq<char>, needle: Seq<char>) -> bool {
    exists|at: int| occurs_at(hay, needle, at)
}

fn chars_occur_at(hay: &Vec<char>, needle: &Vec<char>, at: usize) -> (r: bool)
    ensures
        r == occurs_at(hay@, needle@, at as int),
{
    if needle.len() > hay.len() || at > hay.len() - needle.len() {
        return false;
    }
    let n = needle.len();
    let mut i: usize = 0;
    while i < n
        invariant
            n == needle@.len(),
            at + n <= hay.len(),
            i <= n,
            forall|j: int| 0 <= j < i ==> hay@[at + j] == needle@[j],
        decreases n - i,
    {
        if hay[at + i] != needle[i] {
            assert(hay@.subrange(at as int, at + n)[i as int] != needle@[i as int]);
            return false;
        }
        i = i + 1;
    }
    assert(hay@.subrange(at as int, at + n) =~= needle@);
    true
}

/// Whether `needle` occurs in `hay`.
pub fn contains_text(hay: &str, needle: &str) -> (r: bool)
    ensures
        r == has_infix(hay@, needle@),
{
    let h = chars_of(hay);
    let p = chars_of(needle);
    if p.len() > h.len() {
        assert forall|at: int| !occurs_at(hay@, needle@, at) by {}
        return false;
    }
    let last = h.len() - p.len();
    let mut at: usize = 0;
    loop
        invariant
            h@ == hay@,
            p@ == needle@,
            last == h@.len() - p@.len(),
            at <= last,
            forall|j: int| 0 <= j < at ==> !occurs_at(hay@, needle@, j),
        ensures
            forall|j: int| 0 <= j <= last ==> !occurs_at(hay@, needle@, j),
        decreases last - at,
    {
        if chars_occur_at(&h, &p, at) {
            return true;
        }
        if at == last {
            break;
        }
        at = at + 1;
    }
    assert forall|j: int| !occurs_at(hay@, needle@, j) by {
        if 0 <= j && j <= last {
        }
    }
    false
}

/// The rest of `text` after `prefix`, where `text` starts with `prefix`.
pub fn strip_prefix(text: &str, prefix: &str) -> (r: Option<String>)
    ensures
        r is Some <==> occurs_at(text@, prefix@, 0),
        r matches Some(rest) ==> rest@ == text@.skip(prefix@.len() as int),
{
    let h = chars_of(text);
    let p = chars_of(prefix);
    if !chars_occur_at(&h, &p, 0) {
        return None;
    }
    let mut out: Vec<char> = Vec::new();
    let n = h.len();
    let mut i: usize = p.len();
    while i < n
        invariant
            h@ == text@,
            n == h@.len(),
            p@.len() <= i <= n,
            out@ == text@.subrange(p@.len() as int, i as int),
        decreases n - i,
    {
        out.push(h[i]);
        assert(text@.subrange(p@.len() as int, i + 1) =~= text@.subrange(p@.len() as int, i as int).push(text@[i as int]));
        i = i + 1;
    }
    assert(text@.subrange(p@.len() as int, n as int) =~= text@.skip(p@.len() as int));
    Some(string_from_chars(&out))
}

/// The characters that `serde_json` writes for one character inside a JSON
/// string: quote, backslash and the control characters are escaped, control
/// characters without a short form as `\u00XY` with lower-case hex digits;
/// every other character is written as it is.
pub open spec fn json_escaped_char(c: char) -> Seq<char> {
    let v = c as u32;
    if c == '"' {
        seq!['\\', '"']
    } else if c == '\\' {
        seq!['\\', '\\']
    } else if v == 0x08 {
        seq!['\\', 'b']
    } else if v == 0x09 {
        seq!['\\', 't']
    } else if v == 0x0a {
        seq!['\\', 'n']
    } else if v == 0x0c {
        seq!['\\', 'f']
    } else if v == 0x0d {
        seq!['\\', 'r']
    } else if v < 0x20 {
        seq!['\\', 'u', '0', '0', hex_digit(v / 16), hex_digit(v % 16)]
    } else {
        seq![c]
    }
}

pub open spec fn hex_digit(d: u32) -> char {
    if d < 10 {
        (('0' as u32) + d) as char
    } else {
        (('a' as u32) + d - 10) as char
    }
}

pub open spec fn json_escape(s: Seq<char>) -> Seq<char>
    decreases s.len(),
{
    if s.len() == 0 {
        Seq::empty()
    } else {
        json_escape(s.drop_last()) + json_escaped_char(s.last())
    }
}

/// A text written as a JSON string literal, quotes included.
pub open spec fn json_quoted(s: Seq<char>) -> Seq<char> {
    seq!['"'] + json_escape(s) + seq!['"']
}

/// The character that a one-letter JSON escape `\x` stands for.
pub open spec fn short_escape(c: char) -> Option<char> {
    if c == '"' {
        Some('"')
    } else if c == '\\' {
        Some('\\')
    } else if c == '/' {
        Some('/')
    } else if c == 'b' {
        Some('\u{8}')
    } else if c == 't' {
        Some('\t')
    } else if c == 'n' {
        Some('\n')
    } else if c == 'f' {
        Some('\u{c}')
    } else if c == 'r' {
        Some('\r')
    } else {
        None
    }
}

/// The value of four hexadecimal digits.
pub open spec fn hex4_value(s: Seq<char>) -> Option<nat>
    recommends
        s.len() == 4,
{
    match (hex_digit_value(s[0]), hex_digit_value(s[1]), hex_digit_value(s[2]), hex_digit_value(s[3])) {
        (Some(a), Some(b), Some(c), Some(d)) => Some(a * 4096 + b * 256 + c * 16 + d),
        _ => None,
    }
}

/// Reads the body of a JSON string literal at the start of `s`, up to its
/// closing quote: the text it stands for and how many characters the body
/// takes, the closing quote left out. `None` where no closing quote comes,
/// a raw control character stands in the body, or an escape is malformed;
/// a `\u` escape naming half of a surrogate pair is not read.
pub open spec fn json_string_read(s: Seq<char>) -> Option<(Seq<char>, nat)>
    decreases s.len(),
{
    if s.len() == 0 {
        None
    } else if s[0] == '"' {
        Some((Seq::empty(), 0))
    } else if s[0] == '\\' {
        if s.len() >= 2 && short_escape(s[1]) is Some {
            match json_string_read(s.skip(2)) {
                Some((t, n)) => Some((seq![short_escape(s[1])->0] + t, n + 2)),
                None => None,
            }
        } else if s.len() >= 6 && s[1] == 'u' && hex4_value(s.subrange(2, 6)) is Some && !(0xD800 <= hex4_value(
            s.subrange(2, 6),
        )->0 < 0xE000) {
            match json_string_read(s.skip(6)) {
                Some((t, n)) => Some((seq![(hex4_value(s.subrange(2, 6))->0) as char] + t, n + 6)),
                None => None,
            }
        } else {
            None
        }
    } else if (s[0] as u32) < 0x20 {
        None
    } else {
        match json_string_read(s.skip(1)) {
            Some((t, n)) => Some((seq![s[0]] + t, n + 1)),
            None => None,
        }
    }
}

/// Escaping a text, character after character, from the front.
proof fn lemma_json_escape_front(s: Seq<char>)
    requires
        s.len() > 0,
    ensures
        json_escape(s) == json_escaped_char(s[0]) + json_escape(s.skip(1)),
    decreases s.len(),
{
    if s.len() == 1 {
        assert(s.drop_last() =~= Seq::<char>::empty());
        assert(s.skip(1) =~= Seq::<char>::empty());
        assert(json_escape(s) =~= json_escaped_char(s[0]) + json_escape(s.skip(1)));
    } else {
        let q = s.drop_last();
        lemma_json_escape_front(q);
        assert(q.skip(1) =~= s.skip(1).drop_last());
        assert(s.skip(1).last() == s.last());
        assert(json_escape(s) =~= json_escaped_char(s[0]) + json_escape(s.skip(1)));
    }
}

proof fn lemma_hex_digit_reads_back(d: u32)
    requires
        d < 16,
    ensures
        hex_digit_value(hex_digit(d)) == Some(d as nat),
{
}

/// Reading the escape of one character gives that character back, and the
/// reader goes on with what follows.
proof fn lemma_read_escaped_char(c: char, rest: Seq<char>)
    ensures
        json_string_read(json_escaped_char(c) + rest) == match json_string_read(rest) {
            Some((t, n)) => Some((seq![c] + t, n + json_escaped_char(c).len())),
            None => None,
        },
{
    let e = json_escaped_char(c);
    let s = e + rest;
    let v = c as u32;
    if e.len() == 2 {
        assert(s.skip(2) =~= rest);
        assert(s[0] == '\\');
    } else if e.len() == 6 {
        lemma_hex_digit_reads_back(v / 16);
        lemma_hex_digit_reads_back(v % 16);
        assert(s.skip(6) =~= rest);
        assert(s.subrange(2, 6) =~= seq!['0', '0', hex_digit(v / 16), hex_digit(v % 16)]);
        assert(hex4_value(s.subrange(2, 6)) == Some(v as nat));
        assert(s[0] == '\\');
        assert(s[1] == 'u');
    } else {
        assert(s.skip(1) =~= rest);
        assert(s[0] == c);
    }
}

/// What the library writes as a JSON string reads back as the text it wrote:
/// the body of `json_quoted(x)` reads as `x` and ends right before the
/// closing quote, whatever follows it.
pub proof fn law_json_string_reads_back(x: Seq<char>, rest: Seq<char>)
    ensures
        json_string_read(json_escape(x) + seq!['"'] + rest) == Some((x, json_escape(x).len())),
    decreases x.len(),
{
    if x.len() == 0 {
        assert(json_escape(x) + seq!['"'] + rest =~= seq!['"'] + rest);
        assert(Seq::<char>::empty() =~= x);
    } else {
        lemma_json_escape_front(x);
        law_json_string_reads_back(x.skip(1), rest);
        let tail = json_escape(x.skip(1)) + seq!['"'] + rest;
        assert(json_escape(x) + seq!['"'] + rest =~= json_escaped_char(x[0]) + tail);
        lemma_read_escaped_char(x[0], tail);
        assert(seq![x[0]] + x.skip(1) =~= x);
    }
}

/// Writes a text as a JSON string literal.
///
/// Trusted: calls `serde_json::to_string` on a `&str`, which writes the text
/// between double quotes and escapes it character by character through its
/// escape table, as `json_escaped_char` states; serialising a `&str` cannot
/// fail.
#[verifier::external_body]
pub(crate) fn json_string(text: &str) -> (r: String)
    ensures
        r@ == json_quoted(text@),
{
    match serde_json::to_string(text) {
        Ok(written) => written,
        Err(_) => String::new(),
    }
}

} // verus!
