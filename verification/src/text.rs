//! Plain text handling for SQL: characters in and out of strings, comment
//! stripping, and the prefix and marker tests of the request classifier.

use vstd::prelude::*;
use vstd::utf8::{decode_utf8, valid_utf8};

verus! {

/// Trusted: std's `String::push` appends the character and changes nothing
/// else.
pub assume_specification[ String::push ](s: &mut String, c: char)
    ensures
        final(s)@ == old(s)@.push(c),
;

/// Trusted: std's `String::from_utf8` hands back the text that the bytes
/// encode where they are valid UTF-8, and an error where they are not.
#[verifier::external_body]
pub(crate) fn string_from_utf8(bytes: Vec<u8>) -> (r: Option<String>)
    ensures
        r is Some <==> valid_utf8(bytes@),
        r matches Some(s) ==> s@ == decode_utf8(bytes@),
{
    String::from_utf8(bytes).ok()
}

/// Whether an optional string holds the given optional text.
pub open spec fn holds_text(r: Option<String>, text: Option<Seq<char>>) -> bool {
    match (r, text) {
        (Some(s), Some(t)) => s@ == t,
        (None, None) => true,
        _ => false,
    }
}

/// The characters of a string.
pub fn to_chars(s: &str) -> (v: Vec<char>)
    ensures
        v@ == s@,
{
    let mut v: Vec<char> = Vec::new();
    for c in it: s.chars()
        invariant
            v@ == it.seq().take(it.index() as int),
            it.seq() == s@,
    {
        v.push(c);
    }
    v
}

/// The string made of the given characters.
pub fn from_chars(chars: &Vec<char>) -> (s: String)
    ensures
        s@ == chars@,
{
    let mut s = String::new();
    let mut i: usize = 0;
    while i < chars.len()
        invariant
            i <= chars@.len(),
            s@ == chars@.take(i as int),
        decreases chars@.len() - i,
    {
        s.push(chars[i]);
        i = i + 1;
        assert(s@ =~= chars@.take(i as int));
    }
    assert(chars@.take(i as int) =~= chars@);
    s
}

/// Whether a character is white space in the sense of Unicode's `White_Space`
/// property: one of the controls from tab to carriage return, the space, next
/// line, the no-break space, the Ogham space mark, the spaces from en quad to
/// hair space, the line and paragraph separators, the narrow no-break space,
/// the medium mathematical space, and the ideographic space.
pub open spec fn white_space(c: char) -> bool {
    let n = c as u32;
    ||| 0x09 <= n <= 0x0d
    ||| n == 0x20
    ||| n == 0x85
    ||| n == 0xa0
    ||| n == 0x1680
    ||| 0x2000 <= n <= 0x200a
    ||| n == 0x2028
    ||| n == 0x2029
    ||| n == 0x202f
    ||| n == 0x205f
    ||| n == 0x3000
}

/// The upper-case form of a text, by Unicode's rules.
pub uninterp spec fn uppercased(s: Seq<char>) -> Seq<char>;

/// The character of a decimal digit.
pub open spec fn digit(d: int) -> char
    recommends
        0 <= d < 10,
{
    (('0' as u8) + d) as u8 as char
}

/// A natural number written in decimal digits, without leading zeros.
pub open spec fn digits(n: nat) -> Seq<char>
    decreases n,
{
    if n < 10 {
        seq![digit(n as int)]
    } else {
        digits(n / 10).push(digit((n % 10) as int))
    }
}

/// A whole number written in decimal digits, with `-` in front where it is
/// negative.
pub open spec fn decimal(n: int) -> Seq<char> {
    if n < 0 {
        seq!['-'] + digits((-n) as nat)
    } else {
        digits(n as nat)
    }
}

/// Trusted: std's `i32::to_string` writes the number in decimal digits, with
/// a minus sign in front of a negative one.
#[verifier::external_body]
pub(crate) fn int_to_string(n: i32) -> (s: String)
    ensures
        s@ == decimal(n as int),
{
    n.to_string()
}

/// Tells whether a character is white space.
pub fn is_white_space(c: char) -> (b: bool)
    ensures
        b == white_space(c),
{
    let n: u32 = c as u32;
    (0x09 <= n && n <= 0x0d) || n == 0x20 || n == 0x85 || n == 0xa0 || n == 0x1680 || (0x2000 <= n
        && n <= 0x200a) || n == 0x2028 || n == 0x2029 || n == 0x202f || n == 0x205f || n == 0x3000
}

/// Trusted: std's `str::to_uppercase` is a function of the text alone;
/// `uppercased` names its result.
#[verifier::external_body]
pub(crate) fn to_uppercase(s: &str) -> (r: String)
    ensures
        r@ == uppercased(s@),
{
    s.to_uppercase()
}

/// A text without its leading white space.
pub open spec fn trim_start(s: Seq<char>) -> Seq<char>
    decreases s.len(),
{
    if s.len() > 0 && white_space(s[0]) {
        trim_start(s.drop_first())
    } else {
        s
    }
}

/// A text without its trailing white space.
pub open spec fn trim_end(s: Seq<char>) -> Seq<char>
    decreases s.len(),
{
    if s.len() > 0 && white_space(s.last()) {
        trim_end(s.drop_last())
    } else {
        s
    }
}

/// A text without leading and trailing white space.
pub open spec fn trim(s: Seq<char>) -> Seq<char> {
    trim_end(trim_start(s))
}

/// Where a scan of a SQL text stands: in the statement itself, inside a `--`
/// comment, or inside a `/* */` comment.
#[derive(Copy, Clone, Debug, PartialEq, Eq, Structural)]
pub enum Scan {
    Code,
    Line,
    Block,
}

/// Whether `s` starts with the two given characters.
pub open spec fn starts_with_pair(s: Seq<char>, a: char, b: char) -> bool {
    s.len() >= 2 && s[0] == a && s[1] == b
}

/// What a scan that stands in `state` keeps of the text in front of it.
pub open spec fn strip_from(s: Seq<char>, state: Scan) -> Seq<char>
    decreases s.len(),
{
    if s.len() == 0 {
        s
    } else {
        match state {
            Scan::Code => if starts_with_pair(s, '-', '-') {
                strip_from(s.skip(2), Scan::Line)
            } else if starts_with_pair(s, '/', '*') {
                strip_from(s.skip(2), Scan::Block)
            } else {
                seq![s[0]] + strip_from(s.drop_first(), Scan::Code)
            },
            Scan::Line => if s[0] == '\n' {
                strip_from(s.drop_first(), Scan::Code)
            } else {
                strip_from(s.drop_first(), Scan::Line)
            },
            Scan::Block => if starts_with_pair(s, '*', '/') {
                strip_from(s.skip(2), Scan::Code)
            } else {
                strip_from(s.drop_first(), Scan::Block)
            },
        }
    }
}

/// A SQL text without its comments. A `--` comment runs to the end of its
/// line, the line feed included, or to the end of the text; a `/* */` comment
/// runs to its closing mark, or to the end of the text. Quotes are not looked
/// at: a comment mark inside a string literal counts.
pub open spec fn strip_comments(s: Seq<char>) -> Seq<char> {
    strip_from(s, Scan::Code)
}

/// Removes the comments of a SQL text.
pub fn remove_comment_chars(chars: &Vec<char>) -> (r: Vec<char>)
    ensures
        r@ == strip_comments(chars@),
{
    let n = chars.len();
    let mut out: Vec<char> = Vec::new();
    let mut state = Scan::Code;
    let mut i: usize = 0;
    assert(chars@.skip(0) =~= chars@);
    while i < n
        invariant
            n == chars@.len(),
            i <= n,
            strip_comments(chars@) == out@ + strip_from(chars@.skip(i as int), state),
        decreases n - i,
    {
        let ghost rest = chars@.skip(i as int);
        assert(rest.len() == n - i);
        assert(rest[0] == chars@[i as int]);
        assert(rest.drop_first() =~= chars@.skip(i + 1));
        if i + 1 < n {
            assert(rest[1] == chars@[i + 1]);
            assert(rest.skip(2) =~= chars@.skip(i + 2));
        }
        let c = chars[i];
        match state {
            Scan::Code => {
                if c == '-' && i + 1 < n && chars[i + 1] == '-' {
                    state = Scan::Line;
                    i = i + 2;
                } else if c == '/' && i + 1 < n && chars[i + 1] == '*' {
                    state = Scan::Block;
                    i = i + 2;
                } else {
                    let ghost before = out@;
                    out.push(c);
                    i = i + 1;
                    assert(before + (seq![c] + strip_from(chars@.skip(i as int), Scan::Code))
                        =~= out@ + strip_from(chars@.skip(i as int), Scan::Code));
                }
            },
            Scan::Line => {
                if c == '\n' {
                    state = Scan::Code;
                }
                i = i + 1;
            },
            Scan::Block => {
                if c == '*' && i + 1 < n && chars[i + 1] == '/' {
                    state = Scan::Code;
                    i = i + 2;
                } else {
                    i = i + 1;
                }
            },
        }
    }
    assert(chars@.skip(i as int) =~= Seq::<char>::empty());
    assert(out@ + Seq::<char>::empty() =~= out@);
    out
}

/// Removes leading and trailing white space.
pub fn trim_chars(chars: &Vec<char>) -> (r: Vec<char>)
    ensures
        r@ == trim(chars@),
{
    let n = chars.len();
    let mut start: usize = 0;
    assert(chars@.skip(0) =~= chars@);
    while start < n && is_white_space(chars[start])
        invariant
            n == chars@.len(),
            start <= n,
            trim_start(chars@) == trim_start(chars@.skip(start as int)),
        decreases n - start,
    {
        assert(chars@.skip(start as int).drop_first() =~= chars@.skip(start + 1));
        start = start + 1;
    }
    assert(chars@.skip(0) =~= chars@);
    assert(trim_start(chars@) == chars@.skip(start as int)) by {
        if start < n {
            assert(chars@.skip(start as int)[0] == chars@[start as int]);
        }
    }
    let mut end: usize = n;
    while end > start && is_white_space(chars[end - 1])
        invariant
            n == chars@.len(),
            start <= end <= n,
            trim(chars@) == trim_end(chars@.subrange(start as int, end as int)),
        decreases end,
    {
        assert(chars@.subrange(start as int, end as int).drop_last() =~= chars@.subrange(
            start as int,
            end - 1,
        ));
        end = end - 1;
    }
    assert(trim(chars@) == chars@.subrange(start as int, end as int)) by {
        if end > start {
            assert(chars@.subrange(start as int, end as int).last() == chars@[end - 1]);
        }
    }
    let mut out: Vec<char> = Vec::new();
    let mut i: usize = start;
    while i < end
        invariant
            start <= i <= end <= chars@.len(),
            out@ == chars@.subrange(start as int, i as int),
        decreases end - i,
    {
        out.push(chars[i]);
        i = i + 1;
        assert(out@ =~= chars@.subrange(start as int, i as int));
    }
    out
}

/// Removes the comments of a SQL text, then leading and trailing white
/// space.
pub fn remove_comments(sql: String) -> (r: String)
    ensures
        r@ == trim(strip_comments(sql@)),
{
    let chars = to_chars(sql.as_str());
    let stripped = remove_comment_chars(&chars);
    let trimmed = trim_chars(&stripped);
    from_chars(&trimmed)
}

/// Whether a text starts with the word `SELECT`, in upper case.
pub open spec fn select_prefix(s: Seq<char>) -> bool {
    &&& s.len() >= 6
    &&& s[0] == 'S'
    &&& s[1] == 'E'
    &&& s[2] == 'L'
    &&& s[3] == 'E'
    &&& s[4] == 'C'
    &&& s[5] == 'T'
}

/// Whether the marker of a second query stands at position `i`: three NUL
/// characters and the code of the query command, as the tail of a packet
/// header and the command byte behind it read when taken for text.
pub open spec fn query_marker_at(s: Seq<char>, i: int) -> bool {
    &&& 0 <= i
    &&& i + 4 <= s.len()
    &&& s[i] == '\0'
    &&& s[i + 1] == '\0'
    &&& s[i + 2] == '\0'
    &&& s[i + 3] == '\u{3}'
}

/// Whether a text holds the marker of a second query anywhere.
pub open spec fn has_query_marker(s: Seq<char>) -> bool {
    exists|i: int| query_marker_at(s, i)
}

/// Tests for the `SELECT` prefix.
pub fn starts_with_select(chars: &Vec<char>) -> (b: bool)
    ensures
        b == select_prefix(chars@),
{
    chars.len() >= 6 && chars[0] == 'S' && chars[1] == 'E' && chars[2] == 'L' && chars[3] == 'E'
        && chars[4] == 'C' && chars[5] == 'T'
}

/// Searches for the marker of a second query.
pub fn contains_query_marker(chars: &Vec<char>) -> (b: bool)
    ensures
        b == has_query_marker(chars@),
{
    let n = chars.len();
    if n < 4 {
        assert(forall|i: int| !query_marker_at(chars@, i));
        return false;
    }
    let mut i: usize = 0;
    while i <= n - 4
        invariant
            n == chars@.len(),
            n >= 4,
            i <= n - 3,
            forall|j: int| 0 <= j < i ==> !query_marker_at(chars@, j),
        decreases n - i,
    {
        if chars[i] == '\0' && chars[i + 1] == '\0' && chars[i + 2] == '\0' && chars[i + 3]
            == '\u{3}' {
            assert(query_marker_at(chars@, i as int));
            return true;
        }
        i = i + 1;
    }
    assert(forall|j: int| !query_marker_at(chars@, j));
    false
}

/// The form in which a SQL text is compared with rule templates: in upper
/// case, without leading and trailing white space.
pub open spec fn normalized(s: Seq<char>) -> Seq<char> {
    trim(uppercased(s))
}

/// Brings a SQL text into the form in which it is compared with templates.
pub fn normalize(sql: &str) -> (r: String)
    ensures
        r@ == normalized(sql@),
{
    let upper = to_uppercase(sql);
    let chars = to_chars(upper.as_str());
    let trimmed = trim_chars(&chars);
    from_chars(&trimmed)
}

/// Whether `needle` stands in `hay` at position `i`.
pub open spec fn occurs_at(hay: Seq<char>, needle: Seq<char>, i: int) -> bool {
    0 <= i && i + needle.len() <= hay.len() && hay.subrange(i, i + needle.len()) == needle
}

/// Whether `needle` stands somewhere in `hay`.
pub open spec fn occurs_in(hay: Seq<char>, needle: Seq<char>) -> bool {
    exists|i: int| occurs_at(hay, needle, i)
}

/// Tests whether `needle` stands in `hay` at position `i`.
fn found_at(hay: &Vec<char>, needle: &Vec<char>, i: usize) -> (b: bool)
    requires
        i + needle@.len() <= hay@.len(),
    ensures
        b == occurs_at(hay@, needle@, i as int),
{
    let n = hay.len();
    let mut k: usize = 0;
    while k < needle.len()
        invariant
            k <= needle@.len(),
            n == hay@.len(),
            i + needle@.len() <= n,
            forall|j: int| 0 <= j < k ==> hay@[i + j] == needle@[j],
        decreases needle@.len() - k,
    {
        if hay[i + k] != needle[k] {
            assert(hay@.subrange(i as int, i + needle@.len())[k as int] != needle@[k as int]);
            return false;
        }
        k = k + 1;
    }
    assert(hay@.subrange(i as int, i + needle@.len()) =~= needle@);
    true
}

/// Searches a text for another.
pub fn contains_chars(hay: &Vec<char>, needle: &Vec<char>) -> (b: bool)
    ensures
        b == occurs_in(hay@, needle@),
{
    if needle.len() > hay.len() {
        assert(forall|i: int| !occurs_at(hay@, needle@, i));
        return false;
    }
    let last = hay.len() - needle.len();
    let mut i: usize = 0;
    loop
        invariant
            last + needle@.len() == hay@.len(),
            i <= last,
            forall|j: int| 0 <= j < i ==> !occurs_at(hay@, needle@, j),
        ensures
            forall|j: int| 0 <= j <= last ==> !occurs_at(hay@, needle@, j),
        decreases last - i,
    {
        if found_at(hay, needle, i) {
            return true;
        }
        if i == last {
            break ;
        }
        i = i + 1;
    }
    assert(forall|j: int| !occurs_at(hay@, needle@, j));
    false
}

} // verus!
