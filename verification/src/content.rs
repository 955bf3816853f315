//! Post content: plain text turned into HTML, HTML escaping, hashtag
//! extraction and the minimal URL decoding of query values.
use vstd::prelude::*;
use crate::text::{trim, contains, str_chars, trim_chars, string_from_chars, append_str, chars_eq, slice_chars};
use vstd::string::StringSliceAdditionalSpecFns;

verus! {

/// Whether text looks like HTML: non-blank, with both a `<` and a `>`.
pub open spec fn spec_looks_like_html(t: Seq<char>) -> bool {
    trim(t).len() > 0 && trim(t).contains('<') && trim(t).contains('>')
}

fn has_char(v: &Vec<char>, c: char) -> (r: bool)
    ensures
        r == v@.contains(c),
{
    let mut i: usize = 0;
    while i < v.len()
        invariant
            i <= v.len(),
            forall|j: int| 0 <= j < i ==> v@[j] != c,
        decreases v.len() - i,
    {
        if v[i] == c {
            return true;
        }
        i += 1;
    }
    false
}

/// Whether a note's text is already HTML.
pub fn looks_like_html(text: &str) -> (r: bool)
    ensures
        r == spec_looks_like_html(text@),
{
    let t = trim_chars(&str_chars(text));
    if t.len() == 0 {
        return false;
    }
    has_char(&t, '<') && has_char(&t, '>')
}

/// The HTML escape of one character, with line feeds as `<br>`.
pub open spec fn escape_char(c: char) -> Seq<char> {
    if c == '&' {
        "&amp;"@
    } else if c == '<' {
        "&lt;"@
    } else if c == '>' {
        "&gt;"@
    } else if c == '"' {
        "&quot;"@
    } else if c == '\'' {
        "&#39;"@
    } else if c == '\n' {
        "<br>"@
    } else {
        seq![c]
    }
}

/// `s` with every character escaped.
pub open spec fn escape_with_breaks(s: Seq<char>) -> Seq<char>
    decreases s.len(),
{
    if s.len() == 0 {
        Seq::empty()
    } else {
        escape_with_breaks(s.drop_last()) + escape_char(s.last())
    }
}

fn push_escaped(out: &mut Vec<char>, c: char)
    ensures
        final(out)@ == old(out)@ + escape_char(c),
{
    if c == '&' {
        append_str(out, "&amp;");
    } else if c == '<' {
        append_str(out, "&lt;");
    } else if c == '>' {
        append_str(out, "&gt;");
    } else if c == '"' {
        append_str(out, "&quot;");
    } else if c == '\'' {
        append_str(out, "&#39;");
    } else if c == '\n' {
        append_str(out, "<br>");
    } else {
        out.push(c);
        assert(final(out)@ =~= old(out)@ + seq![c]);
    }
}

/// Escapes `&`, `<`, `>`, `"` and `'` for HTML and turns line feeds into `<br>`.
pub fn html_escape_with_breaks(text: &str) -> (r: String)
    ensures
        r@ == escape_with_breaks(text@),
{
    let s = str_chars(text);
    let mut out: Vec<char> = Vec::new();
    let mut i: usize = 0;
    while i < s.len()
        invariant
            i <= s.len(),
            out@ == escape_with_breaks(s@.take(i as int)),
        decreases s.len() - i,
    {
        assert(s@.take(i + 1).drop_last() =~= s@.take(i as int));
        push_escaped(&mut out, s[i]);
        i += 1;
    }
    assert(s@.take(i as int) =~= s@);
    string_from_chars(&out)
}

/// The body of a profile text as HTML: escaped, with each `\r\n`, `\r` or
/// `\n` as `<br>`.
pub open spec fn html_lines(s: Seq<char>) -> Seq<char>
    decreases s.len(),
{
    if s.len() == 0 {
        Seq::empty()
    } else if s[0] == '\r' && s.len() > 1 && s[1] == '\n' {
        "<br>"@ + html_lines(s.skip(2))
    } else if s[0] == '\r' {
        "<br>"@ + html_lines(s.skip(1))
    } else {
        escape_char(s[0]) + html_lines(s.skip(1))
    }
}

/// Plain text as an HTML paragraph: trimmed, escaped, line breaks as `<br>`,
/// wrapped in `<p>`; blank text gives the empty string.
pub open spec fn spec_text_to_html(input: Seq<char>) -> Seq<char> {
    let s = trim(input);
    if s.len() == 0 {
        Seq::empty()
    } else {
        "<p>"@ + html_lines(s) + "</p>"@
    }
}

proof fn lemma_html_lines_skip(s: Seq<char>, i: int)
    requires
        0 <= i <= s.len(),
    ensures
        html_lines(s.skip(i)) == if i == s.len() {
            Seq::<char>::empty()
        } else if s[i] == '\r' && i + 1 < s.len() && s[i + 1] == '\n' {
            "<br>"@ + html_lines(s.skip(i + 2))
        } else if s[i] == '\r' {
            "<br>"@ + html_lines(s.skip(i + 1))
        } else {
            escape_char(s[i]) + html_lines(s.skip(i + 1))
        },
{
    let t = s.skip(i);
    if i < s.len() {
        assert(t[0] == s[i]);
        if t.len() > 1 {
            assert(t[1] == s[i + 1]);
        }
        assert(t.skip(1) =~= s.skip(i + 1));
        if i + 2 <= s.len() {
            assert(t.skip(2) =~= s.skip(i + 2));
        }
    } else {
        assert(t.len() == 0);
    }
}

/// Plain text as an HTML paragraph (`text_to_html`).
pub fn text_to_html(input: &str) -> (r: String)
    ensures
        r@ == spec_text_to_html(input@),
{
    let s = trim_chars(&str_chars(input));
    if s.len() == 0 {
        return String::new();
    }
    let mut body: Vec<char> = Vec::new();
    let mut i: usize = 0;
    assert(s@.skip(0) =~= s@);
    while i < s.len()
        invariant
            i <= s.len(),
            body@ + html_lines(s@.skip(i as int)) == html_lines(s@),
        decreases s.len() - i,
    {
        let ghost before = body@;
        proof {
            lemma_html_lines_skip(s@, i as int);
        }
        if s[i] == '\r' && i + 1 < s.len() && s[i + 1] == '\n' {
            append_str(&mut body, "<br>");
            assert(before + ("<br>"@ + html_lines(s@.skip(i + 2))) =~= body@ + html_lines(s@.skip(i + 2)));
            i += 2;
        } else if s[i] == '\r' {
            append_str(&mut body, "<br>");
            assert(before + ("<br>"@ + html_lines(s@.skip(i + 1))) =~= body@ + html_lines(s@.skip(i + 1)));
            i += 1;
        } else {
            push_escaped(&mut body, s[i]);
            assert(before + (escape_char(s@[i as int]) + html_lines(s@.skip(i + 1))) =~= body@ + html_lines(s@.skip(i + 1)));
            i += 1;
        }
    }
    proof {
        lemma_html_lines_skip(s@, i as int);
        assert(body@ =~= html_lines(s@));
    }
    let mut out = str_chars("<p>");
    crate::text::append_chars(&mut out, &body);
    append_str(&mut out, "</p>");
    string_from_chars(&out)
}

/// Unicode `Alphabetic` or `Numeric`, as `char::is_alphanumeric` decides.
pub uninterp spec fn is_alphanumeric(c: char) -> bool;

/// An ASCII letter or digit.
pub open spec fn is_ascii_alnum(c: char) -> bool {
    ('a' <= c && c <= 'z') || ('A' <= c && c <= 'Z') || ('0' <= c && c <= '9')
}

/// `char::is_alphanumeric`. Among ASCII characters exactly the letters and
/// digits are alphanumeric; other characters are as the Unicode tables say.
#[verifier::external_body]
pub(crate) fn char_is_alphanumeric(c: char) -> (r: bool)
    ensures
        r == is_alphanumeric(c),
        (c as u32) < 128 ==> (r <==> is_ascii_alnum(c)),
{
    c.is_alphanumeric()
}

/// A character that may continue a hashtag: an ASCII letter, digit or
/// `_`, or a non-ASCII character that Unicode counts as alphanumeric.
pub open spec fn tag_char(c: char) -> bool {
    if (c as u32) < 128 {
        is_ascii_alnum(c) || c == '_'
    } else {
        is_alphanumeric(c)
    }
}

/// The end of the run of hashtag characters starting at `j`.
pub open spec fn tag_end(s: Seq<char>, j: int) -> int
    decreases s.len() - j,
{
    if j >= s.len() || j < 0 {
        j
    } else if tag_char(s[j]) {
        tag_end(s, j + 1)
    } else {
        j
    }
}

pub proof fn lemma_tag_end(s: Seq<char>, j: int)
    requires
        0 <= j <= s.len(),
    ensures
        j <= tag_end(s, j) <= s.len(),
        forall|k: int| j <= k < tag_end(s, j) ==> tag_char(#[trigger] s[k]),
        tag_end(s, j) < s.len() ==> !tag_char(s[tag_end(s, j)]),
    decreases s.len() - j,
{
    if j < s.len() && tag_char(s[j]) {
        lemma_tag_end(s, j + 1);
    }
}

/// The hashtags of `s` from position `i` on, added to `out` in order of
/// first appearance: each `#` followed by letters, digits or `_`.
pub open spec fn hashtags_from(s: Seq<char>, i: int, out: Seq<Seq<char>>) -> Seq<Seq<char>>
    decreases s.len() - i,
{
    if i >= s.len() || i < 0 {
        out
    } else if s[i] != '#' {
        hashtags_from(s, i + 1, out)
    } else {
        proof {
            lemma_tag_end(s, i + 1);
        }
        let e = tag_end(s, i + 1);
        let tag = s.subrange(i + 1, e);
        let out2 = if tag.len() > 0 && !out.contains(tag) { out.push(tag) } else { out };
        if e <= i {
            out2
        } else {
            hashtags_from(s, e, out2)
        }
    }
}

/// The distinct hashtags of a text, without `#`, in order of first appearance.
pub open spec fn spec_extract_hashtags(s: Seq<char>) -> Seq<Seq<char>> {
    hashtags_from(s, 0, Seq::empty())
}

pub open spec fn string_views(v: Seq<String>) -> Seq<Seq<char>> {
    v.map_values(|x: String| x@)
}

fn contains_string(v: &Vec<String>, t: &Vec<char>) -> (r: bool)
    ensures
        r == string_views(v@).contains(t@),
{
    let mut i: usize = 0;
    while i < v.len()
        invariant
            i <= v.len(),
            forall|j: int| 0 <= j < i ==> v@[j]@ != t@,
        decreases v.len() - i,
    {
        let c = str_chars(v[i].as_str());
        if chars_eq(&c, t) {
            assert(string_views(v@)[i as int] == t@);
            return true;
        }
        i += 1;
    }
    assert forall|j: int| 0 <= j < string_views(v@).len() implies string_views(v@)[j] != t@ by {
        assert(string_views(v@)[j] == v@[j]@);
    }
    false
}

/// The hashtags of a text (`extract_hashtags`).
pub fn extract_hashtags(text: &str) -> (r: Vec<String>)
    ensures
        string_views(r@) == spec_extract_hashtags(text@),
{
    let s = str_chars(text);
    let mut out: Vec<String> = Vec::new();
    let mut i: usize = 0;
    assert(string_views(out@) =~= Seq::<Seq<char>>::empty());
    while i < s.len()
        invariant
            i <= s.len(),
            hashtags_from(s@, i as int, string_views(out@)) == spec_extract_hashtags(s@),
        decreases s.len() - i,
    {
        if s[i] != '#' {
            i += 1;
        } else {
            let mut e: usize = i + 1;
            while e < s.len() && (char_is_alphanumeric(s[e]) || s[e] == '_')
                invariant
                    i + 1 <= e <= s.len(),
                    tag_end(s@, i + 1) == tag_end(s@, e as int),
                decreases s.len() - e,
            {
                e += 1;
            }
            let tag = slice_chars(&s, i + 1, e);
            let ghost before = string_views(out@);
            if tag.len() > 0 && !contains_string(&out, &tag) {
                out.push(string_from_chars(&tag));
                assert(string_views(out@) =~= before.push(tag@));
            }
            i = e;
        }
    }
    out
}

/// The value of an ASCII hex digit.
pub open spec fn hex_val(c: u8) -> Option<u8> {
    if 48 <= c && c <= 57 {
        Some((c - 48) as u8)
    } else if 97 <= c && c <= 102 {
        Some((c - 97 + 10) as u8)
    } else if 65 <= c && c <= 70 {
        Some((c - 65 + 10) as u8)
    } else {
        None
    }
}

/// The value of an ASCII hex digit, either case.
pub fn from_hex(c: u8) -> (r: Option<u8>)
    ensures
        r == hex_val(c),
{
    if 48 <= c && c <= 57 {
        Some(c - 48)
    } else if 97 <= c && c <= 102 {
        Some(c - 97 + 10)
    } else if 65 <= c && c <= 70 {
        Some(c - 65 + 10)
    } else {
        None
    }
}

/// The decoding of `b` from position `i`: `+` is a space, `%XX` with two hex
/// digits is that byte (when two more bytes follow the `%`), any other byte
/// stands for the character with its value.
pub open spec fn url_decode_from(b: Seq<u8>, i: int) -> Seq<char>
    decreases b.len() - i,
{
    if i >= b.len() || i < 0 {
        Seq::empty()
    } else if b[i] == 43 {
        seq![' '] + url_decode_from(b, i + 1)
    } else if b[i] == 37 && i + 2 < b.len() && hex_val(b[i + 1]) is Some && hex_val(b[i + 2]) is Some {
        seq![((hex_val(b[i + 1]).unwrap() * 16 + hex_val(b[i + 2]).unwrap()) as u8) as char] + url_decode_from(b, i + 3)
    } else {
        seq![b[i] as char] + url_decode_from(b, i + 1)
    }
}

/// Minimal decoding of a query value (`+` and `%XX` only), byte by byte.
pub fn url_decode(s: &str) -> (r: String)
    ensures
        r@ == url_decode_from(s.spec_bytes(), 0),
{
    let bytes = s.as_bytes();
    let mut out: Vec<char> = Vec::new();
    let mut i: usize = 0;
    while i < bytes.len()
        invariant
            i <= bytes.len(),
            out@ + url_decode_from(bytes@, i as int) == url_decode_from(bytes@, 0),
        decreases bytes.len() - i,
    {
        let ghost before = out@;
        let c = bytes[i];
        if c == 43 {
            out.push(' ');
            assert(before + url_decode_from(bytes@, i as int) =~= out@ + url_decode_from(bytes@, i + 1));
            i += 1;
        } else if c == 37 && bytes.len() - i > 2 {
            let h1 = from_hex(bytes[i + 1]);
            let h2 = from_hex(bytes[i + 2]);
            match (h1, h2) {
                (Some(a), Some(b)) => {
                    out.push((a * 16 + b) as char);
                    assert(before + url_decode_from(bytes@, i as int) =~= out@ + url_decode_from(bytes@, i + 3));
                    i += 3;
                },
                _ => {
                    out.push('%');
                    assert(before + url_decode_from(bytes@, i as int) =~= out@ + url_decode_from(bytes@, i + 1));
                    i += 1;
                },
            }
        } else {
            out.push(c as char);
            assert(before + url_decode_from(bytes@, i as int) =~= out@ + url_decode_from(bytes@, i + 1));
            i += 1;
        }
    }
    assert(out@ =~= url_decode_from(bytes@, 0));
    string_from_chars(&out)
}

} // verus!
