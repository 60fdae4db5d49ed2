//! Small HTML helpers: entities, percent-encoded paths, and the list items
//! of a table of contents.

use crate::text::{
    decimal_digits, from_chars, push_number, push_range, replace_str, replaced, to_chars,
};
use crate::toc::{slug_of, slugify, TocEntry};
use vstd::prelude::*;
use vstd::string::*;

verus! {

/// `s` with the five entities `&amp;`, `&lt;`, `&gt;`, `&quot;` and `&#39;`
/// decoded, one after the other in this order.
pub open spec fn html_decoded(s: Seq<char>) -> Seq<char> {
    replaced(
        replaced(
            replaced(replaced(replaced(s, "&amp;"@, "&"@), "&lt;"@, "<"@), "&gt;"@, ">"@),
            "&quot;"@,
            "\""@,
        ),
        "&#39;"@,
        "'"@,
    )
}

/// Decodes the HTML entities of `&`, `<`, `>`, `"` and `'`.
pub fn html_decode(s: &str) -> (r: String)
    ensures
        r@ == html_decoded(s@),
{
    proof {
        reveal_strlit("&amp;");
        reveal_strlit("&lt;");
        reveal_strlit("&gt;");
        reveal_strlit("&quot;");
        reveal_strlit("&#39;");
    }
    let v = to_chars(s);
    let v = replace_str(&v, "&amp;", "&");
    let v = replace_str(&v, "&lt;", "<");
    let v = replace_str(&v, "&gt;", ">");
    let v = replace_str(&v, "&quot;", "\"");
    let v = replace_str(&v, "&#39;", "'");
    from_chars(&v)
}

/// `s` with `&`, `<` and `>` encoded as entities, one after the other in
/// this order.
pub open spec fn html_encoded(s: Seq<char>) -> Seq<char> {
    replaced(replaced(replaced(s, "&"@, "&amp;"@), "<"@, "&lt;"@), ">"@, "&gt;"@)
}

/// Encodes `&`, `<` and `>` as HTML entities.
pub fn html_encode(s: &str) -> (r: String)
    ensures
        r@ == html_encoded(s@),
{
    proof {
        reveal_strlit("&");
        reveal_strlit("<");
        reveal_strlit(">");
    }
    let v = to_chars(s);
    let v = replace_str(&v, "&", "&amp;");
    let v = replace_str(&v, "<", "&lt;");
    let v = replace_str(&v, ">", "&gt;");
    from_chars(&v)
}

/// The value of a hexadecimal digit.
pub open spec fn hex_value(c: char) -> Option<int> {
    if '0' <= c && c <= '9' {
        Some(c as int - '0' as int)
    } else if 'a' <= c && c <= 'f' {
        Some(c as int - 'a' as int + 10)
    } else if 'A' <= c && c <= 'F' {
        Some(c as int - 'A' as int + 10)
    } else {
        None
    }
}

/// The byte that two characters after a percent sign stand for: two
/// hexadecimal digits, or a plus sign and one hexadecimal digit.
pub open spec fn escaped_byte(a: char, b: char) -> Option<u8> {
    match (hex_value(a), hex_value(b)) {
        (Some(high), Some(low)) => Some((16 * high + low) as u8),
        (None, Some(low)) => if a == '+' {
            Some(low as u8)
        } else {
            None
        },
        _ => None,
    }
}

/// `s[i..]` with its percent escapes decoded: a percent sign with a valid
/// escape after it becomes the character of that code; any other percent
/// sign stays, and so do the (up to two) characters after it.
pub open spec fn percent_decoded_from(s: Seq<char>, i: int) -> Seq<char>
    decreases s.len() - i,
{
    if i < 0 || i >= s.len() {
        Seq::empty()
    } else if s[i] != '%' {
        seq![s[i]] + percent_decoded_from(s, i + 1)
    } else if i + 2 < s.len() && escaped_byte(s[i + 1], s[i + 2]).is_some() {
        seq![escaped_byte(s[i + 1], s[i + 2]).unwrap() as char] + percent_decoded_from(s, i + 3)
    } else if i + 2 < s.len() {
        s.subrange(i, i + 3) + percent_decoded_from(s, i + 3)
    } else {
        s.subrange(i, s.len() as int)
    }
}

/// `s` with its percent escapes decoded.
pub open spec fn percent_decoded(s: Seq<char>) -> Seq<char> {
    percent_decoded_from(s, 0)
}

fn hex_digit(c: char) -> (v: Option<u8>)
    ensures
        match hex_value(c) {
            Some(value) => v == Some(value as u8) && 0 <= value < 16,
            None => v.is_none(),
        },
{
    if c >= '0' && c <= '9' {
        Some((c as u32 - '0' as u32) as u8)
    } else if c >= 'a' && c <= 'f' {
        Some((c as u32 - 'a' as u32 + 10) as u8)
    } else if c >= 'A' && c <= 'F' {
        Some((c as u32 - 'A' as u32 + 10) as u8)
    } else {
        None
    }
}

fn escape_value(a: char, b: char) -> (v: Option<u8>)
    ensures
        v == escaped_byte(a, b),
{
    match hex_digit(b) {
        Some(low) => match hex_digit(a) {
            Some(high) => Some(16 * high + low),
            None => if a == '+' {
                Some(low)
            } else {
                None
            },
        },
        None => None,
    }
}

/// Decodes the percent escapes of a path, such as `%20` for a space.
pub fn percent_decode(s: &str) -> (r: String)
    ensures
        r@ == percent_decoded(s@),
{
    let v = to_chars(s);
    let mut r = String::new();
    let mut i: usize = 0;
    assert(r@ + percent_decoded_from(v@, 0) =~= percent_decoded(v@));
    while i < v.len()
        invariant
            i <= v.len(),
            r@ + percent_decoded_from(v@, i as int) == percent_decoded(v@),
        decreases v.len() - i,
    {
        let ghost before = r@;
        let ghost rest = percent_decoded_from(v@, i as int);
        let c = v[i];
        if c != '%' {
            r.push(c);
            assert(r@ + percent_decoded_from(v@, i + 1) =~= before + rest);
            i += 1;
        } else if v.len() - i > 2 {
            match escape_value(v[i + 1], v[i + 2]) {
                Some(byte) => {
                    r.push(byte as char);
                },
                None => {
                    push_range(&mut r, &v, i, i + 3);
                },
            }
            assert(r@ + percent_decoded_from(v@, i + 3) =~= before + rest);
            i += 3;
        } else {
            push_range(&mut r, &v, i, v.len());
            assert(r@ =~= before + rest);
            i = v.len();
            assert(percent_decoded_from(v@, i as int) =~= Seq::<char>::empty());
            assert(r@ + Seq::<char>::empty() =~= r@);
        }
    }
    assert(percent_decoded_from(v@, i as int) =~= Seq::<char>::empty());
    assert(r@ + Seq::<char>::empty() =~= r@);
    r
}

/// The list item of one entry: its level as a class, its anchor as the
/// target of a link, and its text as the link's label.
pub open spec fn toc_item(level: u8, anchor: Seq<char>, text: Seq<char>) -> Seq<char> {
    "<li class=\"toc-h"@ + decimal_digits(level as nat) + "\"><a href=\"#"@ + anchor + "\">"@ + text
        + "</a></li>"@
}

/// The list items of the first `n` entries, one after the other.
pub open spec fn toc_items(entries: Seq<TocEntry>, n: int) -> Seq<char>
    decreases n,
{
    if n <= 0 {
        Seq::empty()
    } else {
        toc_items(entries, n - 1) + toc_item(
            entries[n - 1].level,
            entries[n - 1].anchor@,
            entries[n - 1].text@,
        )
    }
}

/// The list items of a table of contents.
pub fn build_toc_html(entries: &Vec<TocEntry>) -> (html: String)
    ensures
        html@ == toc_items(entries@, entries.len() as int),
{
    let mut html = String::new();
    let mut i: usize = 0;
    while i < entries.len()
        invariant
            i <= entries.len(),
            html@ == toc_items(entries@, i as int),
        decreases entries.len() - i,
    {
        let ghost before = html@;
        html.append("<li class=\"toc-h");
        push_number(&mut html, entries[i].level as u128);
        html.append("\"><a href=\"#");
        html.append(entries[i].anchor.as_str());
        html.append("\">");
        html.append(entries[i].text.as_str());
        html.append("</a></li>");
        assert(html@ =~= before + toc_item(
            entries@[i as int].level,
            entries@[i as int].anchor@,
            entries@[i as int].text@,
        ));
        i += 1;
    }
    html
}

/// What `regex::Regex::replace_all` makes of `text` when every match of
/// `pattern` is replaced by `replacement`; none where the pattern does not
/// compile.
pub uninterp spec fn regex_replaced(
    pattern: Seq<char>,
    text: Seq<char>,
    replacement: Seq<char>,
) -> Option<Seq<char>>;

/// What `regex::Regex::replace_all` makes of `text` when every match of
/// `pattern` is replaced by the heading that `heading_with_id` makes of the
/// match's first and second group (an absent group counts as empty); none
/// where the pattern does not compile.
pub uninterp spec fn regex_headings_replaced(pattern: Seq<char>, text: Seq<char>) -> Option<
    Seq<char>,
>;

/// `regex::Regex::new` and `Regex::replace_all` with a text as replacement:
/// the outcome is a function of the three texts alone, named
/// `regex_replaced`.
#[verifier::external_body]
fn regex_replace_all(pattern: &str, text: &str, replacement: &str) -> (r: Option<String>)
    ensures
        match r {
            Some(s) => regex_replaced(pattern@, text@, replacement@) == Some(s@),
            None => regex_replaced(pattern@, text@, replacement@).is_none(),
        },
{
    match regex::Regex::new(pattern) {
        Ok(re) => Some(re.replace_all(text, replacement).into_owned()),
        Err(_) => None,
    }
}

/// `regex::Regex::new` and `Regex::replace_all` with `heading_with_id` as
/// the replacement of each match: the outcome is a function of the two
/// texts alone, named `regex_headings_replaced`.
#[verifier::external_body]
fn regex_replace_headings(pattern: &str, text: &str) -> (r: Option<String>)
    ensures
        match r {
            Some(s) => regex_headings_replaced(pattern@, text@) == Some(s@),
            None => regex_headings_replaced(pattern@, text@).is_none(),
        },
{
    match regex::Regex::new(pattern) {
        Ok(re) => Some(
            re.replace_all(
                text,
                |caps: &regex::Captures| heading_with_id(
                    caps.get(1).map_or("", |m| m.as_str()),
                    caps.get(2).map_or("", |m| m.as_str()),
                ),
            ).into_owned(),
        ),
        Err(_) => None,
    }
}

/// `html` without its tags: every stretch from `<` to the next `>` with
/// something between them is taken out, as the pattern `<[^>]+>` finds them.
pub open spec fn tags_stripped(html: Seq<char>) -> Seq<char> {
    match regex_replaced("<[^>]+>"@, html, ""@) {
        Some(text) => text,
        None => html,
    }
}

/// Takes the tags out of a piece of HTML.
pub fn strip_html_tags(html: &str) -> (r: String)
    ensures
        r@ == tags_stripped(html@),
{
    match regex_replace_all("<[^>]+>", html, "") {
        Some(text) => text,
        None => html.to_owned(),
    }
}

/// The element `tag` around `content`, with `id` as its `id`.
pub open spec fn element_with_id(tag: Seq<char>, id: Seq<char>, content: Seq<char>) -> Seq<char> {
    "<"@ + tag + " id=\""@ + id + "\">"@ + content + "</"@ + tag + ">"@
}

/// Makes the element `tag` around `content`, with `id` as its `id`.
pub fn frame_heading(tag: &str, id: &str, content: &str) -> (r: String)
    ensures
        r@ == element_with_id(tag@, id@, content@),
{
    let mut r = String::new();
    r.append("<");
    r.append(tag);
    r.append(" id=\"");
    r.append(id);
    r.append("\">");
    r.append(content);
    r.append("</");
    r.append(tag);
    r.append(">");
    r
}

/// A heading element with an `id`: the anchor of its content without tags.
pub open spec fn heading_of(tag: Seq<char>, content: Seq<char>) -> Seq<char> {
    element_with_id(tag, slug_of(tags_stripped(content)), content)
}

/// Makes the heading element `tag` around `content`, with the anchor of the
/// content as its `id`.
pub fn heading_with_id(tag: &str, content: &str) -> (r: String)
    ensures
        r@ == heading_of(tag@, content@),
{
    let plain = strip_html_tags(content);
    let id = slugify(plain.as_str());
    frame_heading(tag, id.as_str(), content)
}

/// `html` with an `id` on every heading: each element from `<h1>` to
/// `<h6>` without attributes, as the pattern `<(h[1-6])>(.*?)</h[1-6]>`
/// finds them, is made anew by `heading_with_id`.
pub open spec fn with_heading_ids(html: Seq<char>) -> Seq<char> {
    match regex_headings_replaced("<(h[1-6])>(.*?)</h[1-6]>"@, html) {
        Some(text) => text,
        None => html,
    }
}

/// Gives every heading of a piece of HTML an `id`, for links to it.
pub fn add_heading_ids(html: &str) -> (r: String)
    ensures
        r@ == with_heading_ids(html@),
{
    match regex_replace_headings("<(h[1-6])>(.*?)</h[1-6]>", html) {
        Some(text) => text,
        None => html.to_owned(),
    }
}


/// What `regex::Regex::replace` makes of `text` when the first match of
/// `pattern` is replaced by `replacement`; none where the pattern does not
/// compile.
pub uninterp spec fn regex_replaced_first(
    pattern: Seq<char>,
    text: Seq<char>,
    replacement: Seq<char>,
) -> Option<Seq<char>>;

/// `regex::Regex::new` and `Regex::replace` with a text as replacement: the
/// outcome is a function of the three texts alone, named
/// `regex_replaced_first`.
#[verifier::external_body]
fn regex_replace_first(pattern: &str, text: &str, replacement: &str) -> (r: Option<String>)
    ensures
        match r {
            Some(s) => regex_replaced_first(pattern@, text@, replacement@) == Some(s@),
            None => regex_replaced_first(pattern@, text@, replacement@).is_none(),
        },
{
    match regex::Regex::new(pattern) {
        Ok(re) => Some(re.replace(text, replacement).into_owned()),
        Err(_) => None,
    }
}

/// The attribute that names `uri` as the source of an image.
pub open spec fn source_attribute(uri: Seq<char>) -> Seq<char> {
    "src=\""@ + uri + "\""@
}

/// The tag `tag` with `uri` as its source: the first attribute `src` of the
/// tag, as the pattern `src="[^"]+"` finds it, is made anew.
pub open spec fn tag_with_source(tag: Seq<char>, uri: Seq<char>) -> Seq<char> {
    match regex_replaced_first("src=\"[^\"]+\""@, tag, source_attribute(uri)) {
        Some(text) => text,
        None => tag,
    }
}

/// Gives an image tag another source.
pub fn with_source(tag: &str, uri: &str) -> (r: String)
    ensures
        r@ == tag_with_source(tag@, uri@),
{
    let mut attribute = String::new();
    attribute.append("src=\"");
    attribute.append(uri);
    attribute.append("\"");
    match regex_replace_first("src=\"[^\"]+\"", tag, attribute.as_str()) {
        Some(text) => text,
        None => tag.to_owned(),
    }
}

} // verus!
