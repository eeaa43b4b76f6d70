//! Link extraction over documents of every shape the tokenizer handles.

use webcrawler::extract::extract_links;

fn links(html: &str) -> Vec<String> {
    extract_links(html)
}

#[test]
fn single_anchor() {
    assert_eq!(links(r#"<a href="/about">About</a>"#), vec!["/about"]);
}

#[test]
fn document_order_with_duplicates() {
    let html = r#"<p><a href="/a">1</a> text <a href="/b">2</a><a href="/a">3</a></p>"#;
    assert_eq!(links(html), vec!["/a", "/b", "/a"]);
}

#[test]
fn empty_document() {
    assert_eq!(links(""), Vec::<String>::new());
    assert_eq!(links("no tags at all"), Vec::<String>::new());
}

#[test]
fn uppercase_tag_name_matches() {
    assert_eq!(links(r#"<A href="/x">x</A>"#), vec!["/x"]);
}

#[test]
fn uppercase_attribute_name_does_not_match() {
    // attribute names are matched exactly against the literal `href`
    assert_eq!(links(r#"<a HREF="/x">x</a>"#), Vec::<String>::new());
    assert_eq!(links(r#"<a Href="/x">x</a>"#), Vec::<String>::new());
}

#[test]
fn quote_styles() {
    assert_eq!(links(r#"<a href='/single'>s</a>"#), vec!["/single"]);
    assert_eq!(links(r#"<a href=/unquoted>u</a>"#), vec!["/unquoted"]);
    assert_eq!(links(r#"<a href="/double">d</a>"#), vec!["/double"]);
}

#[test]
fn value_taken_verbatim() {
    // no decoding and no trimming of the attribute value
    assert_eq!(
        links(r#"<a href="/a b?q=1&amp;r=2#frag">x</a>"#),
        vec!["/a b?q=1&amp;r=2#frag"]
    );
}

#[test]
fn href_without_value_is_empty() {
    assert_eq!(links(r#"<a href>x</a>"#), vec![""]);
    assert_eq!(links(r#"<a href="">x</a>"#), vec![""]);
}

#[test]
fn other_attributes_ignored() {
    assert_eq!(
        links(r#"<a class="nav" href="/x" id="home">x</a>"#),
        vec!["/x"]
    );
}

#[test]
fn first_href_of_a_tag_wins() {
    assert_eq!(links(r#"<a href="/first" href="/second">x</a>"#), vec!["/first"]);
}

#[test]
fn non_anchor_tags_ignored() {
    let html = r#"<div href="/no"><link href="/style.css"><area href="/map"></div>"#;
    assert_eq!(links(html), Vec::<String>::new());
}

#[test]
fn end_tags_ignored() {
    assert_eq!(links(r#"</a href="/x">"#), Vec::<String>::new());
}

#[test]
fn anchor_with_longer_name_ignored() {
    assert_eq!(links(r#"<abbr href="/x">x</abbr>"#), Vec::<String>::new());
}

#[test]
fn self_closing_anchor() {
    assert_eq!(links(r#"<a href="/x"/>"#), vec!["/x"]);
}

#[test]
fn malformed_markup_is_tolerated() {
    // an unterminated tag never emits
    assert_eq!(links(r#"<a href="/x""#), Vec::<String>::new());
    // a stray `<` before a real tag
    assert_eq!(links(r#"< <a href="/x">x</a>"#), vec!["/x"]);
    // `<` followed by a non-letter is text
    assert_eq!(links(r#"<1> <a href="/x">x</a>"#), vec!["/x"]);
    // doctype and processing instructions are skipped
    assert_eq!(links(r#"<!DOCTYPE html><?pi?><a href="/x">x</a>"#), vec!["/x"]);
}

#[test]
fn quoted_value_may_hold_closing_angle() {
    assert_eq!(links(r#"<a href="/x>y">x</a>"#), vec!["/x>y"]);
}

#[test]
fn unquoted_value_ends_at_space_or_close() {
    assert_eq!(links(r#"<a href=/x id=7>x</a>"#), vec!["/x"]);
    assert_eq!(links(r#"<a href=/y>x</a>"#), vec!["/y"]);
}

#[test]
fn whitespace_inside_tag() {
    assert_eq!(links("<a\n  href = \"/x\"\n>x</a>"), vec!["/x"]);
}
