//! Crawling a small fixed site graph held in memory: the caller fetches the
//! bodies and the crawler decides everything else.

use webcrawler::crawler::Crawler;

/// Drive a whole crawl over an in-memory site: hand the crawler each body it
/// asks for until it is done. A URL without a page yields an empty body.
fn run_crawl(seed: &str, pages: &[(&str, &str)]) -> Crawler {
    let mut crawler = Crawler::new(seed.to_string());
    let mut next = Some(seed.to_string());
    while let Some(url) = next {
        let body = pages
            .iter()
            .find(|(page_url, _)| *page_url == url)
            .map(|(_, body)| *body)
            .unwrap_or("");
        next = crawler.crawl_page(body);
    }
    crawler
}

fn duckduckgo_site() -> Vec<(&'static str, &'static str)> {
    vec![
        (
            "https://duckduckgo.com",
            r#"<a href="/about">About DuckDuckGo</a>"#,
        ),
        (
            "https://duckduckgo.com/about",
            r#"<a href="/">Home</a>"#,
        ),
        (
            "https://duckduckgo.com/",
            r#"<a href="/about">a</a><a href="/about">b</a><a href="/traffic">c</a><a href="/about">d</a>"#,
        ),
        (
            "https://duckduckgo.com/traffic",
            r#"<a href="/">h</a><a href="/hiring">i</a>"#,
        ),
        (
            "https://duckduckgo.com/hiring",
            r#"<a href="/donations">1</a><a href="/about">2</a><a href="/app">3</a><a href="/traffic">4</a><a href="/privacy">5</a><a href="/press">6</a><a href="https://spreadprivacy.com/">7</a><a href="https://twitter.com/duckduckgo">8</a><a href="https://reddit.com/r/duckduckgo">9</a><a href="/about">10</a><a href="https://duckduckgo.com">11</a>"#,
        ),
        (
            "https://duckduckgo.com/donations",
            r#"<a href="/app">App</a>"#,
        ),
        (
            "https://duckduckgo.com/app",
            r#"<a href="/">1</a><a href="https://spreadprivacy.com/tag/device-privacy-tips/">2</a><a href="/hiring">3</a><a href="/">4</a><a href="/assets/hiring/recruit-gdpr-processing-notice-1_11_20.pdf">5</a><a href="/about">6</a><a href="/app">7</a><a href="/traffic">8</a><a href="/privacy">9</a><a href="/press">10</a><a href="https://spreadprivacy.com/">11</a><a href="https://twitter.com/duckduckgo">12</a><a href="https://reddit.com/r/duckduckgo">13</a><a href="/about">14</a><a href="https://duckduckgo.com">15</a><a href="https://spreadprivacy.com/delete-google-search-history/">16</a><a href="/assets/email/DuckDuckGo-Privacy-Weekly_sample.png">17</a>"#,
        ),
        ("https://duckduckgo.com/privacy", ""),
        ("https://duckduckgo.com/press", ""),
        (
            "https://duckduckgo.com/assets/hiring/recruit-gdpr-processing-notice-1_11_20.pdf",
            "",
        ),
        (
            "https://duckduckgo.com/assets/email/DuckDuckGo-Privacy-Weekly_sample.png",
            "",
        ),
    ]
}

// Crawl the duckduckgo about page for urls. There should be these 37 URLs listed
#[test]
pub fn crawl_test() {
    let pages = duckduckgo_site();
    let crawler = run_crawl("https://duckduckgo.com", &pages);
    assert_eq!(
        crawler.get_links(),
        &vec![
            "https://duckduckgo.com/about",
            "https://duckduckgo.com/",
            "https://duckduckgo.com/about",
            "https://duckduckgo.com/about",
            "https://duckduckgo.com/traffic",
            "https://duckduckgo.com/",
            "https://duckduckgo.com/hiring",
            "https://duckduckgo.com/donations",
            "https://duckduckgo.com/app",
            "https://duckduckgo.com/",
            "https://spreadprivacy.com/tag/device-privacy-tips/",
            "https://duckduckgo.com/hiring",
            "https://duckduckgo.com/",
            "https://duckduckgo.com/assets/hiring/recruit-gdpr-processing-notice-1_11_20.pdf",
            "https://duckduckgo.com/about",
            "https://duckduckgo.com/app",
            "https://duckduckgo.com/traffic",
            "https://duckduckgo.com/privacy",
            "https://duckduckgo.com/press",
            "https://spreadprivacy.com/",
            "https://twitter.com/duckduckgo",
            "https://reddit.com/r/duckduckgo",
            "https://duckduckgo.com/about",
            "https://duckduckgo.com",
            "https://spreadprivacy.com/delete-google-search-history/",
            "https://duckduckgo.com/assets/email/DuckDuckGo-Privacy-Weekly_sample.png",
            "https://duckduckgo.com/about",
            "https://duckduckgo.com/app",
            "https://duckduckgo.com/traffic",
            "https://duckduckgo.com/privacy",
            "https://duckduckgo.com/press",
            "https://spreadprivacy.com/",
            "https://twitter.com/duckduckgo",
            "https://reddit.com/r/duckduckgo",
            "https://duckduckgo.com/about",
            "https://duckduckgo.com",
            "https://duckduckgo.com/about"
        ]
    )
}

// Crawl the duckduckgo about page for unique urls. There should be these 16 unique urls
#[test]
pub fn unique_count() {
    let pages = duckduckgo_site();
    let mut crawler = run_crawl("https://duckduckgo.com", &pages);
    crawler.remove_duplicates();
    assert_eq!(crawler.get_link_count(), 16)
}

// Crawl the duckduckgo about page for unique urls. There should be these 16 URLs listed
#[test]
pub fn unique_links() {
    let pages = duckduckgo_site();
    let mut crawler = run_crawl("https://duckduckgo.com", &pages);
    crawler.remove_duplicates();
    assert_eq!(
        crawler.get_links(),
        &vec![
            "https://duckduckgo.com/about",
            "https://duckduckgo.com/",
            "https://duckduckgo.com/traffic",
            "https://duckduckgo.com/hiring",
            "https://duckduckgo.com/donations",
            "https://duckduckgo.com/app",
            "https://spreadprivacy.com/tag/device-privacy-tips/",
            "https://duckduckgo.com/assets/hiring/recruit-gdpr-processing-notice-1_11_20.pdf",
            "https://duckduckgo.com/privacy",
            "https://duckduckgo.com/press",
            "https://spreadprivacy.com/",
            "https://twitter.com/duckduckgo",
            "https://reddit.com/r/duckduckgo",
            "https://duckduckgo.com",
            "https://spreadprivacy.com/delete-google-search-history/",
            "https://duckduckgo.com/assets/email/DuckDuckGo-Privacy-Weekly_sample.png"
        ]
    )
}

// A fixed site graph always yields the same link sequence in the same order.
#[test]
fn crawl_is_deterministic() {
    let pages = duckduckgo_site();
    let first = run_crawl("https://duckduckgo.com", &pages);
    let second = run_crawl("https://duckduckgo.com", &pages);
    assert_eq!(first.get_links(), second.get_links());
}

// A seed with a trailing slash is normalized: the origin drops the slash
// before any relative href is resolved against it.
#[test]
fn trailing_slash_seed_normalized() {
    let pages = vec![("https://example.com/", r#"<a href="/x">x</a>"#)];
    let mut crawler = Crawler::new("https://example.com/".to_string());
    let next = crawler.crawl_page(pages[0].1);
    assert_eq!(next, Some("https://example.com/x".to_string()));
    assert_eq!(crawler.get_links(), &vec!["https://example.com/x"]);
}

// A relative href resolves against the origin and is recursed into exactly
// once, even when it is linked twice from the same page and again from the
// page it names.
#[test]
fn relative_href_fetched_once() {
    let seed_body = r#"<a href="/x">1</a><a href="/x">2</a>"#;
    let x_body = r#"<a href="/x">3</a>"#;
    let mut crawler = Crawler::new("https://example.com".to_string());
    let mut fetched: Vec<String> = Vec::new();
    let mut next = crawler.crawl_page(seed_body);
    while let Some(url) = next {
        fetched.push(url.clone());
        let body = if url == "https://example.com/x" { x_body } else { "" };
        next = crawler.crawl_page(body);
    }
    assert_eq!(fetched, vec!["https://example.com/x".to_string()]);
    assert_eq!(
        crawler.get_links(),
        &vec![
            "https://example.com/x",
            "https://example.com/x",
            "https://example.com/x"
        ]
    );
}

// Hrefs that do not begin with `/` are recorded verbatim and never fetched.
#[test]
fn external_hrefs_recorded_not_followed() {
    let body = r##"<a href="https://other.example/page">1</a><a href="#frag">2</a><a href="relative/path">3</a>"##;
    let mut crawler = Crawler::new("https://example.com".to_string());
    let next = crawler.crawl_page(body);
    assert_eq!(next, None);
    assert_eq!(
        crawler.get_links(),
        &vec!["https://other.example/page", "#frag", "relative/path"]
    );
}

// add_url records a relative href resolved against the origin and marks it
// to be fetched; a second add of the same href is recorded but not followed.
#[test]
fn add_url_resolves_and_marks() {
    let mut crawler = Crawler::new("https://example.com".to_string());
    let first = crawler.add_url("/a".to_string());
    assert_eq!(first, Some("https://example.com/a".to_string()));
    let second = crawler.add_url("/a".to_string());
    assert_eq!(second, None);
    let external = crawler.add_url("https://elsewhere.example".to_string());
    assert_eq!(external, None);
    assert_eq!(
        crawler.get_links(),
        &vec![
            "https://example.com/a",
            "https://example.com/a",
            "https://elsewhere.example"
        ]
    );
}
