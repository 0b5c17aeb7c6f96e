use myo::json::Json;
use myo::tools::web::{
    clean, decode_ddg_href, format_results, parse_ddg, parse_searxng, percent_decode,
    search_progress, searxng_search_url, web_search_args, Hit,
};

#[test]
fn percent_decode_basics() {
    assert_eq!(percent_decode("https%3A%2F%2Fa.com%2Fx"), "https://a.com/x");
    assert_eq!(percent_decode("a+b"), "a b");
    assert_eq!(percent_decode("plain"), "plain");
}

#[test]
fn clean_strips_tags_and_entities() {
    assert_eq!(clean("<b>Rust</b> &amp; you"), "Rust & you");
    assert_eq!(clean("  spaced &#x27;quote&#x27;  "), "spaced 'quote'");
}

#[test]
fn decode_ddg_href_unwraps_uddg() {
    let href = "//duckduckgo.com/l/?uddg=https%3A%2F%2Fwww.rust-lang.org%2F&rut=abc";
    assert_eq!(decode_ddg_href(href), "https://www.rust-lang.org/");
    assert_eq!(decode_ddg_href("//example.com/x"), "https://example.com/x");
}

#[test]
fn parse_ddg_extracts_hits_from_fixture() {
    let html = r#"
        <div class="result results_links">
          <a class="result__a" href="//duckduckgo.com/l/?uddg=https%3A%2F%2Fwww.rust-lang.org%2F">The <b>Rust</b> Language</a>
          <a class="result__snippet" href="//duckduckgo.com/l/?uddg=https%3A%2F%2Fwww.rust-lang.org%2F">A language empowering everyone.</a>
        </div>
        <div class="result results_links">
          <a class="result__a" href="//duckduckgo.com/l/?uddg=https%3A%2F%2Fdoc.rust-lang.org%2F">Rust Docs</a>
          <a class="result__snippet" href="x">The official docs &amp; book.</a>
        </div>
        "#;
    let hits = parse_ddg(html, 5);
    assert_eq!(hits.len(), 2);
    assert_eq!(hits[0].url, "https://www.rust-lang.org/");
    assert_eq!(hits[0].title, "The Rust Language");
    assert_eq!(hits[0].snippet, "A language empowering everyone.");
    assert_eq!(hits[1].url, "https://doc.rust-lang.org/");
    assert_eq!(hits[1].snippet, "The official docs & book.");
}

#[test]
fn parse_ddg_respects_limit() {
    let html = r#"
          <a class="result__a" href="//duckduckgo.com/l/?uddg=https%3A%2F%2Fa.com">A</a>
          <a class="result__a" href="//duckduckgo.com/l/?uddg=https%3A%2F%2Fb.com">B</a>
          <a class="result__a" href="//duckduckgo.com/l/?uddg=https%3A%2F%2Fc.com">C</a>
        "#;
    assert_eq!(parse_ddg(html, 2).len(), 2);
}

#[test]
fn parse_ddg_gives_nothing_at_limit_zero() {
    let html = r#"<a class="result__a" href="//duckduckgo.com/l/?uddg=https%3A%2F%2Fa.com">A</a>"#;
    assert_eq!(parse_ddg(html, 1).len(), 1);
    assert!(parse_ddg(html, 0).is_empty());
}

#[test]
fn parse_searxng_reads_results() {
    let v = Json::parse(
        r#"{
            "results": [
                { "title": "A", "url": "https://a.com", "content": "first" },
                { "title": "B", "url": "https://b.com", "content": "second" }
            ]
        }"#,
    )
    .unwrap();
    let hits = parse_searxng(&v, 5);
    assert_eq!(hits.len(), 2);
    assert_eq!(hits[1].url, "https://b.com");
    assert_eq!(hits[0].snippet, "first");
}

#[test]
fn percent_decode_keeps_malformed_escapes() {
    assert_eq!(percent_decode("100%"), "100%");
    assert_eq!(percent_decode("%zz"), "%zz");
}

#[test]
fn search_args_clamp_the_limit() {
    let a = Json::parse(r#"{"query":"rust","limit":50}"#).unwrap();
    assert_eq!(web_search_args(&a), Ok(("rust".to_string(), 10)));
    let b = Json::parse(r#"{"query":"rust","limit":0}"#).unwrap();
    assert_eq!(web_search_args(&b), Ok(("rust".to_string(), 1)));
    let c = Json::parse(r#"{"query":"rust"}"#).unwrap();
    assert_eq!(web_search_args(&c), Ok(("rust".to_string(), 5)));
    let d = Json::parse(r#"{"limit":3}"#).unwrap();
    assert_eq!(web_search_args(&d), Err("web_search requires a 'query' string".to_string()));
}

#[test]
fn results_are_numbered_for_the_model() {
    let hits = vec![
        Hit { title: "A".into(), url: "https://a.com".into(), snippet: "first".into() },
        Hit { title: "".into(), url: "https://b.com".into(), snippet: "second".into() },
    ];
    assert_eq!(
        format_results("q", &hits),
        "Top 2 web results for \"q\":\n\n1. A\nhttps://a.com\nfirst\n\n2. (untitled)\nhttps://b.com\nsecond\n"
    );
    assert_eq!(format_results("q", &[]), "No web results found for \"q\".");
    assert_eq!(search_progress("q"), "Searching the web for: q");
}

#[test]
fn searxng_url_drops_trailing_slashes() {
    assert_eq!(searxng_search_url("http://sx.local/"), "http://sx.local/search");
}
