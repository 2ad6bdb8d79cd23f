use lightcode::web::{
    decode_ddg_href, decode_entities, first_results, is_pct_safe, looks_like_html, parse_ddg, parse_ddg_checked,
    percent_decode, search_limit, search_report, urlencode, SearchResult,
};

#[test]
fn decodes_entities() {
    assert_eq!(decode_entities("a &lt; b &gt; c &quot;d&quot;"), "a < b > c \"d\"");
}

#[test]
fn decodes_percent_encoding() {
    assert_eq!(percent_decode("hello%20world"), "hello world");
    assert_eq!(percent_decode("a%2Bb"), "a+b");
}

#[test]
fn urlencodes_query() {
    assert_eq!(urlencode("stripe api v2"), "stripe+api+v2");
}

#[test]
fn entity_order_decodes_amp_first() {
    assert_eq!(decode_entities("&amp;lt; &#39;x&apos; a&nbsp;b"), "< 'x' a b");
}

#[test]
fn percent_decode_edge_cases() {
    assert_eq!(percent_decode("100%"), "100%");
    assert_eq!(percent_decode("%zz%41"), "%zzA");
    assert_eq!(percent_decode("%+F"), "\u{f}");
    assert_eq!(percent_decode("%C3%A9"), "é");
    assert_eq!(percent_decode("%FF"), "\u{fffd}");
}

#[test]
fn urlencode_escapes_bytes() {
    assert_eq!(urlencode("a/b?c=é~"), "a%2Fb%3Fc%3D%C3%A9~");
}

#[test]
fn ddg_links() {
    assert_eq!(
        decode_ddg_href("//duckduckgo.com/l/?uddg=https%3A%2F%2Fdocs.stripe.com%2Fapi&rut=x"),
        "https://docs.stripe.com/api"
    );
    assert_eq!(decode_ddg_href("https://example.com/2"), "https://example.com/2");
}

#[test]
fn html_detection() {
    assert!(looks_like_html("  <!DOCTYPE html><p>x"));
    assert!(looks_like_html("text <BODY> more"));
    assert!(!looks_like_html("plain text"));
}

#[test]
fn strips_html_to_text() {
    let html = r#"<html><head><style>.x{}</style></head><body>
            <h1>Hello &amp; world</h1>
            <p>Some <b>bold</b> text.</p>
            <script>alert('bad');</script>
        </body></html>"#;
    let text = lightcode::web::html_to_text(html);
    assert!(text.contains("Hello & world"));
    assert!(text.contains("Some bold text."));
    assert!(!text.contains("alert"));
    assert!(!text.contains("<"));
}

#[test]
fn html_to_text_exact_lines() {
    let text = lightcode::web::html_to_text("<p>a\t\t b</p>\n\n  <br>c  ");
    assert_eq!(text, "a b\nc");
}

const DDG_PAGE: &str = r#"<html><body>
            <div class="result">
              <a rel="nofollow" class="result__a" href="//duckduckgo.com/l/?uddg=https%3A%2F%2Fdocs.stripe.com%2Fapi&rut=x">Stripe API Reference</a>
              <a class="result__snippet" href="//duckduckgo.com/l/?uddg=x&rut=y">Official Stripe API docs.</a>
            </div>
            <div class="result">
              <a rel="nofollow" class="result__a" href="https://example.com/2">Second Result</a>
              <a class="result__snippet" href="//duckduckgo.com/l/?uddg=x&rut=y">Second snippet.</a>
            </div>
        </body></html>"#;

#[test]
fn parses_ddg_html() {
    let results = parse_ddg(DDG_PAGE, 5);
    assert_eq!(results.len(), 2);
    assert_eq!(results[0].title, "Stripe API Reference");
    assert_eq!(results[0].url, "https://docs.stripe.com/api");
    assert_eq!(results[0].snippet, "Official Stripe API docs.");
    assert_eq!(results[1].url, "https://example.com/2");
}

#[test]
fn ddg_limit_keeps_at_least_one_result() {
    assert_eq!(parse_ddg(DDG_PAGE, 1).len(), 1);
    assert_eq!(parse_ddg(DDG_PAGE, 0).len(), 1);
    assert_eq!(parse_ddg("<html>no results</html>", 3).len(), 0);
}

#[test]
fn ddg_titles_lose_their_tags_and_missing_snippets_are_empty() {
    let page = r#"<a class="result__a" href="https://a.example/x"> <b>Bold</b> title </a>"#;
    let results = parse_ddg(page, 5);
    assert_eq!(results.len(), 1);
    assert_eq!(results[0].title, "Bold  title");
    assert_eq!(results[0].url, "https://a.example/x");
    assert_eq!(results[0].snippet, "");
}

#[test]
fn checked_ddg_parse_refuses_undecodable_links() {
    assert_eq!(parse_ddg_checked(DDG_PAGE, 5).map(|v| v.len()), Some(2));
    let page = "<a class=\"result__a\" href=\"%a\u{e9}\">t</a>";
    assert!(parse_ddg_checked(page, 5).is_none());
    assert!(is_pct_safe("a%20b"));
    assert!(!is_pct_safe("%a\u{e9}"));
}

fn hit(t: &str) -> SearchResult {
    SearchResult { title: t.into(), url: format!("https://{t}.example"), snippet: format!("about {t}") }
}

#[test]
fn search_limits_and_reports() {
    assert_eq!(search_limit(None), 5);
    assert_eq!(search_limit(Some(0)), 1);
    assert_eq!(search_limit(Some(50)), 10);
    assert_eq!(search_limit(Some(3)), 3);
    let v = vec![hit("a"), hit("b"), hit("c")];
    assert_eq!(first_results(v.clone(), 2).len(), 2);
    assert_eq!(first_results(v.clone(), 0).len(), 1);
    assert_eq!(first_results(v.clone(), 9).len(), 3);
    assert_eq!(search_report("q", &vec![]), "web_search: no results for 'q'");
    assert_eq!(
        search_report("rust", &v[..2].to_vec()),
        "Search results for 'rust':\n1. a\n   https://a.example\n   about a\n2. b\n   https://b.example\n   about b\n"
    );
}
