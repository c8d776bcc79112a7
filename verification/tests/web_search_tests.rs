use mojentic::error::MojenticError;
use mojentic::web_search::{
    assemble_results, clean_text, decode_url, parse_results, search_url, validate_query, MAX_RESULTS,
};

#[test]
fn test_decode_url() {
    let url = "//duckduckgo.com/l/?uddg=https%3A%2F%2Fexample.com%2Fpath";
    let decoded = decode_url(url);
    assert_eq!(decoded, "https://example.com/path");

    let url = "https://example.com/direct";
    let decoded = decode_url(url);
    assert_eq!(decoded, "https://example.com/direct");
}

#[test]
fn decode_url_stops_at_ampersand() {
    assert_eq!(decode_url("//d.com/l/?uddg=https%3A%2F%2Fa.b%2F&rut=xyz"), "https://a.b/");
}

#[test]
fn test_clean_text() {
    assert_eq!(clean_text("  Multiple   spaces  "), "Multiple spaces");
    assert_eq!(clean_text("Text&amp;more"), "Text&more");
    assert_eq!(clean_text("&lt;tag&gt;"), "<tag>");
    assert_eq!(clean_text("&quot;quoted&quot;"), "\"quoted\"");
    assert_eq!(clean_text("it&#39;s"), "it's");
}

#[test]
fn clean_text_decodes_in_order() {
    assert_eq!(clean_text("a\t\nb &amp;lt;"), "a b <");
}

#[test]
fn test_run_missing_query() {
    match validate_query(None) {
        Err(MojenticError::InvalidArgument(m)) => assert!(m.contains("query parameter is required")),
        other => panic!("{:?}", other),
    }
}

#[test]
fn test_run_empty_query() {
    match validate_query(Some("")) {
        Err(MojenticError::InvalidArgument(m)) => assert!(m.contains("query parameter cannot be empty")),
        other => panic!("{:?}", other),
    }
    assert_eq!(validate_query(Some("rust")).unwrap(), "rust");
}

#[test]
fn test_max_results_limit() {
    let mut links = Vec::new();
    let mut snippets = Vec::new();
    for i in 0..15 {
        links.push((Some(format!("https://example.com/{}", i)), format!("Result {}", i)));
        snippets.push(format!("Snippet {}", i));
    }
    let results = assemble_results(&links, &snippets);
    assert_eq!(results.len(), MAX_RESULTS);
    assert_eq!(results[3].title, "Result 3");
    assert_eq!(results[3].snippet, "Snippet 3");
}

#[test]
fn test_parse_empty_html() {
    let results = assemble_results(&vec![], &vec![]);
    assert!(results.is_empty());
}

#[test]
fn links_without_address_are_skipped() {
    let links = vec![(None, "x".to_string()), (Some("https://a/".to_string()), " A &amp; B ".to_string())];
    let results = assemble_results(&links, &vec![]);
    assert_eq!(results.len(), 1);
    assert_eq!(results[0].title, "A & B");
    assert_eq!(results[0].url, "https://a/");
    assert_eq!(results[0].snippet, "");
}

#[test]
fn query_url() {
    assert_eq!(search_url("rust lang"), "https://lite.duckduckgo.com/lite/?q=rust%20lang");
}

fn sample_html() -> String {
    r#"
    <!DOCTYPE html>
    <html>
    <body>
        <table>
            <tr>
                <td>
                    <a class="result-link" href="//duckduckgo.com/l/?uddg=https%3A%2F%2Fwww.rust-lang.org%2F">The Rust Programming Language</a>
                </td>
            </tr>
            <tr>
                <td class="result-snippet">A language empowering everyone to build reliable and efficient software.</td>
            </tr>
            <tr>
                <td>
                    <a class="result-link" href="//duckduckgo.com/l/?uddg=https%3A%2F%2Fdoc.rust-lang.org%2F">Rust Documentation</a>
                </td>
            </tr>
            <tr>
                <td class="result-snippet">The official Rust documentation and learning resources.</td>
            </tr>
            <tr>
                <td>
                    <a class="result-link" href="//duckduckgo.com/l/?uddg=https%3A%2F%2Fcrates.io%2F">crates.io: Rust Package Registry</a>
                </td>
            </tr>
            <tr>
                <td class="result-snippet">The Rust community's crate registry.</td>
            </tr>
        </table>
    </body>
    </html>
    "#.to_string()
}


#[test]
fn test_parse_results() {
    let html = sample_html();

    let results = parse_results(&html).unwrap();

    assert_eq!(results.len(), 3);

    assert_eq!(results[0].title, "The Rust Programming Language");
    assert_eq!(results[0].url, "https://www.rust-lang.org/");
    assert!(results[0].snippet.contains("A language empowering everyone"));

    assert_eq!(results[1].title, "Rust Documentation");
    assert_eq!(results[1].url, "https://doc.rust-lang.org/");
    assert!(results[1].snippet.contains("official Rust documentation"));

    assert_eq!(results[2].title, "crates.io: Rust Package Registry");
    assert_eq!(results[2].url, "https://crates.io/");
    assert!(results[2].snippet.contains("crate registry"));
}

#[test]
fn test_parse_malformed_html() {
    let html = "<html><body><a class=\"result-link\">No href</a></body></html>";

    let results = parse_results(html).unwrap();
    assert_eq!(results.len(), 0);
}

#[test]
fn parse_results_keeps_at_most_ten_links_with_their_own_snippets() {
    let mut html = String::from("<html><body><table>");
    for i in 0..12 {
        html.push_str(&format!(
            "<tr><td><a class=\"result-link\" href=\"https://example.com/{i}\">Title   {i}</a></td></tr>"
        ));
        if i < 2 {
            html.push_str(&format!("<tr><td class=\"result-snippet\">Snippet &amp; {i}</td></tr>"));
        }
    }
    html.push_str("</table></body></html>");

    let results = parse_results(&html).unwrap();

    assert_eq!(results.len(), MAX_RESULTS);
    assert_eq!(results[0].title, "Title 0");
    assert_eq!(results[0].url, "https://example.com/0");
    assert_eq!(results[1].snippet, "Snippet & 1");
    assert_eq!(results[2].snippet, "");
    assert_eq!(results[9].url, "https://example.com/9");
}
