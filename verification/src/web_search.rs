//! Web search results from DuckDuckGo's lite page: the query's URL, the
//! redirect links decoded, and the text of titles and snippets tidied.
//! Fetching the page and selecting its elements are the caller's.
use vstd::prelude::*;
use vstd::string::StringExecFns;
use crate::error::MojenticError;
use crate::text::{chars_of, contains_seq, matches_at, occurs_at, split_whitespace, split_ws, str_contains, string_from_chars};

verus! {

/// The page searched.
pub open spec fn search_base() -> Seq<char> {
    "https://lite.duckduckgo.com/lite/"@
}

/// At most this many results are kept.
pub const MAX_RESULTS: usize = 10;

/// One search result.
#[derive(Debug, Clone, PartialEq)]
pub struct SearchResult {
    pub title: String,
    pub url: String,
    pub snippet: String,
}

/// What `urlencoding::encode` gives for a text.
pub uninterp spec fn url_encoded(s: Seq<char>) -> Seq<char>;

/// What `urlencoding::decode` gives for a text: the decoded text, or nothing
/// when the decoded bytes are not UTF-8.
pub uninterp spec fn url_decoded(s: Seq<char>) -> Option<Seq<char>>;

/// Calls `urlencoding::encode`; named `url_encoded`.
#[verifier::external_body]
fn url_encode(s: &str) -> (r: String)
    ensures
        r@ == url_encoded(s@),
{
    urlencoding::encode(s).into_owned()
}

/// Calls `urlencoding::decode`; the text, or nothing on its error, is named
/// `url_decoded`.
#[verifier::external_body]
fn url_decode(s: &str) -> (r: Option<String>)
    ensures
        match r {
            Some(t) => url_decoded(s@) == Some(t@),
            None => url_decoded(s@) is None,
        },
{
    urlencoding::decode(s).ok().map(|c| c.into_owned())
}

/// The query, which must be present and not empty.
pub fn validate_query(query: Option<&str>) -> (r: Result<String, MojenticError>)
    ensures
        match query {
            None => r matches Err(MojenticError::InvalidArgument(m)) && m@
                == "query parameter is required"@,
            Some(q) => if q@.len() == 0 {
                r matches Err(MojenticError::InvalidArgument(m)) && m@
                    == "query parameter cannot be empty"@
            } else {
                r matches Ok(s) && s@ == q@
            },
        },
{
    match query {
        None => Err(MojenticError::InvalidArgument(String::from_str("query parameter is required"))),
        Some(q) => if q.unicode_len() == 0 {
            Err(MojenticError::InvalidArgument(String::from_str("query parameter cannot be empty")))
        } else {
            Ok(String::from_str(q))
        },
    }
}

/// The address searched for a query.
pub fn search_url(query: &str) -> (s: String)
    ensures
        s@ == search_base() + "?q="@ + url_encoded(query@),
{
    let mut s = String::from_str("https://lite.duckduckgo.com/lite/?q=");
    s.append(url_encode(query).as_str());
    proof {
        reveal_strlit("https://lite.duckduckgo.com/lite/?q=");
        reveal_strlit("https://lite.duckduckgo.com/lite/");
        reveal_strlit("?q=");
        assert(search_base() + "?q="@ =~= "https://lite.duckduckgo.com/lite/?q="@);
    }
    s
}

/// The position of the first occurrence of `needle` at or after `from`.
pub open spec fn first_at_or_after(hay: Seq<char>, needle: Seq<char>, from: int, i: int) -> bool {
    &&& from <= i
    &&& occurs_at(hay, needle, i)
    &&& forall|j: int| from <= j < i ==> !occurs_at(hay, needle, j)
}

/// `hay` from `from` up to the next `needle`, or to its end.
pub open spec fn segment_from(hay: Seq<char>, needle: Seq<char>, from: int) -> Seq<char> {
    if exists|i: int| first_at_or_after(hay, needle, from, i) {
        hay.subrange(from, choose|i: int| first_at_or_after(hay, needle, from, i))
    } else {
        hay.subrange(from, hay.len() as int)
    }
}

/// A link with its real address: in a redirect link (one holding `uddg=`),
/// the text after the first `uddg=` up to the next `uddg=` and then up to
/// the first `&`, percent-decoded (empty when that is not UTF-8); any other
/// link as it is.
pub open spec fn decoded_url(url: Seq<char>) -> Seq<char> {
    if !contains_seq(url, "uddg="@) {
        url
    } else {
        let start = (choose|i: int| first_at_or_after(url, "uddg="@, 0, i)) + 5;
        let part = segment_from(url, "uddg="@, start);
        let value = segment_from(part, "&"@, 0);
        match url_decoded(value) {
            Some(d) => d,
            None => Seq::empty(),
        }
    }
}

fn find_from(hay: &Vec<char>, needle: &Vec<char>, from: usize) -> (r: Option<usize>)
    requires
        from <= hay@.len(),
    ensures
        match r {
            Some(i) => first_at_or_after(hay@, needle@, from as int, i as int) && i <= hay@.len(),
            None => forall|j: int| from <= j ==> !occurs_at(hay@, needle@, j),
        },
{
    let mut i: usize = from;
    while i < hay.len()
        invariant
            from <= i <= hay@.len(),
            forall|j: int| from <= j < i ==> !occurs_at(hay@, needle@, j),
        decreases hay@.len() - i,
    {
        if matches_at(hay.as_slice(), needle.as_slice(), i) {
            return Some(i);
        }
        i = i + 1;
    }
    if matches_at(hay.as_slice(), needle.as_slice(), i) {
        return Some(i);
    }
    assert forall|j: int| from <= j implies !occurs_at(hay@, needle@, j) by {
        if j > i {
            assert(j > hay@.len());
        }
    }
    None
}

fn chars_range(cs: &Vec<char>, a: usize, b: usize) -> (r: Vec<char>)
    requires
        a <= b <= cs@.len(),
    ensures
        r@ == cs@.subrange(a as int, b as int),
{
    let mut r: Vec<char> = Vec::new();
    let mut i: usize = a;
    while i < b
        invariant
            a <= i <= b <= cs@.len(),
            r@ == cs@.subrange(a as int, i as int),
        decreases b - i,
    {
        r.push(cs[i]);
        assert(cs@.subrange(a as int, i + 1) =~= cs@.subrange(a as int, i as int).push(cs@[i as int]));
        i = i + 1;
    }
    r
}

fn segment(hay: &Vec<char>, needle: &Vec<char>, from: usize) -> (r: Vec<char>)
    requires
        from <= hay@.len(),
    ensures
        r@ == segment_from(hay@, needle@, from as int),
{
    match find_from(hay, needle, from) {
        Some(i) => {
            proof {
                let k = choose|k: int| first_at_or_after(hay@, needle@, from as int, k);
                if k < i {
                    assert(!occurs_at(hay@, needle@, k));
                } else if k > i {
                    assert(!occurs_at(hay@, needle@, i as int));
                }
            }
            chars_range(hay, from, i)
        },
        None => chars_range(hay, from, hay.len()),
    }
}

/// The real address of a search result link, as `decoded_url` says.
pub fn decode_url(url: &str) -> (s: String)
    ensures
        s@ == decoded_url(url@),
{
    if !str_contains(url, "uddg=") {
        return String::from_str(url);
    }
    let cs = chars_of(url);
    let key = chars_of("uddg=");
    let amp = chars_of("&");
    proof {
        reveal_strlit("uddg=");
    }
    let first = match find_from(&cs, &key, 0) {
        Some(i) => i,
        None => {
            assert(!contains_seq(url@, "uddg="@));
            return String::from_str(url);
        },
    };
    proof {
        let k = choose|k: int| first_at_or_after(url@, "uddg="@, 0, k);
        if k < first {
            assert(!occurs_at(url@, "uddg="@, k));
        } else if k > first {
            assert(!occurs_at(url@, "uddg="@, first as int));
        }
    }
    assert(key@.len() == 5);
    assert(cs@.len() == cs.len());
    assert(first + 5 <= cs@.len());
    let start = first + 5;
    let part = segment(&cs, &key, start);
    let value = segment(&part, &amp, 0);
    let text = string_from_chars(value.as_slice());
    match url_decode(text.as_str()) {
        Some(d) => d,
        None => String::new(),
    }
}

/// The words joined with single spaces.
pub open spec fn join_words(ws: Seq<Seq<char>>) -> Seq<char>
    decreases ws.len(),
{
    if ws.len() == 0 {
        Seq::empty()
    } else if ws.len() == 1 {
        ws[0]
    } else {
        join_words(ws.drop_last()) + " "@ + ws.last()
    }
}

/// Every occurrence of `pat`, from the left and without overlap, replaced by `rep`.
pub open spec fn replace_all(s: Seq<char>, pat: Seq<char>, rep: Seq<char>) -> Seq<char>
    decreases s.len(),
{
    if pat.len() == 0 || s.len() == 0 {
        s
    } else if occurs_at(s, pat, 0) {
        rep + replace_all(s.skip(pat.len() as int), pat, rep)
    } else {
        seq![s[0]] + replace_all(s.drop_first(), pat, rep)
    }
}

/// The common HTML entities decoded, one after the other.
pub open spec fn decode_entities(s: Seq<char>) -> Seq<char> {
    replace_all(
        replace_all(
            replace_all(replace_all(replace_all(s, "&amp;"@, "&"@), "&lt;"@, "<"@), "&gt;"@, ">"@),
            "&quot;"@,
            "\""@,
        ),
        "&#39;"@,
        "'"@,
    )
}

/// Text with its words separated by single spaces and HTML entities decoded.
pub open spec fn cleaned(text: Seq<char>) -> Seq<char> {
    decode_entities(join_words(split_ws(text)))
}

fn replace_chars(s: &Vec<char>, pat: &str, rep: &str) -> (r: Vec<char>)
    requires
        pat@.len() > 0,
    ensures
        r@ == replace_all(s@, pat@, rep@),
{
    let p = chars_of(pat);
    let rc = chars_of(rep);
    let n = s.len();
    let mut out: Vec<char> = Vec::new();
    let mut i: usize = 0;
    assert(s@.skip(0) =~= s@);
    while i < n
        invariant
            n == s@.len(),
            i <= n,
            p@ == pat@,
            rc@ == rep@,
            p@.len() > 0,
            out@ + replace_all(s@.skip(i as int), p@, rc@) == replace_all(s@, p@, rc@),
        decreases n - i,
    {
        let ghost rest = s@.skip(i as int);
        if matches_at(s.as_slice(), p.as_slice(), i) {
            assert(occurs_at(rest, p@, 0)) by {
                assert(rest.subrange(0, p@.len() as int) =~= s@.subrange(i as int, i + p@.len()));
            }
            let mut k: usize = 0;
            let ghost before = out@;
            while k < rc.len()
                invariant
                    k <= rc@.len(),
                    out@ == before + rc@.take(k as int),
                decreases rc@.len() - k,
            {
                out.push(rc[k]);
                assert(rc@.take(k + 1) =~= rc@.take(k as int).push(rc@[k as int]));
                k = k + 1;
            }
            assert(rc@.take(rc@.len() as int) =~= rc@);
            assert(rest.skip(p@.len() as int) =~= s@.skip(i + p@.len()));
            assert(out@ + replace_all(s@.skip(i + p@.len()), p@, rc@) =~= before + replace_all(
                rest,
                p@,
                rc@,
            ));
            i = i + p.len();
        } else {
            assert(!occurs_at(rest, p@, 0)) by {
                if occurs_at(rest, p@, 0) {
                    assert(rest.subrange(0, p@.len() as int) =~= s@.subrange(i as int, i + p@.len()));
                }
            }
            let ghost before = out@;
            out.push(s[i]);
            assert(rest.drop_first() =~= s@.skip(i + 1));
            assert(out@ + replace_all(s@.skip(i + 1), p@, rc@) =~= before + replace_all(rest, p@, rc@));
            i = i + 1;
        }
    }
    assert(s@.skip(n as int) =~= Seq::<char>::empty());
    assert(out@ + Seq::<char>::empty() =~= out@);
    out
}

/// Text with its words separated by single spaces and the common HTML
/// entities decoded.
pub fn clean_text(text: &str) -> (s: String)
    ensures
        s@ == cleaned(text@),
{
    let words = split_whitespace(text);
    proof {
        reveal_strlit(" ");
    }
    let ghost ws = words@.map_values(|w: Vec<char>| w@);
    let mut joined: Vec<char> = Vec::new();
    let mut k: usize = 0;
    while k < words.len()
        invariant
            ws == words@.map_values(|w: Vec<char>| w@),
            k <= words@.len(),
            joined@ == join_words(ws.take(k as int)),
        decreases words@.len() - k,
    {
        let ghost before = joined@;
        proof {
            reveal_strlit(" ");
        }
        assert(ws.take(k + 1).drop_last() =~= ws.take(k as int));
        assert(ws.take(k + 1).last() == words@[k as int]@);
        if k > 0 {
            joined.push(' ');
        }
        let w = &words[k];
        let ghost mid = joined@;
        let mut j: usize = 0;
        while j < w.len()
            invariant
                j <= w@.len(),
                joined@ == mid + w@.take(j as int),
            decreases w@.len() - j,
        {
            joined.push(w[j]);
            assert(w@.take(j + 1) =~= w@.take(j as int).push(w@[j as int]));
            j = j + 1;
        }
        proof {
            assert(w@.take(w@.len() as int) =~= w@);
            if k > 0 {
                assert(joined@ =~= before + " "@ + w@);
            } else {
                assert(ws.take(1) =~= seq![w@]);
                assert(joined@ =~= w@);
            }
        }
        k = k + 1;
    }
    assert(ws.take(words@.len() as int) =~= ws);
    proof {
        reveal_strlit("&amp;");
        reveal_strlit("&lt;");
        reveal_strlit("&gt;");
        reveal_strlit("&quot;");
        reveal_strlit("&#39;");
    }
    let a = replace_chars(&joined, "&amp;", "&");
    let b = replace_chars(&a, "&lt;", "<");
    let c = replace_chars(&b, "&gt;", ">");
    let d = replace_chars(&c, "&quot;", "\"");
    let e = replace_chars(&d, "&#39;", "'");
    string_from_chars(e.as_slice())
}

/// What a result shows: its title, address and snippet.
pub open spec fn result_view(r: SearchResult) -> (Seq<char>, Seq<char>, Seq<char>) {
    (r.title@, r.url@, r.snippet@)
}

/// The tidied snippet at position `i`, empty when there is none.
pub open spec fn snippet_at(snippets: Seq<Seq<char>>, i: int) -> Seq<char> {
    if 0 <= i < snippets.len() {
        cleaned(snippets[i])
    } else {
        Seq::empty()
    }
}

/// The results for the first `n` links: one for each link that has an
/// address, in order, with its tidied title, decoded address and the tidied
/// snippet at the link's own position.
pub open spec fn expected_results(links: Seq<(Option<Seq<char>>, Seq<char>)>, snippets: Seq<Seq<char>>, n: int) -> Seq<
    (Seq<char>, Seq<char>, Seq<char>),
>
    decreases n,
{
    if n <= 0 {
        Seq::empty()
    } else {
        let before = expected_results(links, snippets, n - 1);
        match links[n - 1].0 {
            Some(h) => before.push((cleaned(links[n - 1].1), decoded_url(h), snippet_at(snippets, n - 1))),
            None => before,
        }
    }
}

/// The number of links a page's results are taken from: at most ten.
pub open spec fn links_considered(n: nat) -> int {
    if n < MAX_RESULTS {
        n as int
    } else {
        MAX_RESULTS as int
    }
}

/// Links as plain text values.
pub open spec fn links_view(links: Seq<(Option<String>, String)>) -> Seq<(Option<Seq<char>>, Seq<char>)> {
    links.map_values(
        |l: (Option<String>, String)|
            (
                match l.0 {
                    Some(a) => Some(a@),
                    None => None,
                },
                l.1@,
            ),
    )
}

/// Texts as plain text values.
pub open spec fn texts_view(ts: Seq<String>) -> Seq<Seq<char>> {
    ts.map_values(|t: String| t@)
}

/// The results of a page: one for each of the first ten links (each its
/// `href`, when it has one, and its text) that has an address, in order.
pub fn assemble_results(links: &Vec<(Option<String>, String)>, snippets: &Vec<String>) -> (r: Vec<
    SearchResult,
>)
    ensures
        r@.map_values(|x: SearchResult| result_view(x)) == expected_results(
            links_view(links@),
            texts_view(snippets@),
            links_considered(links@.len()),
        ),
{
    let mut r: Vec<SearchResult> = Vec::new();
    let mut i: usize = 0;
    while i < links.len() && i < MAX_RESULTS
        invariant
            i <= links@.len(),
            i <= MAX_RESULTS,
            r@.map_values(|x: SearchResult| result_view(x)) == expected_results(
                links_view(links@),
                texts_view(snippets@),
                i as int,
            ),
        decreases links@.len() - i,
    {
        match &links[i].0 {
            Some(href) => {
                let snippet = if i < snippets.len() {
                    clean_text(snippets[i].as_str())
                } else {
                    String::new()
                };
                let res = SearchResult {
                    title: clean_text(links[i].1.as_str()),
                    url: decode_url(href.as_str()),
                    snippet,
                };
                let ghost before = r@;
                r.push(res);
                assert(r@.map_values(|x: SearchResult| result_view(x)) =~= before.map_values(
                    |x: SearchResult| result_view(x),
                ).push(result_view(res)));
            },
            None => {},
        }
        i = i + 1;
    }
    r
}

/// What `scraper` selects from an HTML page with a CSS selector: for each
/// element matched, in document order, the value of its attribute `attr`
/// (when it has one) and its text nodes; nothing when the selector does not
/// parse.
pub uninterp spec fn html_selection(html: Seq<char>, selector: Seq<char>, attr: Seq<char>) -> Option<
    Seq<(Option<Seq<char>>, Seq<Seq<char>>)>,
>;

/// A selection as plain text values.
pub open spec fn selection_view(v: Seq<(Option<String>, Vec<String>)>) -> Seq<(Option<Seq<char>>, Seq<Seq<char>>)> {
    v.map_values(
        |e: (Option<String>, Vec<String>)|
            (
                match e.0 {
                    Some(a) => Some(a@),
                    None => None,
                },
                e.1@.map_values(|t: String| t@),
            ),
    )
}

/// Parses the page with `scraper::Html::parse_document` and selects with
/// `scraper::Selector::parse` and `Html::select`; what comes back, an
/// element's attribute and its text nodes, is named `html_selection`.
#[verifier::external_body]
fn select_elements(html: &str, selector: &str, attr: &str) -> (r: Option<Vec<(Option<String>, Vec<String>)>>)
    ensures
        html_selection(html@, selector@, attr@) == match r {
            Some(v) => Some(selection_view(v@)),
            None => None,
        },
{
    let selector = scraper::Selector::parse(selector).ok()?;
    let document = scraper::Html::parse_document(html);
    Some(
        document
            .select(&selector)
            .map(|e| (e.value().attr(attr).map(String::from), e.text().map(String::from).collect()))
            .collect(),
    )
}

/// An element's text nodes joined with single spaces.
fn joined_text(parts: &Vec<String>) -> (s: String)
    ensures
        s@ == join_words(parts@.map_values(|t: String| t@)),
{
    let ghost ws = parts@.map_values(|t: String| t@);
    let mut s = String::new();
    let mut k: usize = 0;
    while k < parts.len()
        invariant
            k <= parts@.len(),
            ws == parts@.map_values(|t: String| t@),
            s@ == join_words(ws.take(k as int)),
        decreases parts@.len() - k,
    {
        let ghost before = s@;
        if k > 0 {
            s.append(" ");
        }
        s.append(parts[k].as_str());
        proof {
            reveal_strlit(" ");
            assert(ws.take(k as int + 1).drop_last() =~= ws.take(k as int));
            if k == 0 {
                assert(ws.take(1) =~= seq![parts@[0]@]);
            }
        }
        k = k + 1;
    }
    assert(ws.take(parts@.len() as int) =~= ws);
    s
}

/// The links of a selection: each element's address and its text.
pub open spec fn links_of(sel: Seq<(Option<Seq<char>>, Seq<Seq<char>>)>) -> Seq<(Option<Seq<char>>, Seq<char>)> {
    sel.map_values(|e: (Option<Seq<char>>, Seq<Seq<char>>)| (e.0, join_words(e.1)))
}

/// The snippets of a selection: each element's text.
pub open spec fn snippets_of(sel: Seq<(Option<Seq<char>>, Seq<Seq<char>>)>) -> Seq<Seq<char>> {
    sel.map_values(|e: (Option<Seq<char>>, Seq<Seq<char>>)| join_words(e.1))
}

/// The selector of a result's link.
pub open spec fn link_selector() -> Seq<char> {
    "a.result-link"@
}

/// The selector of a result's snippet.
pub open spec fn snippet_selector() -> Seq<char> {
    "td.result-snippet"@
}

/// The results of a DuckDuckGo lite page: its result links (`a.result-link`,
/// with their `href`) and snippets (`td.result-snippet`) selected, then
/// assembled as `assemble_results` does. A selector that does not parse is a
/// parse error.
pub fn parse_results(html: &str) -> (r: Result<Vec<SearchResult>, MojenticError>)
    ensures
        match (
            html_selection(html@, link_selector(), "href"@),
            html_selection(html@, snippet_selector(), "href"@),
        ) {
            (Some(ls), Some(ss)) => r matches Ok(v) && v@.map_values(|x: SearchResult| result_view(x))
                == expected_results(links_of(ls), snippets_of(ss), links_considered(ls.len())),
            _ => r matches Err(MojenticError::ParseError(_)),
        },
{
    let found_links = select_elements(html, "a.result-link", "href");
    let found_snippets = select_elements(html, "td.result-snippet", "href");
    proof {
        reveal_strlit("a.result-link");
        reveal_strlit("td.result-snippet");
    }
    match (found_links, found_snippets) {
        (Some(ls), Some(ss)) => {
            let mut links: Vec<(Option<String>, String)> = Vec::new();
            let mut i: usize = 0;
            while i < ls.len()
                invariant
                    i <= ls@.len(),
                    links_view(links@) == links_of(selection_view(ls@)).take(i as int),
                decreases ls@.len() - i,
            {
                let href = match &ls[i].0 {
                    Some(h) => Some(h.clone()),
                    None => None,
                };
                let title = joined_text(&ls[i].1);
                let ghost before = links@;
                links.push((href, title));
                assert(links_view(links@) =~= links_view(before).push(
                    links_of(selection_view(ls@))[i as int],
                ));
                assert(links_of(selection_view(ls@)).take(i as int + 1) =~= links_of(
                    selection_view(ls@),
                ).take(i as int).push(links_of(selection_view(ls@))[i as int]));
                i = i + 1;
            }
            assert(links_of(selection_view(ls@)).take(ls@.len() as int) =~= links_of(
                selection_view(ls@),
            ));
            let mut snippets: Vec<String> = Vec::new();
            let mut j: usize = 0;
            while j < ss.len()
                invariant
                    j <= ss@.len(),
                    texts_view(snippets@) == snippets_of(selection_view(ss@)).take(
                        j as int,
                    ),
                decreases ss@.len() - j,
            {
                let text = joined_text(&ss[j].1);
                let ghost before = snippets@;
                snippets.push(text);
                assert(texts_view(snippets@) =~= texts_view(before).push(
                    snippets_of(selection_view(ss@))[j as int],
                ));
                assert(snippets_of(selection_view(ss@)).take(j as int + 1) =~= snippets_of(
                    selection_view(ss@),
                ).take(j as int).push(snippets_of(selection_view(ss@))[j as int]));
                j = j + 1;
            }
            assert(snippets_of(selection_view(ss@)).take(ss@.len() as int) =~= snippets_of(
                selection_view(ss@),
            ));
            let results = assemble_results(&links, &snippets);
            Ok(results)
        },
        _ => {
            let m = String::from_str("Invalid selector");
            Err(MojenticError::ParseError(m))
        },
    }
}

} // verus!
