//! Web search and fetch: the search URL, reading DuckDuckGo's result page
//! and a fetched page's text, and the answers the two tools give. Pages are
//! parsed by `scraper`, URLs percent-coded by `urlencoding`; the requests
//! themselves run in the front end.

use vstd::prelude::*;
use crate::json::{u64_field, Json};
use crate::text::{
    chars_of, find, find_exec, is_ws, is_ws_exec, join, join_exec, push_all, push_str, slice_of,
    starts_with, starts_with_exec, string_of, trim, trim_exec, truncated, views,
};
use crate::tools::ToolOutput;

verus! {

pub open spec fn opt_text(o: Option<String>) -> Option<Seq<char>> {
    match o {
        Some(s) => Some(s@),
        None => None,
    }
}

// ---------------------------------------------------------------------------
// The outside calls
// ---------------------------------------------------------------------------

/// The UTF-8 encoding of a character.
pub open spec fn utf8_bytes(c: char) -> Seq<u8> {
    let u = c as u32;
    if u < 0x80 {
        seq![u as u8]
    } else if u < 0x800 {
        seq![(0xC0 + u / 64) as u8, (0x80 + u % 64) as u8]
    } else if u < 0x10000 {
        seq![(0xE0 + u / 4096) as u8, (0x80 + (u / 64) % 64) as u8, (0x80 + u % 64) as u8]
    } else {
        seq![
            (0xF0 + u / 262144) as u8,
            (0x80 + (u / 4096) % 64) as u8,
            (0x80 + (u / 64) % 64) as u8,
            (0x80 + u % 64) as u8,
        ]
    }
}

/// An uppercase hexadecimal digit.
pub open spec fn hex_digit(d: u8) -> char {
    if d < 10 {
        (('0' as u8) + d) as char
    } else {
        (('A' as u8) + d - 10) as char
    }
}

/// A byte percent-encoded: `%` and two uppercase hex digits.
pub open spec fn percent_byte(b: u8) -> Seq<char> {
    seq!['%', hex_digit(b / 16), hex_digit(b % 16)]
}

/// The bytes kept as they are: ASCII letters and digits and `-_.~`.
pub open spec fn url_safe(c: char) -> bool {
    ('0' <= c <= '9') || ('A' <= c <= 'Z') || ('a' <= c <= 'z') || c == '-' || c == '.' || c == '_' || c == '~'
}

pub open spec fn percent_bytes(bs: Seq<u8>) -> Seq<char>
    decreases bs.len(),
{
    if bs.len() == 0 {
        Seq::empty()
    } else {
        percent_bytes(bs.drop_last()) + percent_byte(bs.last())
    }
}

/// What `urlencoding::encode` makes of a text: every UTF-8 byte
/// percent-encoded, except ASCII letters and digits and `-_.~`.
pub open spec fn url_encoded(s: Seq<char>) -> Seq<char>
    decreases s.len(),
{
    if s.len() == 0 {
        Seq::empty()
    } else {
        let c = s.last();
        url_encoded(s.drop_last()) + if url_safe(c) {
            seq![c]
        } else {
            percent_bytes(utf8_bytes(c))
        }
    }
}

/// What `urlencoding::decode` makes of a text: the decoded text, or nothing
/// when the decoded bytes are not UTF-8.
pub uninterp spec fn url_decoded(s: Seq<char>) -> Option<Seq<char>>;

/// The hits on a result page, as `scraper` finds them with three CSS
/// selectors: for each element matching `result`, the text and `href` of
/// its first element matching `anchor` (if any), and the text of its first
/// element matching `snippet` (if any); nothing when a selector does not
/// parse.
pub uninterp spec fn scraped_hits(
    html: Seq<char>,
    result: Seq<char>,
    anchor: Seq<char>,
    snippet: Seq<char>,
) -> Seq<(Option<Seq<char>>, Option<Seq<char>>, Option<Seq<char>>)>;

/// The selectors of a DuckDuckGo result page: a result, its title link,
/// its snippet.
pub const RESULT_SELECTOR: &'static str = "div.result";
pub const TITLE_SELECTOR: &'static str = "a.result__a";
pub const SNIPPET_SELECTOR: &'static str = "a.result__snippet, .result__snippet";

/// The hits on a DuckDuckGo result page.
pub open spec fn page_hits(html: Seq<char>) -> Seq<(Option<Seq<char>>, Option<Seq<char>>, Option<Seq<char>>)> {
    scraped_hits(html, RESULT_SELECTOR@, TITLE_SELECTOR@, SNIPPET_SELECTOR@)
}

/// The parts of a page, as `scraper` finds them with two CSS selectors:
/// the text of each element matching `blocks`, in document order; and the
/// text pieces of the first element matching `body`, if any (nothing at all
/// when a selector does not parse).
pub uninterp spec fn page_parts(html: Seq<char>, blocks: Seq<char>, body: Seq<char>) -> (
    Seq<Seq<char>>,
    Option<Seq<Seq<char>>>,
);

/// The readable blocks of a page: headings, paragraphs, list items,
/// preformatted blocks, quotes and table cells.
pub const BLOCK_SELECTOR: &'static str = "h1,h2,h3,h4,h5,h6,p,li,pre,blockquote,td";
pub const BODY_SELECTOR: &'static str = "body";

/// The readable parts of a page.
pub open spec fn readable_parts(html: Seq<char>) -> (Seq<Seq<char>>, Option<Seq<Seq<char>>>) {
    page_parts(html, BLOCK_SELECTOR@, BODY_SELECTOR@)
}

/// Percent-encode with `urlencoding::encode`.
#[verifier::external_body]
fn encode(s: &str) -> (r: String)
    ensures
        r@ == url_encoded(s@),
{
    urlencoding::encode(s).into_owned()
}

/// Percent-decode with `urlencoding::decode`.
#[verifier::external_body]
fn decode(s: &str) -> (r: Option<String>)
    ensures
        opt_text(r) == url_decoded(s@),
{
    urlencoding::decode(s).ok().map(|c| c.into_owned())
}

/// A search hit as found on the page: anchor text, link, snippet text.
pub struct Hit {
    pub title: Option<String>,
    pub href: Option<String>,
    pub snippet: Option<String>,
}

pub open spec fn hit_view(h: Hit) -> (Option<Seq<char>>, Option<Seq<char>>, Option<Seq<char>>) {
    (opt_text(h.title), opt_text(h.href), opt_text(h.snippet))
}

pub open spec fn hits_view(hs: Seq<Hit>) -> Seq<(Option<Seq<char>>, Option<Seq<char>>, Option<Seq<char>>)> {
    hs.map_values(|h: Hit| hit_view(h))
}

/// Read the hits off a result page with `scraper`.
#[verifier::external_body]
fn scrape_hits(html: &str, result: &str, anchor: &str, snippet: &str) -> (r: Vec<Hit>)
    ensures
        hits_view(r@) == scraped_hits(html@, result@, anchor@, snippet@),
{
    let doc = scraper::Html::parse_document(html);
    let (Ok(res), Ok(a_sel), Ok(snip)) =
        (scraper::Selector::parse(result), scraper::Selector::parse(anchor), scraper::Selector::parse(snippet))
    else { return Vec::new() };
    doc.select(&res).map(|r| {
        let a = r.select(&a_sel).next();
        Hit {
            title: a.map(|a| a.text().collect::<String>()),
            href: a.and_then(|a| a.value().attr("href")).map(|h| h.to_string()),
            snippet: r.select(&snip).next().map(|s| s.text().collect::<String>()),
        }
    }).collect()
}

/// Read the parts of a page with `scraper`.
#[verifier::external_body]
fn scrape_page(html: &str, blocks: &str, body: &str) -> (r: (Vec<String>, Option<Vec<String>>))
    ensures
        (crate::text::strings_view(r.0@), match r.1 {
            Some(v) => Some(crate::text::strings_view(v@)),
            None => None,
        }) == page_parts(html@, blocks@, body@),
{
    let doc = scraper::Html::parse_document(html);
    let (Ok(sel), Ok(body)) = (scraper::Selector::parse(blocks), scraper::Selector::parse(body)) else {
        return (Vec::new(), None)
    };
    let blocks = doc.select(&sel).map(|el| el.text().collect::<String>()).collect();
    let pieces = doc.select(&body).next().map(|b| b.text().map(|t| t.to_string()).collect());
    (blocks, pieces)
}

// ---------------------------------------------------------------------------
// Words
// ---------------------------------------------------------------------------

/// The words of `s` (`split_whitespace`), `cur` being the word in progress.
pub open spec fn words_from(s: Seq<char>, cur: Seq<char>) -> Seq<Seq<char>>
    decreases s.len(),
{
    if s.len() == 0 {
        if cur.len() > 0 { seq![cur] } else { Seq::empty() }
    } else if is_ws(s[0]) {
        (if cur.len() > 0 { seq![cur] } else { Seq::empty() }) + words_from(s.drop_first(), Seq::empty())
    } else {
        words_from(s.drop_first(), cur.push(s[0]))
    }
}

pub open spec fn words(s: Seq<char>) -> Seq<Seq<char>> {
    words_from(s, Seq::empty())
}

/// `s` with its runs of whitespace made single spaces and its ends trimmed.
pub open spec fn collapsed(s: Seq<char>) -> Seq<char> {
    join(words(s), " "@)
}

/// The words of a text, joined by single spaces.
pub fn collapse(s: &str) -> (r: String)
    ensures
        r@ == collapsed(s@),
{
    let c = chars_of(s);
    let mut ws: Vec<Vec<char>> = Vec::new();
    let mut cur: Vec<char> = Vec::new();
    let mut i: usize = 0;
    assert(c@.skip(0) =~= c@);
    assert(views(ws@) + words_from(c@.skip(0), cur@) =~= words(s@));
    while i < c.len()
        invariant
            i <= c@.len(),
            c@ == s@,
            views(ws@) + words_from(c@.skip(i as int), cur@) == words(s@),
        decreases c.len() - i,
    {
        let ch = c[i];
        assert(c@.skip(i as int).drop_first() =~= c@.skip(i + 1));
        assert(c@.skip(i as int)[0] == ch);
        if is_ws_exec(ch) {
            if cur.len() > 0 {
                let ghost before = views(ws@);
                let ghost cw = cur@;
                ws.push(cur);
                assert(views(ws@) =~= before.push(cw));
                assert(before + (seq![cw] + words_from(c@.skip(i + 1), Seq::empty())) =~= views(ws@)
                    + words_from(c@.skip(i + 1), Seq::empty()));
                cur = Vec::new();
            } else {
                assert(Seq::<Seq<char>>::empty() + words_from(c@.skip(i + 1), Seq::empty()) =~= words_from(
                    c@.skip(i + 1),
                    Seq::empty(),
                ));
                cur = Vec::new();
            }
            assert(cur@ =~= Seq::<char>::empty());
        } else {
            cur.push(ch);
        }
        i += 1;
    }
    assert(c@.skip(i as int) =~= Seq::<char>::empty());
    if cur.len() > 0 {
        let ghost before = views(ws@);
        let ghost cw = cur@;
        ws.push(cur);
        assert(views(ws@) =~= before.push(cw));
        assert(before + seq![cw] =~= views(ws@));
    } else {
        assert(views(ws@) + Seq::<Seq<char>>::empty() =~= views(ws@));
    }
    let sp = chars_of(" ");
    let j = join_exec(&ws, &sp);
    string_of(&j)
}

// ---------------------------------------------------------------------------
// web_search
// ---------------------------------------------------------------------------

/// The DuckDuckGo HTML search URL for a query.
pub fn search_url(query: &str) -> (r: String)
    ensures
        r@ == "https://html.duckduckgo.com/html/?q="@ + url_encoded(query@),
{
    let mut t = chars_of("https://html.duckduckgo.com/html/?q=");
    let e = encode(query);
    push_str(&mut t, e.as_str());
    string_of(&t)
}

/// How many results to show: `max_results` (default 5), kept within 1..=10.
pub fn result_limit(args: &Json) -> (r: usize)
    ensures
        r == (match u64_field(*args, "max_results"@) {
            Some(m) => if m < 1 { 1usize } else if m > 10 { 10usize } else { m as usize },
            None => 5usize,
        }),
{
    match crate::json::get_u64(args, "max_results") {
        Some(m) => if m < 1 { 1 } else if m > 10 { 10 } else { m as usize },
        None => 5,
    }
}

/// The target of a DuckDuckGo result link: the `uddg=` parameter decoded
/// when there is one that decodes, else the link itself (with `https:` put
/// before a scheme-relative `//…`).
pub open spec fn ddg_target(href: Seq<char>) -> Seq<char> {
    let decoded = match find(href, "uddg="@) {
        Some(idx) => {
            let rest = href.skip(idx + 5);
            let enc = match find(rest, "&"@) {
                Some(k) => rest.take(k),
                None => rest,
            };
            url_decoded(enc)
        },
        None => None,
    };
    match decoded {
        Some(d) => d,
        None => if starts_with(href, "http"@) {
            href
        } else if starts_with(href, "//"@) {
            "https://"@ + href.skip(2)
        } else {
            href
        },
    }
}

/// Decode a DuckDuckGo redirect link to its target.
pub fn decode_ddg_href(href: &str) -> (r: String)
    ensures
        r@ == ddg_target(href@),
{
    let h = chars_of(href);
    let key = chars_of("uddg=");
    proof {
        reveal_strlit("uddg=");
        reveal_strlit("&");
        reveal_strlit("//");
    }
    match find_exec(&h, &key) {
        Some(idx) => {
            proof {
                crate::edit::lemma_find_bounds(h@, key@, 0);
            }
            assert(key@.len() == 5);
            assert(idx + 5 <= h@.len());
            let rest = slice_of(&h, idx + 5, h.len());
            assert(rest@ =~= href@.skip(idx + 5));
            let amp = chars_of("&");
            let enc = match find_exec(&rest, &amp) {
                Some(k) => {
                    proof {
                        crate::edit::lemma_find_bounds(rest@, amp@, 0);
                    }
                    let e = slice_of(&rest, 0, k);
                    assert(e@ =~= rest@.take(k as int));
                    e
                },
                None => rest,
            };
            let es = string_of(&enc);
            match decode(es.as_str()) {
                Some(d) => return d,
                None => {},
            }
        },
        None => {},
    }
    if starts_with_exec(&h, &chars_of("http")) {
        String::from_str(href)
    } else if starts_with_exec(&h, &chars_of("//")) {
        let mut t = chars_of("https://");
        let rest = slice_of(&h, 2, h.len());
        assert(rest@ =~= href@.skip(2));
        push_all(&mut t, &rest);
        string_of(&t)
    } else {
        String::from_str(href)
    }
}

/// One numbered result: title, link, and the snippet (cut to 240 bytes)
/// when there is one.
pub open spec fn hit_entry(n: nat, title: Seq<char>, url: Seq<char>, snip: Seq<char>) -> Seq<char> {
    crate::text::decimal(n) + ". "@ + title + "\n   "@ + url + "\n"@ + if snip.len() > 0 {
        "   "@ + truncated(snip, 240, "…"@) + "\n"@
    } else {
        Seq::empty()
    }
}

fn hit_entry_exec(n: usize, title: &Vec<char>, url: &str, snip: &str) -> (r: Vec<char>)
    ensures
        r@ == hit_entry(n as nat, title@, url@, snip@),
{
    let mut out = crate::text::decimal_exec(n as u128);
    push_str(&mut out, ". ");
    push_all(&mut out, title);
    push_str(&mut out, "\n   ");
    push_str(&mut out, url);
    push_str(&mut out, "\n");
    if !snip.is_empty() {
        push_str(&mut out, "   ");
        let t = crate::agent::truncate(snip, 240);
        push_str(&mut out, t.as_str());
        push_str(&mut out, "\n");
    }
    proof {
        reveal_strlit("");
    }
    let ghost e = crate::text::decimal(n as nat) + ". "@ + title@ + "\n   "@ + url@ + "\n"@;
    proof {
        if snip@.len() > 0 {
            assert(out@ =~= e + ("   "@ + truncated(snip@, 240, "…"@) + "\n"@));
        } else {
            assert(out@ =~= e + Seq::<char>::empty());
        }
    }
    out
}

/// The result list from the hits, from hit `i` on, numbering from `n + 1`
/// and stopping after `max` results: a hit without an anchor or with a
/// blank title is skipped.
pub open spec fn results_from(hits: Seq<(Option<Seq<char>>, Option<Seq<char>>, Option<Seq<char>>)>, i: int, n: nat, max: nat) -> Seq<char>
    decreases hits.len() - i,
{
    if i < 0 || i >= hits.len() {
        Seq::empty()
    } else {
        let (anchor, href, snippet) = hits[i];
        match anchor {
            None => results_from(hits, i + 1, n, max),
            Some(a) => {
                let title = trim(a);
                if title.len() == 0 {
                    results_from(hits, i + 1, n, max)
                } else {
                    let url = ddg_target(match href {
                        Some(h) => h,
                        None => Seq::empty(),
                    });
                    let snip = collapsed(match snippet {
                        Some(s) => s,
                        None => Seq::empty(),
                    });
                    let entry = hit_entry(n + 1, title, url, snip);
                    if n + 1 >= max {
                        entry
                    } else {
                        entry + results_from(hits, i + 1, n + 1, max)
                    }
                }
            },
        }
    }
}

/// The search results on a page, numbered, at most `max` of them (the
/// first one even when `max` is 0).
pub fn parse_ddg(html: &str, max: usize) -> (r: String)
    ensures
        r@ == results_from(page_hits(html@), 0, 0, max as nat),
{
    let hits = scrape_hits(html, RESULT_SELECTOR, TITLE_SELECTOR, SNIPPET_SELECTOR);
    let ghost hv = hits_view(hits@);
    let mut out: Vec<char> = Vec::new();
    let mut n: usize = 0;
    let mut i: usize = 0;
    while i < hits.len()
        invariant
            i <= hits@.len(),
            hv == hits_view(hits@),
            hv == page_hits(html@),
            n == 0 || n < max,
            out@ + results_from(hv, i as int, n as nat, max as nat) == results_from(hv, 0, 0, max as nat),
        decreases hits.len() - i,
    {
        let hit = &hits[i];
        assert(hv[i as int] == hit_view(*hit));
        match &hit.title {
            None => {
                assert(results_from(hv, i as int, n as nat, max as nat) == results_from(hv, i + 1, n as nat, max as nat));
            },
            Some(a) => {
                let ac = chars_of(a.as_str());
                let title = trim_exec(&ac);
                if title.len() == 0 {
                    assert(results_from(hv, i as int, n as nat, max as nat) == results_from(hv, i + 1, n as nat, max as nat));
                }
                if title.len() > 0 {
                    let href = match &hit.href {
                        Some(h) => h.as_str(),
                        None => "",
                    };
                    proof {
                        reveal_strlit("");
                        assert(""@ =~= Seq::<char>::empty());
                    }
                    assert(href@ == match hv[i as int].1 {
                        Some(h) => h,
                        None => Seq::empty(),
                    });
                    let url = decode_ddg_href(href);
                    let snippet = match &hit.snippet {
                        Some(s) => s.as_str(),
                        None => "",
                    };
                    let snip = collapse(snippet);
                    let ghost before = out@;
                    let ghost n0 = n;
                    n += 1;
                    let entry = hit_entry_exec(n, &title, url.as_str(), snip.as_str());
                    assert(url@ == ddg_target(match hv[i as int].1 {
                        Some(h) => h,
                        None => Seq::empty(),
                    }));
                    assert(snip@ == collapsed(match hv[i as int].2 {
                        Some(x) => x,
                        None => Seq::empty(),
                    }));
                    assert(results_from(hv, i as int, n0 as nat, max as nat) == (if n >= max {
                        entry@
                    } else {
                        entry@ + results_from(hv, i + 1, n as nat, max as nat)
                    }));
                    push_all(&mut out, &entry);
                    if n >= max {
                        assert(out@ =~= before + entry@ + Seq::<char>::empty());
                        return string_of(&out);
                    }
                    assert(before + (entry@ + results_from(hv, i + 1, n as nat, max as nat)) =~= out@
                        + results_from(hv, i + 1, n as nat, max as nat));
                }
            },
        }
        i += 1;
    }
    assert(out@ + Seq::<char>::empty() =~= out@);
    string_of(&out)
}

/// `web_search`'s answer for the results text.
pub fn search_answer(results: &str) -> (r: ToolOutput)
    ensures
        !r.is_error,
        r.content@ == (if trim(results@).len() == 0 { "(no results)"@ } else { results@ }),
{
    let c = chars_of(results);
    let t = trim_exec(&c);
    if t.len() == 0 {
        ToolOutput::ok(String::from_str("(no results)"))
    } else {
        ToolOutput::ok(String::from_str(results))
    }
}

// ---------------------------------------------------------------------------
// web_fetch
// ---------------------------------------------------------------------------

/// The URL fetched for an argument: as given when it starts with `http`,
/// else over https.
pub fn fetch_url(url: &str) -> (r: String)
    ensures
        r@ == (if starts_with(url@, "http"@) { url@ } else { "https://"@ + url@ }),
{
    let u = chars_of(url);
    if starts_with_exec(&u, &chars_of("http")) {
        String::from_str(url)
    } else {
        let mut t = chars_of("https://");
        push_str(&mut t, url);
        string_of(&t)
    }
}

/// The readable blocks of a page, each collapsed, one per line (blank ones
/// left out).
pub open spec fn blocks_text(blocks: Seq<Seq<char>>) -> Seq<char>
    decreases blocks.len(),
{
    if blocks.len() == 0 {
        Seq::empty()
    } else {
        let t = collapsed(blocks.last());
        blocks_text(blocks.drop_last()) + if t.len() > 0 { t + "\n"@ } else { Seq::empty() }
    }
}

/// A page's readable text: its blocks, or when they hold nothing but
/// whitespace, the whole body's text collapsed.
pub open spec fn page_text(parts: (Seq<Seq<char>>, Option<Seq<Seq<char>>>)) -> Seq<char> {
    let out = blocks_text(parts.0);
    if trim(out).len() == 0 {
        match parts.1 {
            Some(pieces) => collapsed(join(pieces, " "@)),
            None => out,
        }
    } else {
        out
    }
}

/// The readable text of a page.
pub fn html_to_text(html: &str) -> (r: String)
    ensures
        r@ == page_text(readable_parts(html@)),
{
    let (blocks, body) = scrape_page(html, BLOCK_SELECTOR, BODY_SELECTOR);
    let ghost bv = crate::text::strings_view(blocks@);
    let mut out: Vec<char> = Vec::new();
    let mut i: usize = 0;
    assert(bv.take(0) =~= Seq::<Seq<char>>::empty());
    while i < blocks.len()
        invariant
            i <= blocks@.len(),
            bv == crate::text::strings_view(blocks@),
            out@ == blocks_text(bv.take(i as int)),
        decreases blocks.len() - i,
    {
        let t = collapse(blocks[i].as_str());
        assert(bv.take(i + 1).drop_last() =~= bv.take(i as int));
        assert(bv.take(i + 1).last() == blocks@[i as int]@);
        if !t.as_str().is_empty() {
            push_str(&mut out, t.as_str());
            push_str(&mut out, "\n");
        }
        i += 1;
    }
    assert(bv.take(i as int) =~= bv);
    let tr = trim_exec(&out);
    if tr.len() == 0 {
        match body {
            Some(pieces) => {
                let ghost pv = crate::text::strings_view(pieces@);
                let mut parts: Vec<Vec<char>> = Vec::new();
                let mut k: usize = 0;
                while k < pieces.len()
                    invariant
                        k <= pieces@.len(),
                        pv == crate::text::strings_view(pieces@),
                        views(parts@) =~= pv.take(k as int),
                    decreases pieces.len() - k,
                {
                    let c = chars_of(pieces[k].as_str());
                    let ghost before = views(parts@);
                    parts.push(c);
                    assert(views(parts@) =~= before.push(c@));
                    assert(pv.take(k + 1) =~= pv.take(k as int).push(pieces@[k as int]@));
                    k += 1;
                }
                assert(pv.take(k as int) =~= pv);
                let sp = chars_of(" ");
                let joined = join_exec(&parts, &sp);
                let js = string_of(&joined);
                return collapse(js.as_str());
            },
            None => {},
        }
    }
    string_of(&out)
}

/// `web_fetch`'s answer for a page's text: the text (cut to 8000 bytes), or
/// a note when there is none.
pub fn fetch_answer(text: &str) -> (r: ToolOutput)
    ensures
        !r.is_error,
        r.content@ == (if trim(text@).len() == 0 {
            "(no readable text extracted)"@
        } else {
            truncated(text@, 8000, "…"@)
        }),
{
    let c = chars_of(text);
    let t = trim_exec(&c);
    if t.len() == 0 {
        ToolOutput::ok(String::from_str("(no readable text extracted)"))
    } else {
        ToolOutput::ok(crate::agent::truncate(text, 8000))
    }
}

/// The web search tool.
pub struct WebSearchTool;

/// The web fetch tool.
pub struct WebFetchTool;

impl WebSearchTool {
    pub fn kind(&self) -> (r: crate::tools::ToolKind)
        ensures
            r == crate::tools::ToolKind::WebSearch,
    {
        crate::tools::ToolKind::WebSearch
    }
}

impl WebFetchTool {
    pub fn kind(&self) -> (r: crate::tools::ToolKind)
        ensures
            r == crate::tools::ToolKind::WebFetch,
    {
        crate::tools::ToolKind::WebFetch
    }
}

} // verus!
