//! Web scraping helpers: YouTube link extraction from HTML, URL resolution
//! fallback, and the planning of a scraped batch.

use vstd::prelude::*;
use crate::text::{contains_seq, contains_str, contains_text};
use crate::urlword::{url_in_word, word_url};

verus! {

#[verifier::external_type_specification]
#[verifier::external_body]
pub struct ExReqwestError(reqwest::Error);

#[verifier::external_type_specification]
#[verifier::external_body]
pub struct ExIoError(std::io::Error);

/// Errors of web operations: HTTP failures and filesystem failures.
#[derive(Debug)]
pub enum WebError {
    Http(reqwest::Error),
    Io(std::io::Error),
}

/// Result type for web operations.
pub type Result<T> = core::result::Result<T, WebError>;

/// A URL is a YouTube URL when it mentions `youtube.com` or `youtu.be`.
pub open spec fn is_youtube(url: Seq<char>) -> bool {
    contains_seq(url, "youtube.com"@) || contains_seq(url, "youtu.be"@)
}

/// The YouTube URLs among the `href` values of the anchors, in the order given;
/// anchors without an `href` contribute nothing.
pub open spec fn youtube_links(hrefs: Seq<Option<Seq<char>>>) -> Seq<Seq<char>>
    decreases hrefs.len(),
{
    if hrefs.len() == 0 {
        seq![]
    } else {
        let prev = youtube_links(hrefs.drop_last());
        match hrefs.last() {
            Some(h) => if is_youtube(h) {
                prev.push(h)
            } else {
                prev
            },
            None => prev,
        }
    }
}

/// The value of attribute `attribute` of every element of an HTML document that
/// matches the CSS selector `selector`, in the order `scraper`'s `select` walks
/// the parsed tree; `None` when `selector` is not a valid CSS selector.
pub uninterp spec fn html_selected_attributes(
    html: Seq<char>,
    selector: Seq<char>,
    attribute: Seq<char>,
) -> Option<Seq<Option<Seq<char>>>>;

/// Calls `scraper::Selector::parse` on `selector` and, when it parses,
/// `scraper::Html::parse_document` on `html`, `Html::select` with the selector,
/// and `Element::attr` with `attribute` on each selected element.
/// Claimed: the result, taken by value, is
/// `html_selected_attributes(html, selector, attribute)`; that is, it depends
/// on the three strings alone. What the parser makes of the text is left
/// unsaid.
#[verifier::external_body]
fn selected_attributes(html: &str, selector: &str, attribute: &str) -> (values: Option<
    Vec<Option<String>>,
>)
    ensures
        values.deep_view() == html_selected_attributes(html@, selector@, attribute@),
{
    let selector = scraper::Selector::parse(selector).ok()?;
    let document = scraper::Html::parse_document(html);
    Some(document.select(&selector).map(|e| e.value().attr(attribute).map(|v| v.to_string())).collect())
}

/// The text nodes of an HTML document, in the order `scraper` walks the tree
/// below the root element.
pub uninterp spec fn html_text_nodes(html: Seq<char>) -> Seq<Seq<char>>;

/// Calls `scraper::Html::parse_document` on `html`, then `Html::root_element`
/// and `ElementRef::text` to list its text nodes.
/// Claimed: the result, taken by value, is `html_text_nodes(html)`, a function
/// of the HTML text alone. What the parser makes of the text is left unsaid.
#[verifier::external_body]
fn text_nodes(html: &str) -> (texts: Vec<String>)
    ensures
        texts.deep_view() == html_text_nodes(html@),
{
    scraper::Html::parse_document(html).root_element().text().map(|t| t.to_string()).collect()
}

/// Characters that separate words in text: HTML's ASCII whitespace.
pub open spec fn is_space(c: char) -> bool {
    c == ' ' || c == '\t' || c == '\n' || c == '\r' || c == '\x0C'
}

/// The words of `s`: its maximal runs of non-space characters, in order.
pub open spec fn words(s: Seq<char>) -> Seq<Seq<char>>
    decreases s.len(),
{
    if s.len() == 0 {
        seq![]
    } else {
        let p = s.drop_last();
        let c = s.last();
        let w = words(p);
        if is_space(c) {
            w
        } else if p.len() == 0 || is_space(p.last()) {
            w.push(seq![c])
        } else {
            w.update(w.len() - 1, w.last().push(c))
        }
    }
}

/// The YouTube URLs held by the words `ws` (see `word_url`), in order.
pub open spec fn youtube_words(ws: Seq<Seq<char>>) -> Seq<Seq<char>>
    decreases ws.len(),
{
    if ws.len() == 0 {
        seq![]
    } else {
        let prev = youtube_words(ws.drop_last());
        match word_url(ws.last()) {
            Some(u) => prev.push(u),
            None => prev,
        }
    }
}

/// The YouTube URLs written in text: the URLs held by the words of each text
/// node, node after node.
pub open spec fn text_links(texts: Seq<Seq<char>>) -> Seq<Seq<char>>
    decreases texts.len(),
{
    if texts.len() == 0 {
        seq![]
    } else {
        text_links(texts.drop_last()) + youtube_words(words(texts.last()))
    }
}

/// The `href` values of the anchors of `html`, or none when the selector does
/// not parse.
pub open spec fn anchor_hrefs_of(html: Seq<char>) -> Seq<Option<Seq<char>>> {
    match html_selected_attributes(html, "a[href]"@, "href"@) {
        Some(hrefs) => hrefs,
        None => seq![],
    }
}

/// `found`, followed by each of `more` that is not already listed, in order.
pub open spec fn append_new(found: Seq<Seq<char>>, more: Seq<Seq<char>>) -> Seq<Seq<char>>
    decreases more.len(),
{
    if more.len() == 0 {
        found
    } else {
        let prev = append_new(found, more.drop_last());
        if prev.contains(more.last()) {
            prev
        } else {
            prev.push(more.last())
        }
    }
}

/// What `extract_youtube_urls` finds in `html`: the YouTube URLs among the
/// anchors' `href` values, then those written in the text that are not
/// already listed.
pub open spec fn page_youtube_urls(html: Seq<char>) -> Seq<Seq<char>> {
    append_new(youtube_links(anchor_hrefs_of(html)), text_links(html_text_nodes(html)))
}

/// A URL counts as a YouTube URL exactly when the text `youtube.com` or
/// `youtu.be` occurs in it, wherever it stands: whatever comes before and after
/// either host text, the whole is a YouTube URL, and a URL holding neither is
/// not one.
pub proof fn law_youtube_url(before: Seq<char>, after: Seq<char>, url: Seq<char>)
    ensures
        is_youtube(before + "youtube.com"@ + after),
        is_youtube(before + "youtu.be"@ + after),
        is_youtube(url) ==> exists|i: int|
            #![trigger url.skip(i)]
            0 <= i <= url.len() && ("youtube.com"@.is_prefix_of(url.skip(i))
                || "youtu.be"@.is_prefix_of(url.skip(i))),
{
    let a = before + "youtube.com"@ + after;
    let i = before.len() as int;
    assert(a.subrange(i, i + "youtube.com"@.len()) =~= "youtube.com"@);
    let b = before + "youtu.be"@ + after;
    assert(b.subrange(i, i + "youtu.be"@.len()) =~= "youtu.be"@);
    if is_youtube(url) {
        if contains_seq(url, "youtube.com"@) {
            let j = choose|j: int|
                0 <= j && j + "youtube.com"@.len() <= url.len() && #[trigger] url.subrange(
                    j,
                    j + "youtube.com"@.len(),
                ) == "youtube.com"@;
            assert(url.skip(j).subrange(0, "youtube.com"@.len() as int) =~= url.subrange(
                j,
                j + "youtube.com"@.len(),
            ));
            assert("youtube.com"@.is_prefix_of(url.skip(j)));
        } else {
            let j = choose|j: int|
                0 <= j && j + "youtu.be"@.len() <= url.len() && #[trigger] url.subrange(
                    j,
                    j + "youtu.be"@.len(),
                ) == "youtu.be"@;
            assert(url.skip(j).subrange(0, "youtu.be"@.len() as int) =~= url.subrange(
                j,
                j + "youtu.be"@.len(),
            ));
            assert("youtu.be"@.is_prefix_of(url.skip(j)));
        }
    }
}

/// Check if a URL is a YouTube URL.
pub fn is_youtube_url(url: &str) -> (r: bool)
    ensures
        r == is_youtube(url@),
{
    contains_str(url, "youtube.com") || contains_str(url, "youtu.be")
}

/// Keeps the YouTube URLs among anchor `href` values, in order.
pub fn select_youtube_links(hrefs: &Vec<Option<String>>) -> (urls: Vec<String>)
    ensures
        urls.deep_view() == youtube_links(hrefs.deep_view()),
{
    let mut urls: Vec<String> = Vec::new();
    let n = hrefs.len();
    for i in 0..n
        invariant
            n == hrefs.len(),
            urls.deep_view() == youtube_links(hrefs.deep_view().take(i as int)),
    {
        proof {
            assert(hrefs.deep_view().take(i + 1).drop_last() =~= hrefs.deep_view().take(i as int));
        }
        match &hrefs[i] {
            Some(h) => {
                if is_youtube_url(h.as_str()) {
                    urls.push(h.clone());
                }
            },
            None => {},
        }
        proof {
            assert(urls.deep_view() =~= youtube_links(hrefs.deep_view().take(i + 1)));
        }
    }
    proof {
        assert(hrefs.deep_view().take(n as int) =~= hrefs.deep_view());
    }
    urls
}

proof fn lemma_words_nonempty(s: Seq<char>)
    requires
        s.len() > 0,
        !is_space(s.last()),
    ensures
        words(s).len() > 0,
    decreases s.len(),
{
    let p = s.drop_last();
    if p.len() > 0 && !is_space(p.last()) {
        lemma_words_nonempty(p);
    }
}

fn is_space_exec(c: char) -> (b: bool)
    ensures
        b == is_space(c),
{
    c == ' ' || c == '\t' || c == '\n' || c == '\r' || c == '\x0C'
}

/// The words of `text`: its maximal runs of non-space characters, in order.
pub fn text_words(text: &str) -> (ws: Vec<String>)
    ensures
        ws.deep_view() == words(text@),
{
    let cs = crate::text::chars_of(text);
    let n = cs.len();
    let mut ws: Vec<String> = Vec::new();
    let mut start: usize = 0;
    let mut in_word = false;
    for i in 0..n
        invariant
            n == cs.len(),
            cs@ == text@,
            start <= i,
            in_word <==> (i > 0 && !is_space(cs@[i - 1])),
            in_word ==> words(cs@.take(i as int)) == ws.deep_view().push(
                cs@.subrange(start as int, i as int),
            ),
            !in_word ==> words(cs@.take(i as int)) == ws.deep_view(),
    {
        let c = cs[i];
        proof {
            assert(cs@.take(i + 1).drop_last() =~= cs@.take(i as int));
            assert(cs@.take(i + 1).last() == c);
            if i > 0 {
                assert(cs@.take(i as int).last() == cs@[i - 1]);
            }
        }
        if is_space_exec(c) {
            if in_word {
                let w = text.substring_char(start, i);
                ws.push(w.to_owned());
                proof {
                    assert(ws.deep_view() =~= words(cs@.take(i as int)));
                }
            }
            in_word = false;
        } else {
            if !in_word {
                start = i;
                in_word = true;
                proof {
                    assert(cs@.subrange(start as int, i + 1) =~= seq![c]);
                }
            } else {
                proof {
                    lemma_words_nonempty(cs@.take(i as int));
                    assert(cs@.subrange(start as int, i + 1) =~= cs@.subrange(start as int, i as int).push(c));
                    assert(words(cs@.take(i + 1)) =~= ws.deep_view().push(cs@.subrange(start as int, i + 1)));
                }
            }
        }
    }
    proof {
        assert(cs@.take(n as int) =~= cs@);
    }
    if in_word {
        let w = text.substring_char(start, n);
        ws.push(w.to_owned());
        proof {
            assert(ws.deep_view() =~= words(cs@));
        }
    }
    ws
}

/// The YouTube URLs held by the words `ws`, in order.
fn select_youtube_words(ws: Vec<String>) -> (urls: Vec<String>)
    ensures
        urls.deep_view() == youtube_words(ws.deep_view()),
{
    let mut urls: Vec<String> = Vec::new();
    let n = ws.len();
    for i in 0..n
        invariant
            n == ws.len(),
            urls.deep_view() == youtube_words(ws.deep_view().take(i as int)),
    {
        proof {
            assert(ws.deep_view().take(i + 1).drop_last() =~= ws.deep_view().take(i as int));
        }
        let ghost before = urls.deep_view();
        match url_in_word(ws[i].as_str()) {
            Some(u) => {
                urls.push(u);
            },
            None => {},
        }
        proof {
            assert(ws.deep_view().take(i + 1).last() == ws.deep_view()[i as int]);
            assert(urls.deep_view() =~= youtube_words(ws.deep_view().take(i + 1)));
        }
    }
    proof {
        assert(ws.deep_view().take(n as int) =~= ws.deep_view());
    }
    urls
}

/// The YouTube URLs written in text nodes: the URLs held by the words of each
/// node, node after node.
pub fn select_text_links(texts: &Vec<String>) -> (urls: Vec<String>)
    ensures
        urls.deep_view() == text_links(texts.deep_view()),
{
    let mut urls: Vec<String> = Vec::new();
    let n = texts.len();
    for i in 0..n
        invariant
            n == texts.len(),
            urls.deep_view() == text_links(texts.deep_view().take(i as int)),
    {
        proof {
            assert(texts.deep_view().take(i + 1).drop_last() =~= texts.deep_view().take(i as int));
        }
        let found = select_youtube_words(text_words(texts[i].as_str()));
        let mut j: usize = 0;
        let ghost before = urls.deep_view();
        while j < found.len()
            invariant
                j <= found.len(),
                urls.deep_view() == before + found.deep_view().take(j as int),
            decreases found.len() - j,
        {
            let item = found[j].clone();
            proof {
                assert(item@ == found.deep_view()[j as int]);
                assert(found.deep_view().take(j + 1) =~= found.deep_view().take(j as int).push(item@));
            }
            let ghost old_dv = urls.deep_view();
            urls.push(item);
            proof {
                assert(urls.deep_view() =~= old_dv.push(item@));
            }
            j = j + 1;
            proof {
                assert(urls.deep_view() =~= before + found.deep_view().take(j as int));
            }
        }
        proof {
            assert(found.deep_view().take(j as int) =~= found.deep_view());
            assert(urls.deep_view() =~= text_links(texts.deep_view().take(i + 1)));
        }
    }
    proof {
        assert(texts.deep_view().take(n as int) =~= texts.deep_view());
    }
    urls
}

/// `found`, then each of `more` that is not already listed, in order.
pub fn append_new_urls(found: Vec<String>, more: &Vec<String>) -> (urls: Vec<String>)
    ensures
        urls.deep_view() == append_new(found.deep_view(), more.deep_view()),
{
    let mut urls = found;
    let n = more.len();
    for i in 0..n
        invariant
            n == more.len(),
            urls.deep_view() == append_new(found.deep_view(), more.deep_view().take(i as int)),
    {
        proof {
            assert(more.deep_view().take(i + 1).drop_last() =~= more.deep_view().take(i as int));
            assert(more.deep_view().take(i + 1).last() == more.deep_view()[i as int]);
        }
        if !contains_text(&urls, more[i].as_str()) {
            let item = more[i].clone();
            let ghost before = urls.deep_view();
            urls.push(item);
            proof {
                assert(urls.deep_view() =~= before.push(item@));
            }
        }
    }
    proof {
        assert(more.deep_view().take(n as int) =~= more.deep_view());
    }
    urls
}

/// Extract YouTube URLs from HTML content: the `href` values of the anchors
/// (`a[href]` elements) that mention `youtube.com` or `youtu.be`, then the
/// YouTube URLs written in the text content that are not already listed, each
/// in the order `scraper` walks the parsed tree. In text, a URL is a
/// whitespace-separated word which, once the brackets, quotes and sentence
/// punctuation round it are dropped, starts with `https://`, `http://`,
/// `www.` or `m.` followed by the host `youtube.com` or `youtu.be`. Never
/// fails.
pub fn extract_youtube_urls(html: &str) -> (res: Result<Vec<String>>)
    ensures
        res matches Ok(urls) && urls.deep_view() == page_youtube_urls(html@),
{
    let urls = match selected_attributes(html, "a[href]", "href") {
        Some(hrefs) => select_youtube_links(&hrefs),
        None => Vec::new(),
    };
    assert(urls.deep_view() =~= youtube_links(anchor_hrefs_of(html@)));
    let texts = text_nodes(html);
    let in_text = select_text_links(&texts);
    let all = append_new_urls(urls, &in_text);
    Ok(all)
}

/// No YouTube URL was found on the scraped page.
#[derive(Debug)]
pub struct NoYoutubeUrls {
    pub page_url: String,
}

/// A scraped page must yield at least one YouTube URL.
pub fn require_youtube_urls(page_url: &str, urls: Vec<String>) -> (res: core::result::Result<
    Vec<String>,
    NoYoutubeUrls,
>)
    ensures
        urls.len() > 0 <==> res is Ok,
        res matches Ok(u) ==> u == urls,
        res matches Err(e) ==> e.page_url@ == page_url@,
{
    if urls.len() == 0 {
        Err(NoYoutubeUrls { page_url: page_url.to_owned() })
    } else {
        Ok(urls)
    }
}

/// The canonical form of `url`: where its HEAD request was answered,
/// `final_url` (the URL reached after redirects); where it failed, `url`
/// itself.
pub fn resolved_or_original(url: &str, final_url: Option<String>) -> (r: String)
    ensures
        r@ == match final_url {
            Some(f) => f@,
            None => url@,
        },
{
    match final_url {
        Some(f) => f,
        None => url.to_owned(),
    }
}

/// Validated configuration for web scraping operations.
#[derive(Clone, Debug)]
pub struct WebConfig {
    pub page_url: String,
    pub output_dir: Option<String>,
}

/// How many of the scraped URLs are processed: all of them, or the first
/// `limit` when a limit is given.
pub fn processing_count(limit: Option<usize>, available: usize) -> (n: usize)
    ensures
        n == match limit {
            Some(l) => if l < available {
                l
            } else {
                available
            },
            None => available,
        },
{
    let l = match limit {
        Some(l) => l,
        None => usize::MAX,
    };
    if l < available {
        l
    } else {
        available
    }
}

} // verus!
