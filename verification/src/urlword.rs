//! Recognising a YouTube URL written as a word of running text.

use vstd::prelude::*;
use crate::text::{chars_of, occurs_at, occurs_at_exec};

verus! {

/// Punctuation that may wrap a URL written in text: brackets, quotes, and
/// sentence punctuation.
pub open spec fn is_wrapping(c: char) -> bool {
    c == '(' || c == ')' || c == '[' || c == ']' || c == '<' || c == '>' || c == '"' || c == '\''
        || c == ',' || c == '.' || c == ';' || c == ':' || c == '!' || c == '?'
}

/// `w` without its leading wrapping punctuation.
pub open spec fn trim_start(w: Seq<char>) -> Seq<char>
    decreases w.len(),
{
    if w.len() > 0 && is_wrapping(w[0]) {
        trim_start(w.drop_first())
    } else {
        w
    }
}

/// `w` without its trailing wrapping punctuation.
pub open spec fn trim_end(w: Seq<char>) -> Seq<char>
    decreases w.len(),
{
    if w.len() > 0 && is_wrapping(w.last()) {
        trim_end(w.drop_last())
    } else {
        w
    }
}

/// `w` without the punctuation wrapped round it.
pub open spec fn trimmed(w: Seq<char>) -> Seq<char> {
    trim_end(trim_start(w))
}

/// Characters that may follow a host name in a URL.
pub open spec fn ends_host(c: char) -> bool {
    c == '/' || c == '?' || c == '#'
}

/// Length of the scheme `w` starts with: `https://`, `http://`, or none.
pub open spec fn scheme_len(w: Seq<char>) -> nat {
    if "https://"@.is_prefix_of(w) {
        "https://"@.len()
    } else if "http://"@.is_prefix_of(w) {
        "http://"@.len()
    } else {
        0
    }
}

/// Length of the subdomain `r` starts with: `www.`, `m.`, or none.
pub open spec fn subdomain_len(r: Seq<char>) -> nat {
    if "www."@.is_prefix_of(r) {
        "www."@.len()
    } else if "m."@.is_prefix_of(r) {
        "m."@.len()
    } else {
        0
    }
}

/// `r` starts with the whole host name `host`: the name is followed by the
/// end of `r` or by `/`, `?` or `#`.
pub open spec fn starts_with_host(r: Seq<char>, host: Seq<char>) -> bool {
    host.is_prefix_of(r) && (r.len() == host.len() || ends_host(r[host.len() as int]))
}

/// `w` has the shape of a YouTube URL: a scheme (`https://` or `http://`)
/// or a `www.` / `m.` subdomain, or both, then the host `youtube.com` or
/// `youtu.be`.
pub open spec fn is_youtube_url_shape(w: Seq<char>) -> bool {
    let a = scheme_len(w);
    let r = w.skip(a as int);
    let b = subdomain_len(r);
    let h = r.skip(b as int);
    (a > 0 || b > 0) && (starts_with_host(h, "youtube.com"@) || starts_with_host(h, "youtu.be"@))
}

/// The YouTube URL a word of text holds: the word without its wrapping
/// punctuation, when that has the shape of a YouTube URL.
pub open spec fn word_url(w: Seq<char>) -> Option<Seq<char>> {
    if is_youtube_url_shape(trimmed(w)) {
        Some(trimmed(w))
    } else {
        None
    }
}

fn is_wrapping_exec(c: char) -> (b: bool)
    ensures
        b == is_wrapping(c),
{
    c == '(' || c == ')' || c == '[' || c == ']' || c == '<' || c == '>' || c == '"' || c == '\''
        || c == ',' || c == '.' || c == ';' || c == ':' || c == '!' || c == '?'
}

fn has_prefix_at(s: &Vec<char>, i: usize, p: &Vec<char>) -> (r: bool)
    requires
        i <= s.len(),
    ensures
        r == p@.is_prefix_of(s@.skip(i as int)),
{
    if p.len() > s.len() - i {
        return false;
    }
    let r = occurs_at_exec(s, p, i);
    proof {
        let t = s@.skip(i as int);
        if r {
            assert forall|k: int| 0 <= k < p@.len() implies #[trigger] t.subrange(
                0,
                p@.len() as int,
            )[k] == p@[k] by {
                assert(s@[i + k] == p@[k]);
            }
            assert(p@ =~= t.subrange(0, p@.len() as int));
        } else {
            if p@.is_prefix_of(t) {
                assert forall|k: int| 0 <= k < p@.len() implies #[trigger] s@[i + k] == p@[k] by {
                    assert(t.subrange(0, p@.len() as int)[k] == t[k]);
                }
                assert(occurs_at(s@, p@, i as int));
            }
        }
    }
    r
}

fn starts_with_host_at(s: &Vec<char>, i: usize, host: &Vec<char>) -> (r: bool)
    requires
        i <= s.len(),
    ensures
        r == starts_with_host(s@.skip(i as int), host@),
{
    if !has_prefix_at(s, i, host) {
        return false;
    }
    let k = i + host.len();
    k == s.len() || {
        let c = s[k];
        c == '/' || c == '?' || c == '#'
    }
}

fn is_youtube_url_shape_exec(w: &Vec<char>) -> (b: bool)
    ensures
        b == is_youtube_url_shape(w@),
{
    let https = chars_of("https://");
    let http = chars_of("http://");
    let www = chars_of("www.");
    let m = chars_of("m.");
    let long_host = chars_of("youtube.com");
    let short_host = chars_of("youtu.be");
    let a: usize = if has_prefix_at(w, 0, &https) {
        https.len()
    } else if has_prefix_at(w, 0, &http) {
        http.len()
    } else {
        0
    };
    proof {
        assert(w@.skip(0) =~= w@);
    }
    let b: usize = if has_prefix_at(w, a, &www) {
        assert(www@.len() <= w@.skip(a as int).len());
        www.len()
    } else if has_prefix_at(w, a, &m) {
        assert(m@.len() <= w@.skip(a as int).len());
        m.len()
    } else {
        0
    };
    proof {
        let r = w@.skip(a as int);
        assert(r.skip(b as int) =~= w@.skip(a + b));
    }
    assert(a <= w.len());
    assert(a + b <= w.len());
    let k = a + b;
    (a > 0 || b > 0) && (starts_with_host_at(w, k, &long_host) || starts_with_host_at(
        w,
        k,
        &short_host,
    ))
}

proof fn lemma_trim_start_skip(w: Seq<char>, i: int)
    requires
        0 <= i < w.len(),
        is_wrapping(w[i]),
    ensures
        trim_start(w.skip(i)) == trim_start(w.skip(i + 1)),
{
    assert(w.skip(i).drop_first() =~= w.skip(i + 1));
}

proof fn lemma_trim_end_take(u: Seq<char>, j: int)
    requires
        0 < j <= u.len(),
        is_wrapping(u[j - 1]),
    ensures
        trim_end(u.take(j)) == trim_end(u.take(j - 1)),
{
    assert(u.take(j).drop_last() =~= u.take(j - 1));
}

/// Bounds of `cs` without the punctuation wrapped round it.
fn trim_bounds(cs: &Vec<char>) -> (r: (usize, usize))
    ensures
        r.0 <= r.1 <= cs.len(),
        cs@.subrange(r.0 as int, r.1 as int) == trimmed(cs@),
{
    let n = cs.len();
    let mut a: usize = 0;
    proof {
        assert(cs@.skip(0) =~= cs@);
    }
    while a < n && is_wrapping_exec(cs[a])
        invariant
            n == cs.len(),
            a <= n,
            trim_start(cs@) == trim_start(cs@.skip(a as int)),
        decreases n - a,
    {
        proof {
            lemma_trim_start_skip(cs@, a as int);
        }
        a = a + 1;
    }
    let ghost u = cs@.skip(a as int);
    proof {
        assert(trim_start(cs@) == u);
        assert(u.take(u.len() as int) =~= u);
    }
    let mut b: usize = n;
    while b > a && is_wrapping_exec(cs[b - 1])
        invariant
            n == cs.len(),
            a <= b <= n,
            u == cs@.skip(a as int),
            trim_end(u) == trim_end(u.take(b - a)),
        decreases b - a,
    {
        proof {
            assert(u[b - a - 1] == cs@[b - 1]);
            lemma_trim_end_take(u, b - a);
        }
        b = b - 1;
    }
    proof {
        assert(trim_end(u.take(b - a)) == u.take(b - a));
        assert(u.take(b - a) =~= cs@.subrange(a as int, b as int));
    }
    (a, b)
}

/// The YouTube URL held by `word`, if any: the word without the punctuation
/// wrapped round it, when that starts with `https://`, `http://`, `www.` or
/// `m.` (a scheme, then optionally a subdomain) followed by the host
/// `youtube.com` or `youtu.be`.
pub fn url_in_word(word: &str) -> (r: Option<String>)
    ensures
        r.deep_view() == word_url(word@),
{
    let cs = chars_of(word);
    let (a, b) = trim_bounds(&cs);
    let t = word.substring_char(a, b);
    let tc = chars_of(t);
    if is_youtube_url_shape_exec(&tc) {
        Some(t.to_owned())
    } else {
        None
    }
}

} // verus!
