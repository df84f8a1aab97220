//! Character-level helpers on strings: substring search and path joining.

use vstd::prelude::*;

verus! {

/// `pat` occurs in `s` as a contiguous run of characters.
pub open spec fn contains_seq(s: Seq<char>, pat: Seq<char>) -> bool {
    exists|i: int| 0 <= i && i + pat.len() <= s.len() && #[trigger] s.subrange(i, i + pat.len()) == pat
}

/// `pat` occurs in `s` starting at position `i`.
pub open spec fn occurs_at(s: Seq<char>, pat: Seq<char>, i: int) -> bool {
    0 <= i && i + pat.len() <= s.len() && forall|k: int| 0 <= k < pat.len() ==> #[trigger] s[i + k] == pat[k]
}

/// A path is absolute when it starts with `/`.
pub open spec fn is_absolute(p: Seq<char>) -> bool {
    p.len() > 0 && p[0] == '/'
}

/// Joining `name` onto the directory `base` (Unix path semantics): an absolute
/// `name` replaces `base`; otherwise a `/` separator is inserted unless `base`
/// is empty or already ends with one.
pub open spec fn path_join(base: Seq<char>, name: Seq<char>) -> Seq<char> {
    if is_absolute(name) {
        name
    } else if base.len() == 0 || base.last() == '/' {
        base + name
    } else {
        base + seq!['/'] + name
    }
}

/// Joining a relative name keeps `base` as a prefix of the result.
pub proof fn lemma_join_extends_base(base: Seq<char>, name: Seq<char>)
    requires
        !is_absolute(name),
    ensures
        base.is_prefix_of(path_join(base, name)),
{
    let r = path_join(base, name);
    if base.len() == 0 || base.last() == '/' {
        assert(r.subrange(0, base.len() as int) =~= base);
    } else {
        assert(r.subrange(0, base.len() as int) =~= base);
    }
}

/// The characters of a string slice, in order.
pub fn chars_of(s: &str) -> (v: Vec<char>)
    ensures
        v@ == s@,
{
    let mut v: Vec<char> = Vec::new();
    for c in it: s.chars()
        invariant
            v@ == it.seq().take(it.index() as int),
            it.seq() == s@,
    {
        v.push(c);
    }
    v
}

pub(crate) fn occurs_at_exec(s: &Vec<char>, pat: &Vec<char>, i: usize) -> (r: bool)
    requires
        i + pat.len() <= s.len(),
    ensures
        r == occurs_at(s@, pat@, i as int),
{
    let mut k: usize = 0;
    while k < pat.len()
        invariant
            i + pat.len() <= s.len(),
            k <= pat.len(),
            forall|j: int| 0 <= j < k ==> s@[i + j] == pat@[j],
        decreases pat.len() - k,
    {
        if s[i + k] != pat[k] {
            return false;
        }
        k = k + 1;
    }
    true
}

/// Whether `pat` occurs somewhere in `hay`.
pub fn contains_str(hay: &str, pat: &str) -> (r: bool)
    ensures
        r == contains_seq(hay@, pat@),
{
    let s = chars_of(hay);
    let p = chars_of(pat);
    if p.len() > s.len() {
        return false;
    }
    let last = s.len() - p.len();
    let mut i: usize = 0;
    loop
        invariant
            s@ == hay@,
            p@ == pat@,
            last == s.len() - p.len(),
            p.len() <= s.len(),
            i <= last,
            forall|j: int| 0 <= j < i ==> !occurs_at(s@, p@, j),
        decreases last - i,
    {
        if occurs_at_exec(&s, &p, i) {
            assert forall|k: int| 0 <= k < p@.len() implies s@.subrange(i as int, i + p@.len())[k]
                == p@[k] by {
                assert(s@[i + k] == p@[k]);
            }
            assert(s@.subrange(i as int, i + p@.len()) =~= p@);
            return true;
        }
        if i == last {
            assert forall|j: int| 0 <= j && j + p@.len() <= s@.len() implies #[trigger] s@.subrange(
                j,
                j + p@.len(),
            ) != p@ by {
                assert(!occurs_at(s@, p@, j));
                if s@.subrange(j, j + p@.len()) == p@ {
                    assert forall|k: int| 0 <= k < p@.len() implies #[trigger] s@[j + k] == p@[k] by {
                        assert(s@.subrange(j, j + p@.len())[k] == s@[j + k]);
                    }
                }
            }
            return false;
        }
        i = i + 1;
    }
}

/// Whether `a` and `b` are the same text.
pub fn same_text(a: &str, b: &str) -> (r: bool)
    ensures
        r == (a@ == b@),
{
    let x = chars_of(a);
    let y = chars_of(b);
    if x.len() != y.len() {
        return false;
    }
    let n = x.len();
    for i in 0..n
        invariant
            n == x.len(),
            n == y.len(),
            x@ == a@,
            y@ == b@,
            forall|j: int| 0 <= j < i ==> x@[j] == y@[j],
    {
        if x[i] != y[i] {
            return false;
        }
    }
    assert(x@ =~= y@);
    true
}

/// Whether `s` is one of the texts in `v`.
pub fn contains_text(v: &Vec<String>, s: &str) -> (r: bool)
    ensures
        r == v.deep_view().contains(s@),
{
    let n = v.len();
    for i in 0..n
        invariant
            n == v.len(),
            forall|j: int| 0 <= j < i ==> v.deep_view()[j] != s@,
    {
        if same_text(v[i].as_str(), s) {
            assert(v.deep_view()[i as int] == s@);
            return true;
        }
    }
    false
}

/// Joins `name` onto the directory `base`, as `Path::join` does on Unix.
pub fn join_path(base: &str, name: &str) -> (r: String)
    ensures
        r@ == path_join(base@, name@),
{
    let b = chars_of(base);
    let n = chars_of(name);
    if n.len() > 0 && n[0] == '/' {
        return name.to_owned();
    }
    let mut r = base.to_owned();
    if !(b.len() == 0 || b[b.len() - 1] == '/') {
        let sep = "/";
        proof {
            reveal_strlit("/");
        }
        r.append(sep);
    }
    r.append(name);
    r
}

} // verus!
