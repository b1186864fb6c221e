//! Unix path text: joining a component onto a path, the final component
//! ("file name") and its extension, with the meaning that `std::path`
//! documents for `PathBuf::push`, `Path::file_name` and `Path::extension`.
use vstd::prelude::*;
use crate::text::{chars_of, string_from_range, owned};

verus! {

broadcast use vstd::string::group_string_axioms;

/// Number of characters left after dropping every `/` at the end of `p[..end]`.
pub open spec fn trimmed_end(p: Seq<char>, end: int) -> int
    decreases end,
{
    if end <= 0 {
        0
    } else if p[end - 1] == '/' {
        trimmed_end(p, end - 1)
    } else {
        end
    }
}

/// Index of the last occurrence of `c` in `p[..end]`, or -1.
pub open spec fn last_index_before(p: Seq<char>, c: char, end: int) -> int
    decreases end,
{
    if end <= 0 {
        -1
    } else if p[end - 1] == c {
        end - 1
    } else {
        last_index_before(p, c, end - 1)
    }
}

pub proof fn lemma_trimmed_end(p: Seq<char>, end: int)
    requires
        0 <= end <= p.len(),
    ensures
        0 <= trimmed_end(p, end) <= end,
        trimmed_end(p, end) > 0 ==> p[trimmed_end(p, end) - 1] != '/',
        forall|i: int| trimmed_end(p, end) <= i < end ==> p[i] == '/',
    decreases end,
{
    if end > 0 && p[end - 1] == '/' {
        lemma_trimmed_end(p, end - 1);
    }
}

pub proof fn lemma_last_index_before(p: Seq<char>, c: char, end: int)
    requires
        0 <= end <= p.len(),
    ensures
        -1 <= last_index_before(p, c, end) < end,
        last_index_before(p, c, end) >= 0 ==> p[last_index_before(p, c, end)] == c,
        forall|i: int| last_index_before(p, c, end) < i < end ==> p[i] != c,
    decreases end,
{
    if end > 0 && p[end - 1] != c {
        lemma_last_index_before(p, c, end - 1);
    }
}

/// The bounds `(lo, hi)` of the last normal component of `p[..end]`:
/// trailing separators and `.` components are passed over; a final `..`
/// component, or no component at all, gives `None`.
pub open spec fn name_span(p: Seq<char>, end: int) -> Option<(int, int)>
    decreases end,
{
    if end <= 0 || end > p.len() {
        None
    } else {
        let e = trimmed_end(p, end);
        proof {
            lemma_trimmed_end(p, end);
        }
        if e <= 0 {
            None
        } else {
            let k = last_index_before(p, '/', e);
            proof {
                lemma_last_index_before(p, '/', e);
            }
            if p.subrange(k + 1, e) == seq!['.'] {
                if k <= 0 {
                    None
                } else {
                    name_span(p, k)
                }
            } else if p.subrange(k + 1, e) == seq!['.', '.'] {
                None
            } else {
                Some((k + 1, e))
            }
        }
    }
}

/// What `Path::file_name` gives for the path text `p`.
pub open spec fn file_name_of(p: Seq<char>) -> Option<Seq<char>> {
    match name_span(p, p.len() as int) {
        Some((lo, hi)) => Some(p.subrange(lo, hi)),
        None => None,
    }
}

/// The extension of a file name, as `Path::extension` splits it: the text
/// after the last `.`, provided that some text stands before that `.`.
pub open spec fn name_extension(f: Seq<char>) -> Option<Seq<char>> {
    let d = last_index_before(f, '.', f.len() as int);
    if f == seq!['.', '.'] || d <= 0 {
        None
    } else {
        Some(f.subrange(d + 1, f.len() as int))
    }
}

/// What `Path::extension` gives for the path text `p`.
pub open spec fn extension_of(p: Seq<char>) -> Option<Seq<char>> {
    match file_name_of(p) {
        Some(f) => name_extension(f),
        None => None,
    }
}

/// The path text that `PathBuf::push` makes of `base` and `part` on Unix:
/// an absolute `part` replaces `base`; otherwise a `/` is put between them
/// when `base` is not empty and does not already end with one.
pub open spec fn joined(base: Seq<char>, part: Seq<char>) -> Seq<char> {
    if part.len() > 0 && part[0] == '/' {
        part
    } else if base.len() > 0 && base[base.len() - 1] != '/' {
        base + seq!['/'] + part
    } else {
        base + part
    }
}

/// `PathBuf::push` on path text: `joined(base, part)`.
pub fn join_path(base: &str, part: &str) -> (r: String)
    ensures
        r@ == joined(base@, part@),
{
    let pv = chars_of(part);
    let bv = chars_of(base);
    if pv.len() > 0 && pv[0] == '/' {
        return owned(part);
    }
    let mut r = owned(base);
    if bv.len() > 0 && bv[bv.len() - 1] != '/' {
        r.push('/');
    }
    let mut i: usize = 0;
    let ghost start = r@;
    while i < pv.len()
        invariant
            i <= pv@.len(),
            r@ == start + pv@.subrange(0, i as int),
        decreases pv@.len() - i,
    {
        r.push(pv[i]);
        assert(pv@.subrange(0, i + 1) == pv@.subrange(0, i as int).push(pv@[i as int]));
        i = i + 1;
    }
    assert(pv@.subrange(0, pv@.len() as int) == pv@);
    r
}

fn trim_end_exec(p: &Vec<char>, end: usize) -> (r: usize)
    requires
        end <= p@.len(),
    ensures
        r == trimmed_end(p@, end as int),
{
    let mut e = end;
    while e > 0 && p[e - 1] == '/'
        invariant
            e <= end <= p@.len(),
            trimmed_end(p@, e as int) == trimmed_end(p@, end as int),
        decreases e,
    {
        e = e - 1;
    }
    e
}

fn last_index_exec(p: &Vec<char>, c: char, end: usize) -> (r: Option<usize>)
    requires
        end <= p@.len(),
    ensures
        match r {
            Some(k) => k as int == last_index_before(p@, c, end as int),
            None => last_index_before(p@, c, end as int) == -1,
        },
{
    let mut e = end;
    while e > 0 && p[e - 1] != c
        invariant
            e <= end <= p@.len(),
            last_index_before(p@, c, e as int) == last_index_before(p@, c, end as int),
        decreases e,
    {
        e = e - 1;
    }
    if e == 0 {
        None
    } else {
        Some(e - 1)
    }
}

fn is_dot(p: &Vec<char>, lo: usize, hi: usize) -> (r: bool)
    requires
        lo <= hi <= p@.len(),
    ensures
        r == (p@.subrange(lo as int, hi as int) == seq!['.']),
{
    if hi - lo == 1 && p[lo] == '.' {
        assert(p@.subrange(lo as int, hi as int) =~= seq!['.']);
        true
    } else {
        if hi - lo == 1 {
            assert(p@.subrange(lo as int, hi as int)[0] == p@[lo as int]);
        }
        false
    }
}

fn is_dot_dot(p: &Vec<char>, lo: usize, hi: usize) -> (r: bool)
    requires
        lo <= hi <= p@.len(),
    ensures
        r == (p@.subrange(lo as int, hi as int) == seq!['.', '.']),
{
    if hi - lo == 2 && p[lo] == '.' && p[lo + 1] == '.' {
        assert(p@.subrange(lo as int, hi as int) =~= seq!['.', '.']);
        true
    } else {
        let ghost sub = p@.subrange(lo as int, hi as int);
        let ghost dd = seq!['.', '.'];
        assert(dd.len() == 2 && dd[0] == '.' && dd[1] == '.');
        if hi - lo == 2 {
            assert(sub[0] == p@[lo as int]);
            assert(sub[1] == p@[lo + 1]);
        }
        assert(sub.len() != 2 || sub[0] != '.' || sub[1] != '.');
        false
    }
}

/// Bounds of the final normal component of `p`, as `name_span` describes.
pub fn file_name_span(p: &Vec<char>) -> (r: Option<(usize, usize)>)
    ensures
        match r {
            Some((lo, hi)) => name_span(p@, p@.len() as int) == Some((lo as int, hi as int)),
            None => name_span(p@, p@.len() as int) is None,
        },
        r matches Some((lo, hi)) ==> lo <= hi <= p@.len(),
{
    let mut end = p.len();
    loop
        invariant
            end <= p@.len(),
            name_span(p@, end as int) == name_span(p@, p@.len() as int),
        decreases end,
    {
        if end == 0 {
            return None;
        }
        let e = trim_end_exec(p, end);
        proof {
            lemma_trimmed_end(p@, end as int);
        }
        if e == 0 {
            return None;
        }
        let k = last_index_exec(p, '/', e);
        proof {
            lemma_last_index_before(p@, '/', e as int);
        }
        let lo: usize = match k {
            Some(k) => k + 1,
            None => 0,
        };
        if is_dot(p, lo, e) {
            match k {
                Some(k) => {
                    if k == 0 {
                        return None;
                    }
                    end = k;
                },
                None => {
                    return None;
                },
            }
        } else if is_dot_dot(p, lo, e) {
            return None;
        } else {
            return Some((lo, e));
        }
    }
}

/// `Path::file_name` on path text.
pub fn file_name(path: &str) -> (r: Option<String>)
    ensures
        match r {
            Some(s) => file_name_of(path@) == Some(s@),
            None => file_name_of(path@) is None,
        },
{
    let p = chars_of(path);
    match file_name_span(&p) {
        Some((lo, hi)) => Some(string_from_range(&p, lo, hi)),
        None => None,
    }
}

/// `Path::extension` on path text.
pub fn extension(path: &str) -> (r: Option<String>)
    ensures
        match r {
            Some(s) => extension_of(path@) == Some(s@),
            None => extension_of(path@) is None,
        },
{
    let p = chars_of(path);
    match file_name_span(&p) {
        None => None,
        Some((lo, hi)) => {
            let f = string_from_range(&p, lo, hi);
            let fv = chars_of(f.as_str());
            if is_dot_dot(&fv, 0, fv.len()) {
                assert(fv@.subrange(0, fv@.len() as int) == fv@);
                return None;
            }
            assert(fv@.subrange(0, fv@.len() as int) == fv@);
            proof {
                lemma_last_index_before(fv@, '.', fv@.len() as int);
            }
            match last_index_exec(&fv, '.', fv.len()) {
                None => None,
                Some(d) => {
                    if d == 0 {
                        None
                    } else {
                        Some(string_from_range(&fv, d + 1, fv.len()))
                    }
                },
            }
        },
    }
}

} // verus!
