//! Filename helpers: extension canonicalization and matching saved request
//! files by their final path component. These are pure functions; walking a
//! directory belongs to the caller.

use vstd::prelude::*;
use crate::strutil::{skip_dots, rskip_dots, ends_with, trim_leading_dots, trim_trailing_dots,
    str_ends_with};

verus! {

/// The extension with its leading dots removed.
pub open spec fn ext_trimmed(extension: Seq<char>) -> Seq<char> {
    extension.subrange(skip_dots(extension, 0), extension.len() as int)
}

/// The filename with its trailing dots removed.
pub open spec fn name_trimmed(filename: Seq<char>) -> Seq<char> {
    filename.subrange(0, rskip_dots(filename, filename.len() as int))
}

/// What canonicalization yields: the dot-trimmed filename, with a dot and
/// the dot-trimmed extension appended unless the filename already ends with
/// that extension.
pub open spec fn ensure_extension_spec(filename: Seq<char>, extension: Seq<char>) -> Seq<char> {
    let e = ext_trimmed(extension);
    let f = name_trimmed(filename);
    if ends_with(f, e) {
        f
    } else {
        f + seq!['.'] + e
    }
}

/// Canonicalize a filename to carry the given extension.
pub fn ensure_extension(filename: &str, extension: &str) -> (r: String)
    ensures
        r@ == ensure_extension_spec(filename@, extension@),
{
    proof {
        crate::strutil::lemma_skip_dots_bounds(extension@, 0);
        crate::strutil::lemma_rskip_dots_bounds(filename@, filename@.len() as int);
    }
    let e = trim_leading_dots(extension);
    let f = trim_trailing_dots(filename);
    if str_ends_with(f.as_str(), e.as_str()) {
        f
    } else {
        let mut out = f;
        out.append(".");
        out.append(e.as_str());
        proof {
            reveal_strlit(".");
        }
        assert(out@ =~= name_trimmed(filename@) + seq!['.'] + ext_trimmed(extension@));
        out
    }
}

/// Law: canonicalization is idempotent, provided the trimmed extension is
/// empty or does not itself end with a dot. (An extension whose trimmed
/// form ends with a dot, such as a lone run of dots inside it, re-grows on
/// each application and is excluded.)
pub proof fn lemma_ensure_extension_idempotent(filename: Seq<char>, extension: Seq<char>)
    requires
        ext_trimmed(extension).len() == 0 || ext_trimmed(extension).last() != '.',
    ensures
        ensure_extension_spec(ensure_extension_spec(filename, extension), extension)
            == ensure_extension_spec(filename, extension),
{
    let e = ext_trimmed(extension);
    let f = name_trimmed(filename);
    let r = ensure_extension_spec(filename, extension);
    crate::strutil::lemma_skip_dots_bounds(extension, 0);
    crate::strutil::lemma_rskip_dots_bounds(filename, filename.len() as int);
    if e.len() == 0 {
        // The trimmed extension is empty: every string ends with it, so the
        // second pass only re-trims trailing dots of an already-trimmed name.
        assert(ends_with(f, e)) by {
            assert(f.subrange(f.len() as int, f.len() as int) =~= e);
        }
        assert(r == f);
        lemma_name_trimmed_fixed(f);
        assert(ends_with(name_trimmed(r), e)) by {
            assert(name_trimmed(r).subrange(
                name_trimmed(r).len() as int,
                name_trimmed(r).len() as int,
            ) =~= e);
        }
    } else {
        // The trimmed extension ends with a non-dot, so the result ends with
        // it too: the second pass trims nothing and appends nothing.
        assert(e.last() != '.');
        if ends_with(f, e) {
            assert(r == f);
            assert(r.len() > 0 && r.last() == e.last()) by {
                assert(f.subrange(f.len() - e.len(), f.len() as int)[e.len() - 1] == e[e.len() - 1]);
            }
            lemma_name_trimmed_no_trailing_dot(r);
            assert(ends_with(name_trimmed(r), e));
        } else {
            assert(r == f + seq!['.'] + e);
            assert(r.len() > 0 && r.last() == e.last());
            lemma_name_trimmed_no_trailing_dot(r);
            assert(ends_with(name_trimmed(r), e)) by {
                assert(r.subrange(r.len() - e.len(), r.len() as int) =~= e);
            }
        }
        assert(ext_trimmed(extension) == e);
        assert(ensure_extension_spec(r, extension) == name_trimmed(r));
        assert(name_trimmed(r) == r);
    }
}

/// A string already free of trailing dots is its own trimmed form.
proof fn lemma_name_trimmed_fixed(s: Seq<char>)
    requires
        s.len() == 0 || s.last() != '.',
    ensures
        name_trimmed(s) == s,
{
    assert(rskip_dots(s, s.len() as int) == s.len());
    assert(s.subrange(0, s.len() as int) =~= s);
}

/// A non-empty string ending with a non-dot is its own trimmed form.
proof fn lemma_name_trimmed_no_trailing_dot(s: Seq<char>)
    requires
        s.len() > 0,
        s.last() != '.',
    ensures
        name_trimmed(s) == s,
{
    lemma_name_trimmed_fixed(s);
}

/// Whether `path` ends with the component `filename`: the final characters
/// match and begin the whole path or follow a separator.
pub open spec fn path_matches(path: Seq<char>, filename: Seq<char>) -> bool {
    &&& ends_with(path, filename)
    &&& (path.len() == filename.len() || path[path.len() - filename.len() - 1] == '/')
}

/// All paths whose final component is `filename`, in order. The caller
/// supplies the walked directory listing.
pub fn find_matching_files(filename: &str, paths: &Vec<String>) -> (r: Vec<String>)
    ensures
        r@.map_values(|p: String| p@) == paths@.map_values(|p: String| p@).filter(
            |p: Seq<char>| path_matches(p, filename@),
        ),
{
    let ghost pv = paths@.map_values(|p: String| p@);
    let mut out: Vec<String> = Vec::new();
    let mut k: usize = 0;
    assert(pv.take(0) =~= Seq::<Seq<char>>::empty());
    assert(out@.map_values(|p: String| p@) =~= pv.take(0).filter(
        |p: Seq<char>| path_matches(p, filename@),
    ));
    while k < paths.len()
        invariant
            0 <= k <= paths.len(),
            pv == paths@.map_values(|p: String| p@),
            pv.len() == paths@.len(),
            forall|j: int| 0 <= j < pv.len() ==> #[trigger] pv[j] == paths@[j]@,
            out@.map_values(|p: String| p@) == pv.take(k as int).filter(
                |p: Seq<char>| path_matches(p, filename@),
            ),
        decreases paths.len() - k,
    {
        let ghost out0 = out@.map_values(|p: String| p@);
        let p = &paths[k];
        let plen = p.as_str().unicode_len();
        let flen = filename.unicode_len();
        let tail_ok = str_ends_with(p.as_str(), filename);
        let mut matched = false;
        if tail_ok {
            if plen == flen {
                matched = true;
            } else {
                let sep = p.as_str().get_char(plen - flen - 1);
                matched = sep == '/';
            }
        }
        assert(matched == path_matches(pv[k as int], filename@));
        if matched {
            out.push(p.clone());
            assert(out@.map_values(|q: String| q@) =~= out0.push(pv[k as int]));
        }
        proof {
            assert(pv.take(k as int + 1).drop_last() =~= pv.take(k as int));
            assert(pv.take(k as int + 1).last() == pv[k as int]);
            reveal(Seq::filter);
            assert(pv.take(k as int + 1).filter(|q: Seq<char>| path_matches(q, filename@))
                == if path_matches(pv[k as int], filename@) {
                    pv.take(k as int).filter(|q: Seq<char>| path_matches(q, filename@)).push(
                        pv[k as int],
                    )
                } else {
                    pv.take(k as int).filter(|q: Seq<char>| path_matches(q, filename@))
                });
        }
        k = k + 1;
    }
    assert(pv.take(paths@.len() as int) =~= pv);
    out
}

} // verus!
