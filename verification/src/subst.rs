//! Placeholder substitution: `{{name}}` tokens in a resource path or body
//! are replaced by the active environment's value for `name`. Substitution
//! is all-or-nothing: the first placeholder without a matching variable
//! fails the whole resolution, and nothing partially substituted escapes.

use vstd::prelude::*;
use crate::template::HeaderModel;
use crate::strutil::str_eq;

verus! {

/// First value bound to `name` in a variable list, if any.
pub open spec fn lookup(vars: Seq<HeaderModel>, name: Seq<char>) -> Option<Seq<char>>
    decreases vars.len(),
{
    if vars.len() == 0 {
        Option::None
    } else if vars[0].0 == name {
        Option::Some(vars[0].1)
    } else {
        lookup(vars.skip(1), name)
    }
}

/// Whether an opening `{{` stands at `i`.
pub open spec fn is_open(s: Seq<char>, i: int) -> bool {
    i + 2 <= s.len() && s[i] == '{' && s[i + 1] == '{'
}

/// Index of the first closing `}}` at or after `i`, if any.
pub open spec fn find_close(s: Seq<char>, i: int) -> Option<int>
    decreases s.len() - i when 0 <= i <= s.len()
{
    if i + 2 > s.len() {
        Option::None
    } else if s[i] == '}' && s[i + 1] == '}' {
        Option::Some(i)
    } else {
        find_close(s, i + 1)
    }
}

pub proof fn lemma_find_close_bounds(s: Seq<char>, i: int)
    requires
        0 <= i <= s.len(),
    ensures
        match find_close(s, i) {
            Option::Some(k) => i <= k && k + 2 <= s.len() && s[k] == '}' && s[k + 1] == '}',
            Option::None => true,
        },
    decreases s.len() - i,
{
    if i + 2 > s.len() {
    } else if s[i] == '}' && s[i + 1] == '}' {
    } else {
        lemma_find_close_bounds(s, i + 1);
    }
}

/// The substituted suffix of `s` from position `i` on: text is copied, each
/// `{{name}}` is replaced by the variable's value, and an opening `{{`
/// without any later `}}` is treated as literal text. The first name
/// without a binding fails the whole substitution.
pub open spec fn subst_from(s: Seq<char>, i: int, vars: Seq<HeaderModel>) -> Result<
    Seq<char>,
    Seq<char>,
>
    decreases s.len() - i when 0 <= i <= s.len() via subst_from_dec
{
    if i >= s.len() {
        Result::Ok(Seq::empty())
    } else if is_open(s, i) && find_close(s, i + 2) is Some {
        let j = find_close(s, i + 2)->Some_0;
        let name = s.subrange(i + 2, j);
        match lookup(vars, name) {
            Option::Some(v) => match subst_from(s, j + 2, vars) {
                Result::Ok(rest) => Result::Ok(v + rest),
                Result::Err(e) => Result::Err(e),
            },
            Option::None => Result::Err(name),
        }
    } else {
        match subst_from(s, i + 1, vars) {
            Result::Ok(rest) => Result::Ok(seq![s[i]] + rest),
            Result::Err(e) => Result::Err(e),
        }
    }
}

#[via_fn]
proof fn subst_from_dec(s: Seq<char>, i: int, vars: Seq<HeaderModel>) {
    if i < s.len() && is_open(s, i) && find_close(s, i + 2) is Some {
        lemma_find_close_bounds(s, i + 2);
    }
}

/// The substitution of the whole of `s` against `vars`: `Ok` with the fully
/// substituted text, or `Err` with the first unresolved variable's name.
pub open spec fn subst(s: Seq<char>, vars: Seq<HeaderModel>) -> Result<Seq<char>, Seq<char>> {
    subst_from(s, 0, vars)
}

/// First value bound to `name`, as a fresh copy.
pub fn lookup_var(vars: &Vec<(String, String)>, name: &str) -> (r: Option<String>)
    ensures
        match r {
            Option::Some(v) => lookup(crate::template::headers_view(vars@), name@)
                == Option::Some(v@),
            Option::None => lookup(crate::template::headers_view(vars@), name@) is None,
        },
{
    let ghost vv = crate::template::headers_view(vars@);
    let mut k: usize = 0;
    assert(vv.skip(0) =~= vv);
    while k < vars.len()
        invariant
            0 <= k <= vars.len(),
            vv == crate::template::headers_view(vars@),
            vv.len() == vars@.len(),
            forall|j: int| 0 <= j < vv.len() ==> #[trigger] vv[j] == (vars@[j].0@, vars@[j].1@),
            lookup(vv, name@) == lookup(vv.skip(k as int), name@),
        decreases vars.len() - k,
    {
        assert(vv.skip(k as int)[0] == vv[k as int]);
        assert(vv.skip(k as int).skip(1) =~= vv.skip(k as int + 1));
        if str_eq(vars[k].0.as_str(), name) {
            return Some(vars[k].1.clone());
        }
        k = k + 1;
    }
    None
}

/// Index of the first closing `}}` at or after `start`, mirroring
/// `find_close`.
fn find_close_from(s: &str, start: usize, len: usize) -> (r: Option<usize>)
    requires
        len == s@.len(),
        start <= len,
    ensures
        match r {
            Option::Some(j) => find_close(s@, start as int) == Option::Some(j as int) && start <= j
                && j + 2 <= len,
            Option::None => find_close(s@, start as int) is None,
        },
{
    let mut j: usize = start;
    loop
        invariant
            start <= j <= len,
            len == s@.len(),
            find_close(s@, start as int) == find_close(s@, j as int),
        decreases len - j,
    {
        if len < 2 || j > len - 2 {
            assert(find_close(s@, j as int) is None);
            return None;
        }
        if s.get_char(j) == '}' && s.get_char(j + 1) == '}' {
            assert(find_close(s@, j as int) == Option::Some(j as int));
            return Some(j);
        }
        assert(find_close(s@, j as int) == find_close(s@, j + 1));
        j = j + 1;
    }
}

/// Substitute every placeholder in `s` against `vars`; return the first
/// missing variable name on failure.
pub fn substitute(s: &str, vars: &Vec<(String, String)>) -> (r: Result<String, String>)
    ensures
        match r {
            Result::Ok(t) => subst(s@, crate::template::headers_view(vars@)) == Result::<
                Seq<char>,
                Seq<char>,
            >::Ok(t@),
            Result::Err(n) => subst(s@, crate::template::headers_view(vars@)) == Result::<
                Seq<char>,
                Seq<char>,
            >::Err(n@),
        },
{
    let ghost vv = crate::template::headers_view(vars@);
    let len = s.unicode_len();
    let mut out = String::new();
    let mut i: usize = 0;
    loop
        invariant
            0 <= i <= len,
            len == s@.len(),
            vv == crate::template::headers_view(vars@),
            match subst_from(s@, i as int, vv) {
                Result::Ok(rest) => subst_from(s@, 0, vv) == Result::<Seq<char>, Seq<char>>::Ok(
                    out@ + rest,
                ),
                Result::Err(e) => subst_from(s@, 0, vv) == Result::<Seq<char>, Seq<char>>::Err(e),
            },
        decreases len - i,
    {
        if i >= len {
            assert(out@ + Seq::<char>::empty() =~= out@);
            return Ok(out);
        }
        let mut opened: bool = false;
        if len >= 2 && i <= len - 2 {
            if s.get_char(i) == '{' && s.get_char(i + 1) == '{' {
                opened = true;
            }
        }
        assert(opened == is_open(s@, i as int));
        if opened {
            let close = find_close_from(s, i + 2, len);
            match close {
                Some(j) => {
                    assert(find_close(s@, i + 2) == Option::Some(j as int));
                    let name = s.substring_char(i + 2, j);
                    match lookup_var(vars, name) {
                        Some(v) => {
                            let ghost out0 = out@;
                            out.append(v.as_str());
                            proof {
                                let rest0 = subst_from(s@, i as int, vv);
                                if subst_from(s@, j + 2, vv) is Ok {
                                    let tail = subst_from(s@, j + 2, vv)->Ok_0;
                                    assert(rest0 == Result::<Seq<char>, Seq<char>>::Ok(v@ + tail));
                                    assert(out0 + (v@ + tail) =~= out@ + tail);
                                }
                            }
                            i = j + 2;
                        },
                        None => {
                            return Err(name.to_owned());
                        },
                    }
                },
                None => {
                    // No closing braces anywhere: the brace is literal text.
                    assert(find_close(s@, i + 2) is None);
                    let c = s.get_char(i);
                    let ghost out0 = out@;
                    out.push(c);
                    proof {
                        if subst_from(s@, i as int + 1, vv) is Ok {
                            let tail = subst_from(s@, i as int + 1, vv)->Ok_0;
                            assert(out0 + (seq![c] + tail) =~= out@ + tail);
                        }
                    }
                    i = i + 1;
                },
            }
        } else {
            let c = s.get_char(i);
            let ghost out0 = out@;
            out.push(c);
            proof {
                if subst_from(s@, i as int + 1, vv) is Ok {
                    let tail = subst_from(s@, i as int + 1, vv)->Ok_0;
                    assert(out0 + (seq![c] + tail) =~= out@ + tail);
                }
            }
            i = i + 1;
        }
    }
}

/// If no closing braces stand in `[i, j)` and one stands at `j`, it is the
/// first one.
pub proof fn lemma_find_close_at(s: Seq<char>, i: int, j: int)
    requires
        0 <= i <= j,
        j + 2 <= s.len(),
        forall|k: int| i <= k < j ==> !(#[trigger] s[k] == '}' && s[k + 1] == '}'),
        s[j] == '}',
        s[j + 1] == '}',
    ensures
        find_close(s, i) == Option::Some(j),
    decreases j - i,
{
    if i == j {
    } else {
        lemma_find_close_at(s, i + 1, j);
    }
}

/// Law: substitution is all-or-nothing. A lone placeholder whose name has
/// no binding resolves to an error naming that variable, never to a
/// partially substituted text.
pub proof fn lemma_subst_missing_is_err(name: Seq<char>, vars: Seq<HeaderModel>)
    requires
        lookup(vars, name) is None,
        forall|i: int| 0 <= i < name.len() ==> name[i] != '}',
    ensures
        subst(seq!['{', '{'] + name + seq!['}', '}'], vars) == Result::<Seq<char>, Seq<char>>::Err(
            name,
        ),
{
    let s = seq!['{', '{'] + name + seq!['}', '}'];
    let n = name.len() as int;
    assert(s.len() == n + 4);
    assert(is_open(s, 0));
    assert(forall|k: int| 2 <= k < n + 2 ==> s[k] == name[k - 2]);
    assert(s[n + 2] == '}' && s[n + 3] == '}');
    assert(forall|k: int| 2 <= k < n + 2 ==> !(#[trigger] s[k] == '}' && s[k + 1] == '}'));
    lemma_find_close_at(s, 2, n + 2);
    assert(find_close(s, 2) == Option::Some(n + 2));
    assert(s.subrange(2, n + 2) =~= name);
}

} // verus!
