//! Header handling: parsing raw `"Name: Value"` strings and merging header
//! lists by layered precedence. A later source wins on a case-insensitive
//! name collision, but the winning header keeps the position of the name's
//! first occurrence; names that collide nowhere are kept in encounter order,
//! duplicates included.

use vstd::prelude::*;
use crate::strutil::{eq_ci, lower_code, trim_spec, trim, str_eq_ci};
use crate::template::HeaderModel;
use crate::errors::{SpagError, ErrorModel};

verus! {

/// Index of the first colon at or after `i`, if any.
pub open spec fn find_colon(s: Seq<char>, i: int) -> Option<int>
    decreases s.len() - i when 0 <= i <= s.len()
{
    if i >= s.len() {
        Option::None
    } else if s[i] == ':' {
        Option::Some(i)
    } else {
        find_colon(s, i + 1)
    }
}

/// What parsing a raw header string yields: the part before the first
/// colon as the name, the part after it with surrounding whitespace
/// removed as the value. A string with no colon, or an empty name, is
/// malformed.
pub open spec fn parse_header_spec(s: Seq<char>) -> Result<HeaderModel, ()> {
    match find_colon(s, 0) {
        Option::Some(i) => {
            if i == 0 {
                Result::Err(())
            } else {
                Result::Ok((s.subrange(0, i), trim_spec(s.subrange(i + 1, s.len() as int))))
            }
        },
        Option::None => Result::Err(()),
    }
}

/// Parse one raw CLI header string into a `(name, value)` pair.
pub fn parse_header(raw: &str) -> (r: Result<(String, String), SpagError>)
    ensures
        match r {
            Result::Ok(p) => parse_header_spec(raw@) == Result::<HeaderModel, ()>::Ok((p.0@, p.1@)),
            Result::Err(e) => parse_header_spec(raw@) is Err && e@ == ErrorModel::MalformedHeader(
                raw@,
            ),
        },
{
    let len = raw.unicode_len();
    let mut i: usize = 0;
    loop
        invariant
            0 <= i <= len,
            len == raw@.len(),
            find_colon(raw@, 0) == find_colon(raw@, i as int),
        decreases len - i,
    {
        if i >= len {
            assert(find_colon(raw@, i as int) is None);
            return Err(SpagError::MalformedHeader(raw.to_owned()));
        }
        if raw.get_char(i) == ':' {
            assert(find_colon(raw@, i as int) == Option::Some(i as int));
            if i == 0 {
                return Err(SpagError::MalformedHeader(raw.to_owned()));
            }
            let name = raw.substring_char(0, i).to_owned();
            let rest = raw.substring_char(i + 1, len);
            let value = trim(rest);
            return Ok((name, value));
        }
        assert(find_colon(raw@, i as int) == find_colon(raw@, i + 1));
        i = i + 1;
    }
}

/// Whether some header in `hs` has a name case-insensitively equal to `name`.
pub open spec fn has_ci(hs: Seq<HeaderModel>, name: Seq<char>) -> bool {
    exists|i: int| 0 <= i < hs.len() && eq_ci(#[trigger] hs[i].0, name)
}

/// `hs` without every header whose name matches `name` case-insensitively.
pub open spec fn strip_ci(hs: Seq<HeaderModel>, name: Seq<char>) -> Seq<HeaderModel>
    decreases hs.len(),
{
    if hs.len() == 0 {
        Seq::empty()
    } else if eq_ci(hs[0].0, name) {
        strip_ci(hs.skip(1), name)
    } else {
        seq![hs[0]] + strip_ci(hs.skip(1), name)
    }
}

/// One override applied to a header list: if any existing name collides
/// (case-insensitively), the first such header keeps its position and its
/// spelling but takes the new value, and every later duplicate of that name
/// is dropped; otherwise the override is appended at the end.
pub open spec fn apply_override_spec(hs: Seq<HeaderModel>, name: Seq<char>, value: Seq<char>) -> Seq<
    HeaderModel,
>
    decreases hs.len(),
{
    if hs.len() == 0 {
        seq![(name, value)]
    } else if eq_ci(hs[0].0, name) {
        seq![(hs[0].0, value)] + strip_ci(hs.skip(1), name)
    } else {
        seq![hs[0]] + apply_override_spec(hs.skip(1), name, value)
    }
}

/// A header list after a sequence of overrides, each applied in order.
pub open spec fn merge_headers_spec(base: Seq<HeaderModel>, ovs: Seq<HeaderModel>) -> Seq<
    HeaderModel,
>
    decreases ovs.len(),
{
    if ovs.len() == 0 {
        base
    } else {
        merge_headers_spec(apply_override_spec(base, ovs[0].0, ovs[0].1), ovs.skip(1))
    }
}

/// Apply one override to a header list.
pub fn apply_override(hs: &Vec<(String, String)>, name: &String, value: &String) -> (r: Vec<
    (String, String),
>)
    ensures
        crate::template::headers_view(r@) == apply_override_spec(
            crate::template::headers_view(hs@),
            name@,
            value@,
        ),
{
    let ghost hv = crate::template::headers_view(hs@);
    let mut out: Vec<(String, String)> = Vec::new();
    let mut replaced: bool = false;
    let mut k: usize = 0;
    assert(hv.skip(0) =~= hv);
    assert(crate::template::headers_view(out@) + apply_override_spec(hv, name@, value@)
        =~= apply_override_spec(hv, name@, value@));
    while k < hs.len()
        invariant
            0 <= k <= hs.len(),
            hv == crate::template::headers_view(hs@),
            hv.len() == hs@.len(),
            forall|j: int| 0 <= j < hv.len() ==> #[trigger] hv[j] == (hs@[j].0@, hs@[j].1@),
            if replaced {
                apply_override_spec(hv, name@, value@) == crate::template::headers_view(out@)
                    + strip_ci(hv.skip(k as int), name@)
            } else {
                apply_override_spec(hv, name@, value@) == crate::template::headers_view(out@)
                    + apply_override_spec(hv.skip(k as int), name@, value@)
            },
        decreases hs.len() - k,
    {
        let ghost out0 = crate::template::headers_view(out@);
        let h = &hs[k];
        let m = str_eq_ci(h.0.as_str(), name.as_str());
        assert(hv.skip(k as int)[0] == hv[k as int]);
        assert(hv.skip(k as int).skip(1) =~= hv.skip(k as int + 1));
        if m {
            if !replaced {
                out.push((h.0.clone(), value.clone()));
                replaced = true;
                assert(crate::template::headers_view(out@) =~= out0 + seq![
                    (hv[k as int].0, value@),
                ]);
                assert(apply_override_spec(hv.skip(k as int), name@, value@) == seq![
                    (hv[k as int].0, value@),
                ] + strip_ci(hv.skip(k as int + 1), name@));
                assert(apply_override_spec(hv, name@, value@) == crate::template::headers_view(out@)
                    + strip_ci(hv.skip(k as int + 1), name@));
            } else {
                assert(strip_ci(hv.skip(k as int), name@) == strip_ci(
                    hv.skip(k as int + 1),
                    name@,
                ));
            }
        } else {
            out.push((h.0.clone(), h.1.clone()));
            assert(crate::template::headers_view(out@) =~= out0 + seq![hv[k as int]]);
            if replaced {
                assert(strip_ci(hv.skip(k as int), name@) == seq![hv[k as int]] + strip_ci(
                    hv.skip(k as int + 1),
                    name@,
                ));
                assert(apply_override_spec(hv, name@, value@) == crate::template::headers_view(out@)
                    + strip_ci(hv.skip(k as int + 1), name@));
            } else {
                assert(apply_override_spec(hv.skip(k as int), name@, value@) == seq![hv[k as int]]
                    + apply_override_spec(hv.skip(k as int + 1), name@, value@));
                assert(apply_override_spec(hv, name@, value@) == crate::template::headers_view(out@)
                    + apply_override_spec(hv.skip(k as int + 1), name@, value@));
            }
        }
        k = k + 1;
    }
    assert(hv.skip(hs@.len() as int) =~= Seq::<HeaderModel>::empty());
    if !replaced {
        let ghost out0 = crate::template::headers_view(out@);
        out.push((name.clone(), value.clone()));
        assert(crate::template::headers_view(out@) =~= out0 + seq![(name@, value@)]);
    }
    assert(apply_override_spec(hv, name@, value@) =~= crate::template::headers_view(out@));
    out
}

/// Merge a list of overrides into a base header list, in order.
pub fn merge_headers(base: Vec<(String, String)>, overrides: &Vec<(String, String)>) -> (r: Vec<
    (String, String),
>)
    ensures
        crate::template::headers_view(r@) == merge_headers_spec(
            crate::template::headers_view(base@),
            crate::template::headers_view(overrides@),
        ),
{
    let ghost bv = crate::template::headers_view(base@);
    let ghost ov = crate::template::headers_view(overrides@);
    let mut acc = base;
    let mut k: usize = 0;
    assert(ov.skip(0) =~= ov);
    while k < overrides.len()
        invariant
            0 <= k <= overrides.len(),
            ov == crate::template::headers_view(overrides@),
            ov.len() == overrides@.len(),
            forall|j: int| 0 <= j < ov.len() ==> #[trigger] ov[j] == (
                overrides@[j].0@,
                overrides@[j].1@,
            ),
            merge_headers_spec(bv, ov) == merge_headers_spec(
                crate::template::headers_view(acc@),
                ov.skip(k as int),
            ),
        decreases overrides.len() - k,
    {
        assert(ov.skip(k as int)[0] == ov[k as int]);
        assert(ov.skip(k as int).skip(1) =~= ov.skip(k as int + 1));
        let next = apply_override(&acc, &overrides[k].0, &overrides[k].1);
        acc = next;
        k = k + 1;
    }
    assert(ov.skip(overrides@.len() as int) =~= Seq::<HeaderModel>::empty());
    acc
}

/// Law: an override whose name collides with an existing header leaves
/// exactly one header of that name, carrying the override's value, at the
/// position of the first colliding header; every other header is unchanged
/// and keeps its relative order.
pub proof fn lemma_override_precedence(hs: Seq<HeaderModel>, name: Seq<char>, value: Seq<char>)
    ensures
        ({
            let r = apply_override_spec(hs, name, value);
            &&& (!has_ci(hs, name) ==> r == hs.push((name, value)))
            &&& (has_ci(hs, name) ==> exists|i: int|
                {
                    &&& 0 <= i < hs.len()
                    &&& eq_ci(#[trigger] hs[i].0, name)
                    &&& (forall|j: int| 0 <= j < i ==> !eq_ci(#[trigger] hs[j].0, name))
                    &&& i < r.len()
                    &&& r[i] == (hs[i].0, value)
                    &&& (forall|j: int| 0 <= j < i ==> #[trigger] r[j] == hs[j])
                    &&& (forall|j: int| 0 <= j < r.len() && j != i ==> !eq_ci(
                        #[trigger] r[j].0,
                        name,
                    ))
                })
        }),
    decreases hs.len(),
{
    let r = apply_override_spec(hs, name, value);
    if hs.len() == 0 {
        assert(r =~= hs.push((name, value)));
    } else if eq_ci(hs[0].0, name) {
        lemma_strip_ci_clean(hs.skip(1), name);
        assert(has_ci(hs, name));
        let i = 0int;
        assert(r[i] == (hs[i].0, value));
        assert(forall|j: int| 0 <= j < r.len() && j != i ==> !eq_ci(#[trigger] r[j].0, name));
    } else {
        lemma_override_precedence(hs.skip(1), name, value);
        let tail = hs.skip(1);
        let rt = apply_override_spec(tail, name, value);
        assert(r == seq![hs[0]] + rt);
        if !has_ci(hs, name) {
            assert(!has_ci(tail, name)) by {
                assert(forall|j: int| 0 <= j < tail.len() ==> #[trigger] tail[j] == hs[j + 1]);
            }
            assert(r =~= hs.push((name, value)));
        } else {
            assert(has_ci(tail, name)) by {
                let w = choose|w: int| 0 <= w < hs.len() && eq_ci(#[trigger] hs[w].0, name);
                assert(w != 0);
                assert(tail[w - 1] == hs[w]);
            }
            let it = choose|it: int|
                {
                    &&& 0 <= it < tail.len()
                    &&& eq_ci(#[trigger] tail[it].0, name)
                    &&& (forall|j: int| 0 <= j < it ==> !eq_ci(#[trigger] tail[j].0, name))
                    &&& it < rt.len()
                    &&& rt[it] == (tail[it].0, value)
                    &&& (forall|j: int| 0 <= j < it ==> #[trigger] rt[j] == tail[j])
                    &&& (forall|j: int| 0 <= j < rt.len() && j != it ==> !eq_ci(
                        #[trigger] rt[j].0,
                        name,
                    ))
                };
            let i = it + 1;
            assert(hs[i] == tail[it]);
            assert(r[i] == rt[it]);
            assert(forall|j: int| 0 <= j < i ==> #[trigger] hs[j] == if j == 0 {
                hs[0]
            } else {
                tail[j - 1]
            });
            assert(forall|j: int| 0 <= j < i ==> !eq_ci(#[trigger] hs[j].0, name));
            assert(forall|j: int| 0 <= j < i ==> #[trigger] r[j] == hs[j]);
            assert(forall|j: int| 0 <= j < r.len() && j != i ==> !eq_ci(#[trigger] r[j].0, name));
        }
    }
}

/// Merging a single override is exactly one application of the override
/// rule: with `lemma_override_precedence` this gives the CLI-over-template
/// precedence of the resolver in one step.
pub proof fn lemma_merge_single(base: Seq<HeaderModel>, name: Seq<char>, value: Seq<char>)
    ensures
        merge_headers_spec(base, seq![(name, value)]) == apply_override_spec(base, name, value),
{
    let ovs = seq![(name, value)];
    assert(ovs[0] == (name, value));
    assert(ovs.skip(1) =~= Seq::<HeaderModel>::empty());
    let applied = apply_override_spec(base, name, value);
    assert(merge_headers_spec(base, ovs) == merge_headers_spec(applied, ovs.skip(1)));
    assert(merge_headers_spec(applied, ovs.skip(1)) == applied);
}

/// After stripping, no header matching `name` remains; unmatched headers
/// stay, in order.
pub proof fn lemma_strip_ci_clean(hs: Seq<HeaderModel>, name: Seq<char>)
    ensures
        forall|j: int| 0 <= j < strip_ci(hs, name).len() ==> !eq_ci(
            #[trigger] strip_ci(hs, name)[j].0,
            name,
        ),
        strip_ci(hs, name).len() <= hs.len(),
    decreases hs.len(),
{
    if hs.len() == 0 {
    } else {
        lemma_strip_ci_clean(hs.skip(1), name);
    }
}

} // verus!
