//! The environment registry: named environments, each a mapping of variable
//! names to values with an optional endpoint and default headers, at most
//! one of them marked active. `set` is an upsert; every mutation leaves the
//! registry well-formed.

use vstd::prelude::*;
use crate::template::{HeaderModel, headers_view};
use crate::errors::{SpagError, ErrorModel};
use crate::strutil::str_eq;

verus! {

/// One named environment.
#[derive(Debug, Clone, PartialEq, Eq)]
pub struct Environment {
    pub name: String,
    pub is_active: bool,
    pub endpoint: Option<String>,
    pub variables: Vec<(String, String)>,
    pub default_headers: Vec<(String, String)>,
}

pub ghost struct EnvironmentModel {
    pub name: Seq<char>,
    pub is_active: bool,
    pub endpoint: Option<Seq<char>>,
    pub variables: Seq<HeaderModel>,
    pub default_headers: Seq<HeaderModel>,
}

impl View for Environment {
    type V = EnvironmentModel;

    open spec fn view(&self) -> EnvironmentModel {
        EnvironmentModel {
            name: self.name@,
            is_active: self.is_active,
            endpoint: match self.endpoint {
                Option::Some(e) => Option::Some(e@),
                Option::None => Option::None,
            },
            variables: headers_view(self.variables@),
            default_headers: headers_view(self.default_headers@),
        }
    }
}

/// Variable lists keep one entry per key.
pub open spec fn vars_unique(vs: Seq<HeaderModel>) -> bool {
    forall|i: int, j: int| 0 <= i < j < vs.len() ==> (#[trigger] vs[i].0) != (#[trigger] vs[j].0)
}

/// A variable list after an upsert: the first entry with the key takes the
/// new value in place, or a new entry is appended.
pub open spec fn upsert_spec(vs: Seq<HeaderModel>, key: Seq<char>, value: Seq<char>) -> Seq<
    HeaderModel,
>
    decreases vs.len(),
{
    if vs.len() == 0 {
        seq![(key, value)]
    } else if vs[0].0 == key {
        seq![(vs[0].0, value)] + vs.skip(1)
    } else {
        seq![vs[0]] + upsert_spec(vs.skip(1), key, value)
    }
}

/// An upsert that hits the first entry with the key rewrites it in place.
proof fn lemma_upsert_at(vs: Seq<HeaderModel>, key: Seq<char>, value: Seq<char>, k: int)
    requires
        0 <= k < vs.len(),
        vs[k].0 == key,
        forall|j: int| 0 <= j < k ==> (#[trigger] vs[j].0) != key,
    ensures
        upsert_spec(vs, key, value) == vs.update(k, (vs[k].0, value)),
    decreases vs.len(),
{
    if k == 0 {
        assert(seq![(vs[0].0, value)] + vs.skip(1) =~= vs.update(0, (vs[0].0, value)));
    } else {
        let tail = vs.skip(1);
        assert forall|j: int| 0 <= j < k - 1 implies (#[trigger] tail[j].0) != key by {
            assert(tail[j] == vs[j + 1]);
        }
        assert(tail[k - 1] == vs[k]);
        lemma_upsert_at(tail, key, value, k - 1);
        assert(seq![vs[0]] + tail.update(k - 1, (vs[k].0, value)) =~= vs.update(
            k,
            (vs[k].0, value),
        ));
    }
}

/// An upsert of an absent key appends the pair.
proof fn lemma_upsert_absent(vs: Seq<HeaderModel>, key: Seq<char>, value: Seq<char>)
    requires
        forall|j: int| 0 <= j < vs.len() ==> (#[trigger] vs[j].0) != key,
    ensures
        upsert_spec(vs, key, value) == vs.push((key, value)),
    decreases vs.len(),
{
    if vs.len() == 0 {
        assert(seq![(key, value)] =~= vs.push((key, value)));
    } else {
        let tail = vs.skip(1);
        assert forall|j: int| 0 <= j < tail.len() implies (#[trigger] tail[j].0) != key by {
            assert(tail[j] == vs[j + 1]);
        }
        lemma_upsert_absent(tail, key, value);
        assert(seq![vs[0]] + tail.push((key, value)) =~= vs.push((key, value)));
    }
}

/// Upsert one key into a variable list.
pub fn upsert(vs: &mut Vec<(String, String)>, key: &str, value: &str)
    ensures
        headers_view(final(vs)@) == upsert_spec(headers_view(old(vs)@), key@, value@),
{
    let ghost v0 = headers_view(vs@);
    let mut k: usize = 0;
    while k < vs.len()
        invariant
            0 <= k <= vs.len(),
            v0 == headers_view(old(vs)@),
            v0 == headers_view(vs@),
            vs@ == old(vs)@,
            v0.len() == vs@.len(),
            forall|j: int| 0 <= j < v0.len() ==> #[trigger] v0[j] == (vs@[j].0@, vs@[j].1@),
            forall|j: int| 0 <= j < k ==> (#[trigger] v0[j].0) != key@,
        decreases vs.len() - k,
    {
        if str_eq(vs[k].0.as_str(), key) {
            proof {
                lemma_upsert_at(v0, key@, value@, k as int);
            }
            let name_copy = vs[k].0.clone();
            vs.set(k, (name_copy, value.to_owned()));
            assert(headers_view(vs@) =~= v0.update(k as int, (v0[k as int].0, value@)));
            return ;
        }
        k = k + 1;
    }
    proof {
        lemma_upsert_absent(v0, key@, value@);
    }
    vs.push((key.to_owned(), value.to_owned()));
    assert(headers_view(vs@) =~= v0.push((key@, value@)));
}

/// Law: `set` is an upsert. After it, the key is bound to the new value,
/// it appears exactly once, and every other key's binding is untouched.
#[verifier::rlimit(60)]
pub proof fn lemma_upsert(vs: Seq<HeaderModel>, key: Seq<char>, value: Seq<char>)
    requires
        vars_unique(vs),
    ensures
        ({
            let r = upsert_spec(vs, key, value);
            &&& vars_unique(r)
            &&& crate::subst::lookup(r, key) == Option::Some(value)
            &&& forall|k2: Seq<char>| k2 != key ==> crate::subst::lookup(r, k2)
                == crate::subst::lookup(vs, k2)
        }),
    decreases vs.len(),
{
    let r = upsert_spec(vs, key, value);
    if vs.len() == 0 {
        assert(r.skip(1) =~= Seq::<HeaderModel>::empty());
        assert(vars_unique(r));
        assert(crate::subst::lookup(r, key) == Option::Some(value));
        assert forall|k2: Seq<char>| k2 != key implies crate::subst::lookup(r, k2)
            == crate::subst::lookup(vs, k2) by {
            assert(crate::subst::lookup(r, k2) == crate::subst::lookup(r.skip(1), k2));
        }
    } else if vs[0].0 == key {
        assert(r == seq![(vs[0].0, value)] + vs.skip(1));
        assert(r.skip(1) =~= vs.skip(1));
        assert forall|i: int, j: int| 0 <= i < j < r.len() implies (#[trigger] r[i].0) != (
        #[trigger] r[j].0) by {
            if i == 0 {
                assert(r[j] == vs[j]);
                assert(vs[0].0 != vs[j].0);
            } else {
                assert(r[i] == vs[i] && r[j] == vs[j]);
            }
        }
        assert(crate::subst::lookup(r, key) == Option::Some(value));
        assert forall|k2: Seq<char>| k2 != key implies crate::subst::lookup(r, k2)
            == crate::subst::lookup(vs, k2) by {
            assert(crate::subst::lookup(r, k2) == crate::subst::lookup(r.skip(1), k2));
            assert(crate::subst::lookup(vs, k2) == crate::subst::lookup(vs.skip(1), k2));
        }
    } else {
        let tail = vs.skip(1);
        assert(vars_unique(tail)) by {
            assert forall|i: int, j: int| 0 <= i < j < tail.len() implies (#[trigger] tail[i].0)
                != (#[trigger] tail[j].0) by {
                assert(tail[i] == vs[i + 1] && tail[j] == vs[j + 1]);
            }
        }
        lemma_upsert(tail, key, value);
        let rt = upsert_spec(tail, key, value);
        assert(r == seq![vs[0]] + rt);
        assert(r.skip(1) =~= rt);
        assert forall|j: int| 0 <= j < tail.len() implies (#[trigger] tail[j].0) != vs[0].0 by {
            assert(tail[j] == vs[j + 1]);
        }
        lemma_upsert_keys(tail, key, value, vs[0].0);
        assert forall|i: int, j: int| 0 <= i < j < r.len() implies (#[trigger] r[i].0) != (
        #[trigger] r[j].0) by {
            if i == 0 {
                assert(r[j] == rt[j - 1]);
            } else {
                assert(r[i] == rt[i - 1] && r[j] == rt[j - 1]);
            }
        }
        assert(crate::subst::lookup(r, key) == crate::subst::lookup(rt, key));
        assert forall|k2: Seq<char>| k2 != key implies crate::subst::lookup(r, k2)
            == crate::subst::lookup(vs, k2) by {
            assert(crate::subst::lookup(r, k2) == if r[0].0 == k2 {
                Option::Some(r[0].1)
            } else {
                crate::subst::lookup(rt, k2)
            });
            assert(crate::subst::lookup(vs, k2) == if vs[0].0 == k2 {
                Option::Some(vs[0].1)
            } else {
                crate::subst::lookup(tail, k2)
            });
        }
    }
}

/// Every key of the upserted list is `key` or a key of the list before.
proof fn lemma_upsert_keys(vs: Seq<HeaderModel>, key: Seq<char>, value: Seq<char>, other: Seq<char>)
    requires
        other != key,
        forall|j: int| 0 <= j < vs.len() ==> (#[trigger] vs[j].0) != other,
    ensures
        forall|j: int| 0 <= j < upsert_spec(vs, key, value).len() ==> (#[trigger] upsert_spec(
            vs,
            key,
            value,
        )[j].0) != other,
    decreases vs.len(),
{
    let r = upsert_spec(vs, key, value);
    if vs.len() == 0 {
        assert forall|j: int| 0 <= j < r.len() implies (#[trigger] r[j].0) != other by {}
    } else if vs[0].0 == key {
        assert forall|j: int| 0 <= j < r.len() implies (#[trigger] r[j].0) != other by {
            if j > 0 {
                assert(r[j] == vs.skip(1)[j - 1]);
                assert(vs.skip(1)[j - 1] == vs[j]);
            }
        }
    } else {
        let tail = vs.skip(1);
        assert forall|j: int| 0 <= j < tail.len() implies (#[trigger] tail[j].0) != other by {
            assert(tail[j] == vs[j + 1]);
        }
        lemma_upsert_keys(tail, key, value, other);
        let rt = upsert_spec(tail, key, value);
        assert forall|j: int| 0 <= j < r.len() implies (#[trigger] r[j].0) != other by {
            if j > 0 {
                assert(r[j] == rt[j - 1]);
            }
        }
    }
}

/// The registry of environments.
#[derive(Debug, Clone, PartialEq, Eq)]
pub struct EnvironmentRegistry {
    pub envs: Vec<Environment>,
}

pub open spec fn registry_view(r: &EnvironmentRegistry) -> Seq<EnvironmentModel> {
    r.envs@.map_values(|e: Environment| e@)
}

/// Well-formed registry: names are unique, at most one environment is
/// active, and every variable list keeps one entry per key.
pub open spec fn registry_wf(r: &EnvironmentRegistry) -> bool {
    let v = registry_view(r);
    &&& forall|i: int, j: int| 0 <= i < j < v.len() ==> (#[trigger] v[i].name) != (
    #[trigger] v[j].name)
    &&& forall|i: int, j: int|
        0 <= i < v.len() && 0 <= j < v.len() && (#[trigger] v[i].is_active) && (
        #[trigger] v[j].is_active) ==> i == j
    &&& forall|i: int| 0 <= i < v.len() ==> vars_unique(#[trigger] v[i].variables)
}

/// First index of an environment with this name, if any.
pub open spec fn env_index(v: Seq<EnvironmentModel>, name: Seq<char>) -> Option<int> {
    if exists|i: int| 0 <= i < v.len() && (#[trigger] v[i].name) == name {
        let w = choose|w: int|
            0 <= w < v.len() && (#[trigger] v[w].name) == name && forall|j: int|
                0 <= j < w ==> (#[trigger] v[j].name) != name;
        Option::Some(w)
    } else {
        Option::None
    }
}

/// First index of an active environment, if any.
pub open spec fn active_index(v: Seq<EnvironmentModel>) -> Option<int> {
    if exists|i: int| 0 <= i < v.len() && (#[trigger] v[i].is_active) {
        let w = choose|w: int|
            0 <= w < v.len() && (#[trigger] v[w].is_active) && forall|j: int|
                0 <= j < w ==> !(#[trigger] v[j].is_active);
        Option::Some(w)
    } else {
        Option::None
    }
}

impl EnvironmentRegistry {
    /// An empty registry: no environments, none active.
    pub fn new() -> (r: EnvironmentRegistry)
        ensures
            registry_view(&r).len() == 0,
            registry_wf(&r),
    {
        let r = EnvironmentRegistry { envs: Vec::new() };
        assert(registry_view(&r) =~= Seq::<EnvironmentModel>::empty());
        r
    }

    /// Position of the named environment in the registry, if present.
    fn find_env(&self, name: &str) -> (r: Option<usize>)
        ensures
            match r {
                Option::Some(i) => env_index(registry_view(self), name@) == Option::Some(i as int)
                    && i < self.envs.len(),
                Option::None => env_index(registry_view(self), name@) is None,
            },
    {
        let ghost v = registry_view(self);
        let mut k: usize = 0;
        while k < self.envs.len()
            invariant
                0 <= k <= self.envs.len(),
                v == registry_view(self),
                v.len() == self.envs@.len(),
                forall|j: int| 0 <= j < v.len() ==> #[trigger] v[j] == self.envs@[j]@,
                forall|j: int| 0 <= j < k ==> (#[trigger] v[j].name) != name@,
            decreases self.envs.len() - k,
        {
            if str_eq(self.envs[k].name.as_str(), name) {
                assert(v[k as int].name == name@);
                proof {
                    let w = choose|w: int|
                        0 <= w < v.len() && (#[trigger] v[w].name) == name@ && forall|j: int|
                            0 <= j < w ==> (#[trigger] v[j].name) != name@;
                    assert(w == k as int);
                }
                return Some(k);
            }
            k = k + 1;
        }
        assert(env_index(v, name@) is None);
        None
    }

    /// Upsert `key → value` into the named environment, creating the
    /// environment (inactive, bare) if it does not exist yet.
    pub fn set(&mut self, environment_name: &str, key: &str, value: &str)
        requires
            registry_wf(old(self)),
        ensures
            registry_wf(final(self)),
            ({
                let v0 = registry_view(old(self));
                let v1 = registry_view(final(self));
                match env_index(v0, environment_name@) {
                    Option::Some(i) => {
                        &&& v1.len() == v0.len()
                        &&& v1[i].variables == upsert_spec(v0[i].variables, key@, value@)
                        &&& v1[i].name == v0[i].name
                        &&& v1[i].is_active == v0[i].is_active
                        &&& v1[i].endpoint == v0[i].endpoint
                        &&& v1[i].default_headers == v0[i].default_headers
                        &&& forall|j: int| 0 <= j < v1.len() && j != i ==> #[trigger] v1[j]
                            == v0[j]
                    },
                    Option::None => {
                        &&& v1.len() == v0.len() + 1
                        &&& (forall|j: int| 0 <= j < v0.len() ==> #[trigger] v1[j] == v0[j])
                        &&& v1[v0.len() as int].name == environment_name@
                        &&& v1[v0.len() as int].variables == seq![(key@, value@)]
                        &&& !v1[v0.len() as int].is_active
                        &&& v1[v0.len() as int].endpoint is None
                        &&& v1[v0.len() as int].default_headers =~= Seq::<HeaderModel>::empty()
                    },
                }
            }),
    {
        let ghost v0 = registry_view(self);
        match self.find_env(environment_name) {
            Some(i) => {
                let ghost iv = i as int;
                let ghost envs0 = self.envs@;
                let mut env = self.envs.remove(i);
                upsert(&mut env.variables, key, value);
                self.envs.insert(i, env);
                assert(self.envs@.len() == envs0.len());
                assert forall|j: int| 0 <= j < envs0.len() && j != iv implies #[trigger] self.envs@[j]
                    == envs0[j] by {
                    if j < iv {
                        assert(self.envs@[j] == envs0.remove(iv)[j]);
                    } else {
                        assert(self.envs@[j] == envs0.remove(iv)[j - 1]);
                    }
                }
                let ghost v1 = registry_view(self);
                assert(forall|j: int| 0 <= j < v1.len() && j != iv ==> #[trigger] v1[j] == v0[j]);
                assert(v1[iv].variables == upsert_spec(v0[iv].variables, key@, value@));
                proof {
                    lemma_upsert(v0[iv].variables, key@, value@);
                }
                assert(registry_wf(self)) by {
                    assert forall|a: int, b: int| 0 <= a < b < v1.len() implies (
                    #[trigger] v1[a].name) != (#[trigger] v1[b].name) by {
                        assert(v1[a].name == v0[a].name && v1[b].name == v0[b].name);
                    }
                    assert forall|a: int| 0 <= a < v1.len() implies vars_unique(
                        #[trigger] v1[a].variables,
                    ) by {
                        if a != iv {
                            assert(v1[a] == v0[a]);
                        }
                    }
                    assert forall|a: int, b: int|
                        0 <= a < v1.len() && 0 <= b < v1.len() && (#[trigger] v1[a].is_active) && (
                        #[trigger] v1[b].is_active) implies a == b by {
                        assert(v1[a].is_active == v0[a].is_active);
                        assert(v1[b].is_active == v0[b].is_active);
                    }
                }
            },
            None => {
                let mut vars = Vec::new();
                vars.push((key.to_owned(), value.to_owned()));
                let env = Environment {
                    name: environment_name.to_owned(),
                    is_active: false,
                    endpoint: None,
                    variables: vars,
                    default_headers: Vec::new(),
                };
                assert(headers_view(env.variables@) =~= seq![(key@, value@)]);
                assert(headers_view(env.default_headers@) =~= Seq::<HeaderModel>::empty());
                self.envs.push(env);
                let ghost v1 = registry_view(self);
                assert(v1.len() == v0.len() + 1);
                assert(forall|j: int| 0 <= j < v0.len() ==> #[trigger] v1[j] == v0[j]);
                assert(registry_wf(self)) by {
                    assert forall|a: int, b: int| 0 <= a < b < v1.len() implies (
                    #[trigger] v1[a].name) != (#[trigger] v1[b].name) by {
                        if b == v0.len() as int {
                            assert(v1[a] == v0[a]);
                            assert(v0[a].name != environment_name@);
                        } else {
                            assert(v1[a] == v0[a] && v1[b] == v0[b]);
                        }
                    }
                    assert forall|a: int| 0 <= a < v1.len() implies vars_unique(
                        #[trigger] v1[a].variables,
                    ) by {
                        if a < v0.len() as int {
                            assert(v1[a] == v0[a]);
                        } else {
                            assert(v1[a].variables == seq![(key@, value@)]);
                        }
                    }
                    assert forall|a: int, b: int|
                        0 <= a < v1.len() && 0 <= b < v1.len() && (#[trigger] v1[a].is_active) && (
                        #[trigger] v1[b].is_active) implies a == b by {
                        assert(a < v0.len() && b < v0.len());
                        assert(v1[a] == v0[a] && v1[b] == v0[b]);
                    }
                }
            },
        }
    }

    /// The active environment, as a reference.
    pub fn get_active(&self) -> (r: Result<&Environment, SpagError>)
        ensures
            match r {
                Result::Ok(e) => active_index(registry_view(self)) is Some && e@ == registry_view(
                    self,
                )[active_index(registry_view(self))->Some_0],
                Result::Err(err) => active_index(registry_view(self)) is None && err@
                    == ErrorModel::NoActiveEnvironment,
            },
    {
        let ghost v = registry_view(self);
        let mut k: usize = 0;
        while k < self.envs.len()
            invariant
                0 <= k <= self.envs.len(),
                v == registry_view(self),
                v.len() == self.envs@.len(),
                forall|j: int| 0 <= j < v.len() ==> #[trigger] v[j] == self.envs@[j]@,
                forall|j: int| 0 <= j < k ==> !(#[trigger] v[j].is_active),
            decreases self.envs.len() - k,
        {
            if self.envs[k].is_active {
                assert(v[k as int].is_active);
                proof {
                    let w = choose|w: int|
                        0 <= w < v.len() && (#[trigger] v[w].is_active) && forall|j: int|
                            0 <= j < w ==> !(#[trigger] v[j].is_active);
                    assert(w == k as int);
                }
                return Ok(&self.envs[k]);
            }
            k = k + 1;
        }
        assert(active_index(v) is None);
        Err(SpagError::NoActiveEnvironment)
    }

    /// A human-readable snapshot of the named environment's variables (or
    /// the active one's, when no name is given): one `key = value` line per
    /// variable, in order.
    pub fn show(&self, environment_name: Option<&str>) -> (r: Result<String, SpagError>)
        ensures
            match r {
                Result::Ok(text) => match environment_name {
                    Option::Some(n) => env_index(registry_view(self), n@) is Some && text@
                        == render_vars(
                        registry_view(self)[env_index(registry_view(self), n@)->Some_0].variables,
                    ),
                    Option::None => active_index(registry_view(self)) is Some && text@
                        == render_vars(
                        registry_view(self)[active_index(registry_view(self))->Some_0].variables,
                    ),
                },
                Result::Err(e) => match environment_name {
                    Option::Some(n) => env_index(registry_view(self), n@) is None && e@
                        == ErrorModel::EnvironmentNotFound(n@),
                    Option::None => active_index(registry_view(self)) is None && e@
                        == ErrorModel::NoActiveEnvironment,
                },
            },
    {
        match environment_name {
            Some(n) => match self.find_env(n) {
                Some(i) => {
                    assert(registry_view(self)[i as int] == self.envs@[i as int]@);
                    Ok(render_vars_exec(&self.envs[i].variables))
                },
                None => Err(SpagError::EnvironmentNotFound(n.to_owned())),
            },
            None => match self.get_active() {
                Ok(e) => {
                    let text = render_vars_exec(&e.variables);
                    Ok(text)
                },
                Err(err) => Err(err),
            },
        }
    }
}

/// The rendered snapshot of a variable list: `key = value` and a newline,
/// per entry, in order.
pub open spec fn render_vars(vs: Seq<HeaderModel>) -> Seq<char>
    decreases vs.len(),
{
    if vs.len() == 0 {
        Seq::empty()
    } else {
        vs[0].0 + " = "@ + vs[0].1 + "\n"@ + render_vars(vs.skip(1))
    }
}

/// Render a variable list as text.
pub fn render_vars_exec(vs: &Vec<(String, String)>) -> (r: String)
    ensures
        r@ == render_vars(headers_view(vs@)),
{
    let ghost vv = headers_view(vs@);
    let mut out = String::new();
    let mut k: usize = 0;
    assert(vv.skip(0) =~= vv);
    while k < vs.len()
        invariant
            0 <= k <= vs.len(),
            vv == headers_view(vs@),
            vv.len() == vs@.len(),
            forall|j: int| 0 <= j < vv.len() ==> #[trigger] vv[j] == (vs@[j].0@, vs@[j].1@),
            render_vars(vv) == out@ + render_vars(vv.skip(k as int)),
        decreases vs.len() - k,
    {
        assert(vv.skip(k as int)[0] == vv[k as int]);
        assert(vv.skip(k as int).skip(1) =~= vv.skip(k as int + 1));
        let ghost out0 = out@;
        out.append(vs[k].0.as_str());
        out.append(" = ");
        out.append(vs[k].1.as_str());
        out.append("\n");
        assert(out@ =~= out0 + (vv[k as int].0 + " = "@ + vv[k as int].1 + "\n"@));
        assert(out0 + (vv[k as int].0 + " = "@ + vv[k as int].1 + "\n"@ + render_vars(
            vv.skip(k as int + 1),
        )) =~= out@ + render_vars(vv.skip(k as int + 1)));
        k = k + 1;
    }
    assert(vv.skip(vs@.len() as int) =~= Seq::<HeaderModel>::empty());
    assert(out@ + Seq::<char>::empty() =~= out@);
    out
}

} // verus!
