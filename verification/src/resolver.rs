//! The request resolver: merges a request intent, the active environment,
//! and raw CLI header overrides into one fully resolved, well-formed
//! request template — or fails, before anything touches the network.
//!
//! The order of decisions is fixed: the endpoint is settled first
//! (`NoEndpoint`), then the raw CLI headers are parsed (`MalformedHeader`),
//! then the resource and body are substituted (`UnresolvedVariable`), then
//! the header layers are merged, and last the result is validated
//! (`MalformedTemplate`).

use vstd::prelude::*;
use crate::template::{RequestIntent, IntentModel, RequestTemplate, TemplateModel, HeaderModel,
    headers_view, template_wf, check_template};
use crate::environment::{Environment, EnvironmentModel};
use crate::errors::{SpagError, ErrorModel};
use crate::headers::{parse_header_spec, parse_header, merge_headers_spec, merge_headers};
use crate::subst::subst;

verus! {

/// View of a list of raw CLI header strings.
pub open spec fn raw_view(cli: Seq<String>) -> Seq<Seq<char>> {
    cli.map_values(|s: String| s@)
}

/// What parsing a list of raw header strings yields: the parsed pairs in
/// order, or the first raw string that is malformed.
pub open spec fn parse_all_spec(cli: Seq<Seq<char>>) -> Result<Seq<HeaderModel>, Seq<char>>
    decreases cli.len(),
{
    if cli.len() == 0 {
        Result::Ok(Seq::empty())
    } else {
        match parse_header_spec(cli[0]) {
            Result::Ok(h) => match parse_all_spec(cli.skip(1)) {
                Result::Ok(rest) => Result::Ok(seq![h] + rest),
                Result::Err(e) => Result::Err(e),
            },
            Result::Err(()) => Result::Err(cli[0]),
        }
    }
}

/// The endpoint resolution decides first from the intent, then from the
/// active environment.
pub open spec fn endpoint_spec(i: IntentModel, env: Option<EnvironmentModel>) -> Option<Seq<char>> {
    match i.endpoint {
        Option::Some(e) => Option::Some(e),
        Option::None => match env {
            Option::Some(em) => em.endpoint,
            Option::None => Option::None,
        },
    }
}

/// The variables the substitution sees: the active environment's, or none.
pub open spec fn vars_of(env: Option<EnvironmentModel>) -> Seq<HeaderModel> {
    match env {
        Option::Some(em) => em.variables,
        Option::None => Seq::empty(),
    }
}

/// The default headers the merge sees: the active environment's, or none.
pub open spec fn defaults_of(env: Option<EnvironmentModel>) -> Seq<HeaderModel> {
    match env {
        Option::Some(em) => em.default_headers,
        Option::None => Seq::empty(),
    }
}

/// The whole resolution, as one function of its inputs.
pub open spec fn resolve_spec(
    i: IntentModel,
    cli: Seq<Seq<char>>,
    env: Option<EnvironmentModel>,
) -> Result<TemplateModel, ErrorModel> {
    let vars = vars_of(env);
    match endpoint_spec(i, env) {
        Option::None => Result::Err(ErrorModel::NoEndpoint),
        Option::Some(ep) => match parse_all_spec(cli) {
            Result::Err(raw) => Result::Err(ErrorModel::MalformedHeader(raw)),
            Result::Ok(cli_hs) => match subst(i.resource, vars) {
                Result::Err(n) => Result::Err(ErrorModel::UnresolvedVariable(n)),
                Result::Ok(res) => {
                    let body_r = match i.body {
                        Option::Some(b) => match subst(b, vars) {
                            Result::Ok(t) => Result::Ok(Option::Some(t)),
                            Result::Err(n) => Result::Err(n),
                        },
                        Option::None => Result::Ok(Option::None),
                    };
                    match body_r {
                        Result::Err(n) => Result::Err(ErrorModel::UnresolvedVariable(n)),
                        Result::Ok(body) => {
                            let t = TemplateModel {
                                method: i.method,
                                endpoint: ep,
                                resource: res,
                                headers: merge_headers_spec(
                                    merge_headers_spec(i.headers, defaults_of(env)),
                                    cli_hs,
                                ),
                                body,
                            };
                            if template_wf(t) {
                                Result::Ok(t)
                            } else {
                                Result::Err(ErrorModel::MalformedTemplate)
                            }
                        },
                    }
                },
            },
        },
    }
}

/// Parse every raw CLI header string, in order.
pub fn parse_headers(cli: &Vec<String>) -> (r: Result<Vec<(String, String)>, SpagError>)
    ensures
        match r {
            Result::Ok(hs) => parse_all_spec(raw_view(cli@)) == Result::<
                Seq<HeaderModel>,
                Seq<char>,
            >::Ok(headers_view(hs@)),
            Result::Err(e) => {
                &&& parse_all_spec(raw_view(cli@)) is Err
                &&& e@ == ErrorModel::MalformedHeader(parse_all_spec(raw_view(cli@))->Err_0)
            },
        },
{
    let ghost cv = raw_view(cli@);
    let mut out: Vec<(String, String)> = Vec::new();
    let mut k: usize = 0;
    assert(cv.skip(0) =~= cv);
    assert(headers_view(out@) =~= Seq::<HeaderModel>::empty());
    while k < cli.len()
        invariant
            0 <= k <= cli.len(),
            cv == raw_view(cli@),
            cv.len() == cli@.len(),
            forall|j: int| 0 <= j < cv.len() ==> #[trigger] cv[j] == cli@[j]@,
            match parse_all_spec(cv.skip(k as int)) {
                Result::Ok(rest) => parse_all_spec(cv) == Result::<
                    Seq<HeaderModel>,
                    Seq<char>,
                >::Ok(headers_view(out@) + rest),
                Result::Err(e) => parse_all_spec(cv) == Result::<
                    Seq<HeaderModel>,
                    Seq<char>,
                >::Err(e),
            },
        decreases cli.len() - k,
    {
        assert(cv.skip(k as int)[0] == cv[k as int]);
        assert(cv.skip(k as int).skip(1) =~= cv.skip(k as int + 1));
        match parse_header(cli[k].as_str()) {
            Ok(p) => {
                let ghost out0 = headers_view(out@);
                out.push(p);
                assert(headers_view(out@) =~= out0.push((out@.last().0@, out@.last().1@)));
                proof {
                    if parse_all_spec(cv.skip(k as int + 1)) is Ok {
                        let rest = parse_all_spec(cv.skip(k as int + 1))->Ok_0;
                        assert(out0 + (seq![(out@.last().0@, out@.last().1@)] + rest)
                            =~= headers_view(out@) + rest);
                    }
                }
            },
            Err(e) => {
                assert(parse_all_spec(cv.skip(k as int)) == Result::<
                    Seq<HeaderModel>,
                    Seq<char>,
                >::Err(cv[k as int]));
                return Err(e);
            },
        }
        k = k + 1;
    }
    assert(cv.skip(cli@.len() as int) =~= Seq::<Seq<char>>::empty());
    assert(headers_view(out@) + Seq::<HeaderModel>::empty() =~= headers_view(out@));
    Ok(out)
}

/// A fresh copy of a header list.
pub fn copy_headers(hs: &Vec<(String, String)>) -> (r: Vec<(String, String)>)
    ensures
        headers_view(r@) == headers_view(hs@),
{
    let mut out: Vec<(String, String)> = Vec::new();
    let mut k: usize = 0;
    while k < hs.len()
        invariant
            0 <= k <= hs.len(),
            out@.len() == k,
            forall|j: int| 0 <= j < k ==> #[trigger] out@[j].0@ == hs@[j].0@ && out@[j].1@
                == hs@[j].1@,
        decreases hs.len() - k,
    {
        out.push((hs[k].0.clone(), hs[k].1.clone()));
        k = k + 1;
    }
    assert(headers_view(out@) =~= headers_view(hs@));
    out
}

/// View of an optional environment reference.
pub open spec fn env_view(env: Option<&Environment>) -> Option<EnvironmentModel> {
    match env {
        Option::Some(e) => Option::Some(e@),
        Option::None => Option::None,
    }
}

/// Resolve an intent against the active environment and the raw CLI header
/// overrides: the template handed back is exactly what `resolve_spec`
/// prescribes, fully substituted and well-formed.
pub fn resolve(intent: &RequestIntent, cli_headers: &Vec<String>, env: Option<&Environment>) -> (r:
    Result<RequestTemplate, SpagError>)
    ensures
        match r {
            Result::Ok(t) => resolve_spec(intent@, raw_view(cli_headers@), env_view(env))
                == Result::<TemplateModel, ErrorModel>::Ok(t@),
            Result::Err(e) => resolve_spec(intent@, raw_view(cli_headers@), env_view(env))
                == Result::<TemplateModel, ErrorModel>::Err(e@),
        },
{
    let ghost em = env_view(env);
    // Endpoint.
    let endpoint: String = match &intent.endpoint {
        Some(e) => e.clone(),
        None => match env {
            Some(e) => match &e.endpoint {
                Some(ep) => ep.clone(),
                None => {
                    return Err(SpagError::NoEndpoint);
                },
            },
            None => {
                return Err(SpagError::NoEndpoint);
            },
        },
    };
    assert(endpoint_spec(intent@, em) == Option::Some(endpoint@));
    // CLI headers.
    let cli_hs = match parse_headers(cli_headers) {
        Ok(hs) => hs,
        Err(e) => {
            return Err(e);
        },
    };
    // Substitution.
    let empty_vars: Vec<(String, String)> = Vec::new();
    let vars: &Vec<(String, String)> = match env {
        Some(e) => &e.variables,
        None => &empty_vars,
    };
    assert(headers_view(vars@) == vars_of(em)) by {
        if em is None {
            assert(headers_view(vars@) =~= Seq::<HeaderModel>::empty());
        }
    }
    let resource = match crate::subst::substitute(intent.resource.as_str(), vars) {
        Ok(t) => t,
        Err(n) => {
            return Err(SpagError::UnresolvedVariable(n));
        },
    };
    let body: Option<String> = match &intent.body {
        Some(b) => match crate::subst::substitute(b.as_str(), vars) {
            Ok(t) => Some(t),
            Err(n) => {
                return Err(SpagError::UnresolvedVariable(n));
            },
        },
        None => None,
    };
    // Header merge: template headers, then environment defaults, then CLI.
    let base = copy_headers(&intent.headers);
    let empty_hs: Vec<(String, String)> = Vec::new();
    let defaults: &Vec<(String, String)> = match env {
        Some(e) => &e.default_headers,
        None => &empty_hs,
    };
    assert(headers_view(defaults@) == defaults_of(em)) by {
        if em is None {
            assert(headers_view(defaults@) =~= Seq::<HeaderModel>::empty());
        }
    }
    let with_defaults = merge_headers(base, defaults);
    let merged = merge_headers(with_defaults, &cli_hs);
    let t = RequestTemplate {
        method: intent.method,
        endpoint,
        resource,
        headers: merged,
        body,
    };
    // Validation.
    if check_template(&t) {
        Ok(t)
    } else {
        Err(SpagError::MalformedTemplate)
    }
}

} // verus!
