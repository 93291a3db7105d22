//! The document codec: request templates are persisted as flat key-value
//! documents (the shape a YAML-like store holds). Saving writes the keys
//! `method`, `resource`, `headers` and, when present, `body`; loading reads
//! them back, ignores unrecognized keys, and rejects a document missing a
//! required key.

use vstd::prelude::*;
use crate::template::{RequestTemplate, TemplateModel, RequestIntent, IntentModel, HeaderModel,
    headers_view, Method, method_str, method_of_token, method_to_str, method_from_token};
use crate::errors::{SpagError, ErrorModel};
use crate::strutil::{str_eq, eq_ci, lower_code};

verus! {

/// One field of a document: a scalar string or a flat table.
#[derive(Debug, Clone, PartialEq, Eq)]
pub enum DocField {
    Text(String),
    Table(Vec<(String, String)>),
}

pub ghost enum FieldModel {
    Text(Seq<char>),
    Table(Seq<HeaderModel>),
}

impl View for DocField {
    type V = FieldModel;

    open spec fn view(&self) -> FieldModel {
        match self {
            DocField::Text(s) => FieldModel::Text(s@),
            DocField::Table(t) => FieldModel::Table(headers_view(t@)),
        }
    }
}

/// A flat key-value document.
#[derive(Debug, Clone, PartialEq, Eq)]
pub struct Document {
    pub fields: Vec<(String, DocField)>,
}

pub open spec fn doc_view(d: &Document) -> Seq<(Seq<char>, FieldModel)> {
    d.fields@.map_values(|p: (String, DocField)| (p.0@, p.1@))
}

/// First field with this key, if any.
pub open spec fn doc_lookup(fs: Seq<(Seq<char>, FieldModel)>, key: Seq<char>) -> Option<FieldModel>
    decreases fs.len(),
{
    if fs.len() == 0 {
        Option::None
    } else if fs[0].0 == key {
        Option::Some(fs[0].1)
    } else {
        doc_lookup(fs.skip(1), key)
    }
}

/// The document a template is saved as. The endpoint is not part of a
/// saved request file: it is supplied again at resolution time.
pub open spec fn template_to_doc_spec(t: TemplateModel) -> Seq<(Seq<char>, FieldModel)> {
    let base = seq![
        ("method"@, FieldModel::Text(method_str(t.method))),
        ("resource"@, FieldModel::Text(t.resource)),
        ("headers"@, FieldModel::Table(t.headers)),
    ];
    match t.body {
        Option::Some(b) => base.push(("body"@, FieldModel::Text(b))),
        Option::None => base,
    }
}

/// What loading a document yields: an intent without an endpoint, or a
/// malformed-template failure. `method` and `resource` are required text
/// fields, `headers` an optional table, `body` an optional text field;
/// a field of the wrong kind is malformed, unknown keys are ignored.
pub open spec fn doc_to_intent_spec(fs: Seq<(Seq<char>, FieldModel)>) -> Result<IntentModel, ()> {
    match doc_lookup(fs, "method"@) {
        Option::Some(FieldModel::Text(ms)) => match method_of_token(ms) {
            Option::Some(m) => match doc_lookup(fs, "resource"@) {
                Option::Some(FieldModel::Text(res)) => {
                    let headers_r = match doc_lookup(fs, "headers"@) {
                        Option::Some(FieldModel::Table(h)) => Result::<Seq<HeaderModel>, ()>::Ok(h),
                        Option::None => Result::<Seq<HeaderModel>, ()>::Ok(Seq::empty()),
                        Option::Some(FieldModel::Text(_)) => Result::<Seq<HeaderModel>, ()>::Err(()),
                    };
                    let body_r = match doc_lookup(fs, "body"@) {
                        Option::Some(FieldModel::Text(b)) => Result::<Option<Seq<char>>, ()>::Ok(
                            Option::Some(b),
                        ),
                        Option::None => Result::<Option<Seq<char>>, ()>::Ok(Option::None),
                        Option::Some(FieldModel::Table(_)) => Result::<Option<Seq<char>>, ()>::Err(
                            (),
                        ),
                    };
                    match (headers_r, body_r) {
                        (Result::Ok(h), Result::Ok(b)) => Result::Ok(
                            IntentModel {
                                method: m,
                                endpoint: Option::None,
                                resource: res,
                                headers: h,
                                body: b,
                            },
                        ),
                        _ => Result::Err(()),
                    }
                },
                _ => Result::Err(()),
            },
            Option::None => Result::Err(()),
        },
        _ => Result::Err(()),
    }
}

/// Save a template as a document.
pub fn template_to_doc(t: &RequestTemplate) -> (r: Document)
    ensures
        doc_view(&r) == template_to_doc_spec(t@),
{
    let mut fields: Vec<(String, DocField)> = Vec::new();
    fields.push(("method".to_owned(), DocField::Text(method_to_str(t.method))));
    fields.push(("resource".to_owned(), DocField::Text(t.resource.clone())));
    fields.push(("headers".to_owned(), DocField::Table(crate::resolver::copy_headers(&t.headers))));
    match &t.body {
        Some(b) => {
            fields.push(("body".to_owned(), DocField::Text(b.clone())));
        },
        None => {},
    }
    let d = Document { fields };
    assert(doc_view(&d) =~= template_to_doc_spec(t@));
    d
}

/// First field with this key, if any.
fn doc_get<'a>(d: &'a Document, key: &str) -> (r: Option<&'a DocField>)
    ensures
        match r {
            Option::Some(f) => doc_lookup(doc_view(d), key@) == Option::Some(f@),
            Option::None => doc_lookup(doc_view(d), key@) is None,
        },
{
    let ghost dv = doc_view(d);
    let mut k: usize = 0;
    assert(dv.skip(0) =~= dv);
    while k < d.fields.len()
        invariant
            0 <= k <= d.fields.len(),
            dv == doc_view(d),
            dv.len() == d.fields@.len(),
            forall|j: int| 0 <= j < dv.len() ==> #[trigger] dv[j] == (d.fields@[j].0@, d.fields@[j].1@),
            doc_lookup(dv, key@) == doc_lookup(dv.skip(k as int), key@),
        decreases d.fields.len() - k,
    {
        assert(dv.skip(k as int)[0] == dv[k as int]);
        assert(dv.skip(k as int).skip(1) =~= dv.skip(k as int + 1));
        if str_eq(d.fields[k].0.as_str(), key) {
            return Some(&d.fields[k].1);
        }
        k = k + 1;
    }
    assert(dv.skip(d.fields@.len() as int) =~= Seq::<(Seq<char>, FieldModel)>::empty());
    None
}

/// Load a document as a request intent.
pub fn doc_to_intent(d: &Document) -> (r: Result<RequestIntent, SpagError>)
    ensures
        match r {
            Result::Ok(i) => doc_to_intent_spec(doc_view(d)) == Result::<IntentModel, ()>::Ok(i@),
            Result::Err(e) => doc_to_intent_spec(doc_view(d)) is Err && e@
                == ErrorModel::MalformedTemplate,
        },
{
    let method = match doc_get(d, "method") {
        Some(DocField::Text(ms)) => match method_from_token(ms.as_str()) {
            Some(m) => m,
            None => {
                return Err(SpagError::MalformedTemplate);
            },
        },
        _ => {
            return Err(SpagError::MalformedTemplate);
        },
    };
    let resource = match doc_get(d, "resource") {
        Some(DocField::Text(res)) => res.clone(),
        _ => {
            return Err(SpagError::MalformedTemplate);
        },
    };
    let headers = match doc_get(d, "headers") {
        Some(DocField::Table(h)) => crate::resolver::copy_headers(h),
        None => {
            let v: Vec<(String, String)> = Vec::new();
            assert(headers_view(v@) =~= Seq::<HeaderModel>::empty());
            v
        },
        Some(DocField::Text(_)) => {
            return Err(SpagError::MalformedTemplate);
        },
    };
    let body = match doc_get(d, "body") {
        Some(DocField::Text(b)) => Some(b.clone()),
        None => None,
        Some(DocField::Table(_)) => {
            return Err(SpagError::MalformedTemplate);
        },
    };
    Ok(RequestIntent { method, endpoint: None, resource, headers, body })
}

/// A verb token parses back to the verb it was printed from.
pub proof fn lemma_method_round_trip(m: Method)
    ensures
        method_of_token(method_str(m)) == Option::Some(m),
{
    reveal_strlit("GET");
    reveal_strlit("POST");
    reveal_strlit("PUT");
    reveal_strlit("PATCH");
    reveal_strlit("DELETE");
    match m {
        Method::Get => {
            assert(eq_ci("GET"@, "GET"@));
        },
        Method::Post => {
            assert(!eq_ci("POST"@, "GET"@));
            assert(eq_ci("POST"@, "POST"@));
        },
        Method::Put => {
            assert(!eq_ci("PUT"@, "GET"@)) by {
                assert(lower_code("PUT"@[0]) != lower_code("GET"@[0]));
            }
            assert(!eq_ci("PUT"@, "POST"@));
            assert(eq_ci("PUT"@, "PUT"@));
        },
        Method::Patch => {
            assert(!eq_ci("PATCH"@, "GET"@));
            assert(!eq_ci("PATCH"@, "POST"@));
            assert(!eq_ci("PATCH"@, "PUT"@));
            assert(eq_ci("PATCH"@, "PATCH"@));
        },
        Method::Delete => {
            assert(!eq_ci("DELETE"@, "GET"@));
            assert(!eq_ci("DELETE"@, "POST"@));
            assert(!eq_ci("DELETE"@, "PUT"@));
            assert(!eq_ci("DELETE"@, "PATCH"@));
            assert(eq_ci("DELETE"@, "DELETE"@));
        },
    }
}

/// Law: the codec round-trips. Saving a template and loading the document
/// back yields an intent equal to the template in method, resource, headers
/// (order preserved) and body; the endpoint is deliberately not persisted.
pub proof fn lemma_doc_round_trip(t: TemplateModel)
    ensures
        doc_to_intent_spec(template_to_doc_spec(t)) == Result::<IntentModel, ()>::Ok(
            IntentModel {
                method: t.method,
                endpoint: Option::None,
                resource: t.resource,
                headers: t.headers,
                body: t.body,
            },
        ),
{
    reveal_strlit("method");
    reveal_strlit("resource");
    reveal_strlit("headers");
    reveal_strlit("body");
    reveal_with_fuel(doc_lookup, 6);
    let fs = template_to_doc_spec(t);
    let base = seq![
        ("method"@, FieldModel::Text(method_str(t.method))),
        ("resource"@, FieldModel::Text(t.resource)),
        ("headers"@, FieldModel::Table(t.headers)),
    ];
    assert(fs[0] == base[0] && fs[1] == base[1] && fs[2] == base[2]);
    assert(fs.len() == if t.body is Some {
        4int
    } else {
        3int
    });
    assert("method"@.len() == 6 && "resource"@.len() == 8 && "headers"@.len() == 7 && "body"@.len()
        == 4);
    // method
    assert(doc_lookup(fs, "method"@) == Option::Some(FieldModel::Text(method_str(t.method))));
    lemma_method_round_trip(t.method);
    // resource
    assert(fs.skip(1)[0] == fs[1]);
    assert(fs.skip(1).skip(1) =~= fs.skip(2));
    assert(fs.skip(2)[0] == fs[2]);
    assert(fs.skip(2).skip(1) =~= fs.skip(3));
    assert(doc_lookup(fs, "resource"@) == Option::Some(FieldModel::Text(t.resource)));
    // headers
    assert(doc_lookup(fs, "headers"@) == Option::Some(FieldModel::Table(t.headers)));
    // body
    match t.body {
        Option::Some(b) => {
            assert(fs.skip(3)[0] == fs[3]);
            assert(fs[3] == ("body"@, FieldModel::Text(b)));
            assert(doc_lookup(fs, "body"@) == Option::Some(FieldModel::Text(b)));
        },
        Option::None => {
            assert(fs.skip(3) =~= Seq::<(Seq<char>, FieldModel)>::empty());
            assert(doc_lookup(fs, "body"@) is None);
        },
    }
}

} // verus!
