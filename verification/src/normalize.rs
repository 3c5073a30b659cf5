//! The request normalizer: decodes one structured body or duplex text
//! frame into its fields and validates them into the canonical request.
//!
//! Decoding recognizes one shape: a JSON object whose known fields are
//! `type` (text), `persist` (boolean), `sql` (text), `name` (text) and
//! `queries` (array). A field of another type counts as absent; unknown
//! fields are ignored; each entry of `queries` is kept as its own compact
//! serialization, passed through verbatim to the engine. Validation then
//! demands exactly one thing of the core: a present, non-empty `type`
//! discriminant. Everything else is the engine's to judge.
use vstd::prelude::*;

use crate::interfaces::{
    AppError, AppErrorModel, HttpWireModel, QueryParams, QueryParamsModel, WireBodyModel,
    http_encoding,
};

verus! {

/// The fields of a structured request body as decoding leaves them: each
/// one present or absent, none validated yet.
#[derive(Debug, PartialEq, Eq)]
pub struct RawParams {
    pub query_type: Option<String>,
    pub persist: Option<bool>,
    pub sql: Option<String>,
    pub name: Option<String>,
    pub queries: Option<Vec<String>>,
}

/// The ghost shape of decoded fields.
pub struct RawParamsModel {
    pub query_type: Option<Seq<char>>,
    pub persist: Option<bool>,
    pub sql: Option<Seq<char>>,
    pub name: Option<Seq<char>>,
    pub queries: Option<Seq<Seq<char>>>,
}

impl View for RawParams {
    type V = RawParamsModel;

    open spec fn view(&self) -> RawParamsModel {
        RawParamsModel {
            query_type: self.query_type.deep_view(),
            persist: self.persist,
            sql: self.sql.deep_view(),
            name: self.name.deep_view(),
            queries: self.queries.deep_view(),
        }
    }
}

/// The model of optionally decoded fields.
pub open spec fn raw_model(r: Option<RawParams>) -> Option<RawParamsModel> {
    match r {
        Some(p) => Some(p.view()),
        None => None,
    }
}

/// What structured-body decoding yields for given text: the fields of the
/// recognized shape, or nothing when the text is not a JSON object. The
/// result is a function of the text alone.
pub uninterp spec fn decoded_body(s: Seq<char>) -> Option<RawParamsModel>;

/// Relies on serde_json::from_str and serde_json::Value's accessors:
/// decodes one JSON object into the recognized request fields, `None` for
/// any other text. Deterministic in the text alone.
#[verifier::external_body]
pub(crate) fn decode_body(text: &str) -> (r: Option<RawParams>)
    ensures
        (match r {
            Some(p) => decoded_body(text.view()) == Some(p.view()),
            None => decoded_body(text.view()) is None,
        }),
{
    let v: serde_json::Value = serde_json::from_str(text).ok()?;
    let o = v.as_object()?;
    Some(RawParams {
        query_type: o.get("type").and_then(|x| x.as_str()).map(|s| s.to_string()),
        persist: o.get("persist").and_then(|x| x.as_bool()),
        sql: o.get("sql").and_then(|x| x.as_str()).map(|s| s.to_string()),
        name: o.get("name").and_then(|x| x.as_str()).map(|s| s.to_string()),
        queries: o
            .get("queries")
            .and_then(|x| x.as_array())
            .map(|a| a.iter().map(|q| q.to_string()).collect()),
    })
}

/// Whether decoded fields carry a well-formed discriminant: present and
/// non-empty.
pub open spec fn kind_ok(r: RawParamsModel) -> bool {
    match r.query_type {
        Some(k) => k.len() > 0,
        None => false,
    }
}

/// The canonical request that well-formed decoded fields yield.
pub open spec fn params_of(r: RawParamsModel) -> QueryParamsModel {
    QueryParamsModel {
        query_type: r.query_type.unwrap(),
        persist: r.persist,
        sql: r.sql,
        name: r.name,
        queries: r.queries,
    }
}

/// What normalization yields for decoded fields: the canonical request, or
/// nothing where decoding failed or the discriminant is missing or empty.
pub open spec fn normalize_model(o: Option<RawParamsModel>) -> Option<QueryParamsModel> {
    match o {
        Some(r) => if kind_ok(r) {
            Some(params_of(r))
        } else {
            None
        },
        None => None,
    }
}

/// What one request body or duplex text frame normalizes to.
pub open spec fn normalized(s: Seq<char>) -> Option<QueryParamsModel> {
    normalize_model(decoded_body(s))
}

/// Validates decoded fields into the canonical request: rejects a decode
/// failure and a missing or empty discriminant, and nothing else.
pub fn normalize_fields(raw: Option<RawParams>) -> (r: Result<QueryParams, AppError>)
    ensures
        (match r {
            Ok(q) => normalize_model(raw_model(raw)) == Some(q.view()),
            Err(e) => normalize_model(raw_model(raw)) is None && e == AppError::BadRequest,
        }),
{
    match raw {
        None => Err(AppError::BadRequest),
        Some(p) => match p.query_type {
            None => Err(AppError::BadRequest),
            Some(k) => {
                if k.as_str().is_empty() {
                    Err(AppError::BadRequest)
                } else {
                    Ok(QueryParams {
                        query_type: k,
                        persist: p.persist,
                        sql: p.sql,
                        name: p.name,
                        queries: p.queries,
                    })
                }
            },
        },
    }
}

/// Normalizes one structured body or duplex text frame: pure in the text,
/// `Err` exactly where the text does not decode to the recognized shape
/// with a non-empty discriminant.
pub fn normalize_text(text: &str) -> (r: Result<QueryParams, AppError>)
    ensures
        (match r {
            Ok(q) => normalized(text.view()) == Some(q.view()),
            Err(e) => normalized(text.view()) is None && e == AppError::BadRequest,
        }),
{
    normalize_fields(decode_body(text))
}

/// Law: structural rejection. Decoded fields that lack the discriminant
/// (or decode failure outright) normalize to nothing, and the rejection's
/// HTTP form is an empty 400 — never a 500.
pub proof fn lemma_structural_rejection(o: Option<RawParamsModel>)
    requires
        (match o {
            Some(r) => r.query_type is None,
            None => true,
        }),
    ensures
        normalize_model(o) is None,
        http_encoding(Err(AppErrorModel::BadRequest)) == Some(HttpWireModel {
            status: 400u16,
            content_type: None,
            body: WireBodyModel::Empty,
        }),
{
}

} // verus!
