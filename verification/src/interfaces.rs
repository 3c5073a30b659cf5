//! The shared vocabulary of the gateway: the canonical request shape, the
//! engine's response variants, the error taxonomy, and the HTTP wire
//! encoding of each outcome.
use vstd::prelude::*;

verus! {

/// One canonical request, shared by plain calls and duplex frames: a
/// required operation discriminant plus the operation-specific fields that
/// the gateway passes through to the engine without interpreting them.
#[derive(Debug, PartialEq, Eq)]
pub struct QueryParams {
    pub query_type: String,
    pub persist: Option<bool>,
    pub sql: Option<String>,
    pub name: Option<String>,
    pub queries: Option<Vec<String>>,
}

/// The ghost shape of a request: every text field as a character sequence.
pub struct QueryParamsModel {
    pub query_type: Seq<char>,
    pub persist: Option<bool>,
    pub sql: Option<Seq<char>>,
    pub name: Option<Seq<char>>,
    pub queries: Option<Seq<Seq<char>>>,
}

impl View for QueryParams {
    type V = QueryParamsModel;

    open spec fn view(&self) -> QueryParamsModel {
        QueryParamsModel {
            query_type: self.query_type.view(),
            persist: self.persist,
            sql: self.sql.deep_view(),
            name: self.name.deep_view(),
            queries: self.queries.deep_view(),
        }
    }
}

/// One engine outcome: already-serialized structured text, opaque binary,
/// a duplex-upgrade hand-off, a structural rejection, or nothing.
/// Exactly one variant is active per outcome.
#[derive(Debug, PartialEq, Eq)]
pub enum QueryResponse {
    Json(String),
    Arrow(Vec<u8>),
    Handoff,
    BadRequest,
    Empty,
}

/// The ghost shape of a response.
pub enum QueryResponseModel {
    Json(Seq<char>),
    Arrow(Seq<u8>),
    Handoff,
    BadRequest,
    Empty,
}

impl View for QueryResponse {
    type V = QueryResponseModel;

    open spec fn view(&self) -> QueryResponseModel {
        match self {
            QueryResponse::Json(s) => QueryResponseModel::Json(s.view()),
            QueryResponse::Arrow(b) => QueryResponseModel::Arrow(b.view()),
            QueryResponse::Handoff => QueryResponseModel::Handoff,
            QueryResponse::BadRequest => QueryResponseModel::BadRequest,
            QueryResponse::Empty => QueryResponseModel::Empty,
        }
    }
}

/// A failure surfaced to one caller: a structural rejection of the request
/// shape, or an upstream failure rendered as a message.
#[derive(Debug, PartialEq, Eq)]
pub enum AppError {
    BadRequest,
    Error(String),
}

/// The ghost shape of an error.
pub enum AppErrorModel {
    BadRequest,
    Error(Seq<char>),
}

impl View for AppError {
    type V = AppErrorModel;

    open spec fn view(&self) -> AppErrorModel {
        match self {
            AppError::BadRequest => AppErrorModel::BadRequest,
            AppError::Error(m) => AppErrorModel::Error(m.view()),
        }
    }
}

/// The model of one full call outcome.
pub open spec fn outcome_model(
    o: Result<QueryResponse, AppError>,
) -> Result<QueryResponseModel, AppErrorModel> {
    match o {
        Ok(r) => Ok(r.view()),
        Err(e) => Err(e.view()),
    }
}

/// The content type attached to a non-empty HTTP body.
#[derive(Debug, PartialEq, Eq, Clone, Copy)]
pub enum ContentType {
    Json,
    OctetStream,
}

impl ContentType {
    /// The header value this content type is written as on the wire.
    pub fn as_str(&self) -> (s: &'static str)
        ensures
            s.view() == (match self {
                ContentType::Json => "application/json".view(),
                ContentType::OctetStream => "application/octet-stream".view(),
            }),
    {
        match self {
            ContentType::Json => "application/json",
            ContentType::OctetStream => "application/octet-stream",
        }
    }
}

/// An HTTP body on the wire: text passed through verbatim, raw bytes, or
/// nothing.
#[derive(Debug, PartialEq, Eq)]
pub enum WireBody {
    Text(String),
    Bytes(Vec<u8>),
    Empty,
}

/// The ghost shape of an HTTP body.
pub enum WireBodyModel {
    Text(Seq<char>),
    Bytes(Seq<u8>),
    Empty,
}

impl View for WireBody {
    type V = WireBodyModel;

    open spec fn view(&self) -> WireBodyModel {
        match self {
            WireBody::Text(s) => WireBodyModel::Text(s.view()),
            WireBody::Bytes(b) => WireBodyModel::Bytes(b.view()),
            WireBody::Empty => WireBodyModel::Empty,
        }
    }
}

/// One complete HTTP response: status, optional content type, body.
#[derive(Debug, PartialEq, Eq)]
pub struct HttpWire {
    pub status: u16,
    pub content_type: Option<ContentType>,
    pub body: WireBody,
}

/// The ghost shape of an HTTP response.
pub struct HttpWireModel {
    pub status: u16,
    pub content_type: Option<ContentType>,
    pub body: WireBodyModel,
}

impl View for HttpWire {
    type V = HttpWireModel;

    open spec fn view(&self) -> HttpWireModel {
        HttpWireModel {
            status: self.status,
            content_type: self.content_type,
            body: self.body.view(),
        }
    }
}

/// The model of an optional wire response.
pub open spec fn wire_opt_model(w: Option<HttpWire>) -> Option<HttpWireModel> {
    match w {
        Some(x) => Some(x.view()),
        None => None,
    }
}

/// The one HTTP encoding of each outcome: structured text and binary
/// payloads pass through verbatim under their content types, a structural
/// rejection is an empty 400, an empty result an empty 200, and an upstream
/// failure a 500 carrying a rendered message. A duplex hand-off has no byte
/// encoding of its own (the upgrade response itself stands for it), so it
/// alone maps to `None`.
pub open spec fn http_encoding(
    o: Result<QueryResponseModel, AppErrorModel>,
) -> Option<HttpWireModel> {
    match o {
        Ok(QueryResponseModel::Json(s)) => Some(HttpWireModel {
            status: 200,
            content_type: Some(ContentType::Json),
            body: WireBodyModel::Text(s),
        }),
        Ok(QueryResponseModel::Arrow(b)) => Some(HttpWireModel {
            status: 200,
            content_type: Some(ContentType::OctetStream),
            body: WireBodyModel::Bytes(b),
        }),
        Ok(QueryResponseModel::Handoff) => None,
        Ok(QueryResponseModel::BadRequest) => Some(HttpWireModel {
            status: 400,
            content_type: None,
            body: WireBodyModel::Empty,
        }),
        Ok(QueryResponseModel::Empty) => Some(HttpWireModel {
            status: 200,
            content_type: None,
            body: WireBodyModel::Empty,
        }),
        Err(AppErrorModel::BadRequest) => Some(HttpWireModel {
            status: 400,
            content_type: None,
            body: WireBodyModel::Empty,
        }),
        Err(AppErrorModel::Error(m)) => Some(HttpWireModel {
            status: 500,
            content_type: None,
            body: WireBodyModel::Text("Something went wrong: ".view() + m),
        }),
    }
}

impl QueryResponse {
    /// Encodes this response for HTTP. `None` exactly when the response is
    /// the duplex hand-off, whose wire form is the upgrade response itself.
    pub fn into_wire(self) -> (w: Option<HttpWire>)
        ensures
            wire_opt_model(w) == http_encoding(Ok(self.view())),
    {
        match self {
            QueryResponse::Json(s) => Some(HttpWire {
                status: 200,
                content_type: Some(ContentType::Json),
                body: WireBody::Text(s),
            }),
            QueryResponse::Arrow(b) => Some(HttpWire {
                status: 200,
                content_type: Some(ContentType::OctetStream),
                body: WireBody::Bytes(b),
            }),
            QueryResponse::Handoff => None,
            QueryResponse::BadRequest => Some(HttpWire {
                status: 400,
                content_type: None,
                body: WireBody::Empty,
            }),
            QueryResponse::Empty => Some(HttpWire {
                status: 200,
                content_type: None,
                body: WireBody::Empty,
            }),
        }
    }
}

impl AppError {
    /// Encodes this error for HTTP: an empty 400 for a structural
    /// rejection, a 500 whose body renders the message otherwise.
    pub fn into_wire(self) -> (w: HttpWire)
        ensures
            Some(w.view()) == http_encoding(Err(self.view())),
    {
        match self {
            AppError::BadRequest => HttpWire {
                status: 400,
                content_type: None,
                body: WireBody::Empty,
            },
            AppError::Error(m) => HttpWire {
                status: 500,
                content_type: None,
                body: WireBody::Text(
                    String::from_str("Something went wrong: ").concat(m.as_str()),
                ),
            },
        }
    }
}

/// Encodes one full call outcome for HTTP.
pub fn encode_http(o: Result<QueryResponse, AppError>) -> (w: Option<HttpWire>)
    ensures
        wire_opt_model(w) == http_encoding(outcome_model(o)),
{
    match o {
        Ok(r) => r.into_wire(),
        Err(e) => Some(e.into_wire()),
    }
}

/// Law: HTTP encoding is deterministic — outcomes with the identical
/// variant and payload yield the identical wire form.
pub proof fn lemma_http_encoding_deterministic(
    a: Result<QueryResponseModel, AppErrorModel>,
    b: Result<QueryResponseModel, AppErrorModel>,
)
    requires
        a == b,
    ensures
        http_encoding(a) == http_encoding(b),
{
}

} // verus!
