//! Data model: endpoints, responses, key-value pairs, the application state,
//! the event enumeration consumed by the reducer, and the commands the
//! reducer hands back to the outside loop.

use vstd::prelude::*;

verus! {

/// HTTP method of a saved endpoint or of the draft request.
#[derive(Debug, Clone, Copy, PartialEq, Eq, Structural)]
pub enum HttpMethod {
    GET,
    POST,
}

impl HttpMethod {
    /// The wire name of the method.
    pub open spec fn spec_name(self) -> Seq<char> {
        match self {
            HttpMethod::GET => "GET"@,
            HttpMethod::POST => "POST"@,
        }
    }

    /// Renders the method as its wire name.
    pub fn as_str(&self) -> (r: &'static str)
        ensures
            r@ == self.spec_name(),
    {
        match self {
            HttpMethod::GET => "GET",
            HttpMethod::POST => "POST",
        }
    }

    /// The method a wire name denotes, if any.
    pub open spec fn spec_parse(s: Seq<char>) -> Option<HttpMethod> {
        if s == "GET"@ {
            Some(HttpMethod::GET)
        } else if s == "POST"@ {
            Some(HttpMethod::POST)
        } else {
            None
        }
    }

    /// Parses a wire name; only the exact strings `GET` and `POST` are
    /// accepted.
    pub fn parse(input: &str) -> (r: Result<HttpMethod, ()>)
        ensures
            r is Ok <==> HttpMethod::spec_parse(input@) is Some,
            r matches Ok(m) ==> HttpMethod::spec_parse(input@) == Some(m),
    {
        if crate::text::str_eq(input, "GET") {
            Ok(HttpMethod::GET)
        } else if crate::text::str_eq(input, "POST") {
            Ok(HttpMethod::POST)
        } else {
            Err(())
        }
    }

    /// The other of the two methods; clicking the method button cycles
    /// through them.
    pub fn toggled(self) -> (r: HttpMethod)
        ensures
            r == (match self {
                HttpMethod::GET => HttpMethod::POST,
                HttpMethod::POST => HttpMethod::GET,
            }),
    {
        match self {
            HttpMethod::GET => HttpMethod::POST,
            HttpMethod::POST => HttpMethod::GET,
        }
    }
}

impl core::str::FromStr for HttpMethod {
    type Err = ();

    fn from_str(input: &str) -> Result<HttpMethod, ()> {
        HttpMethod::parse(input)
    }
}

/// Error surfaced to the user: either a wrapped lower-level failure or a
/// client-side mistake (bad URL or scheme).
#[derive(Debug, Clone)]
pub enum MyErr {
    Unknown(String),
    Client(String),
}

impl MyErr {
    /// The banner text for this error.
    pub open spec fn spec_message(self) -> Seq<char> {
        match self {
            MyErr::Unknown(s) => "Unknown error: "@ + s@,
            MyErr::Client(s) => "Interfere error: "@ + s@,
        }
    }

    /// Renders the banner text shown for this error.
    pub fn message(&self) -> (r: String)
        ensures
            r@ == self.spec_message(),
    {
        match self {
            MyErr::Unknown(s) => String::from_str("Unknown error: ").concat(s.as_str()),
            MyErr::Client(s) => String::from_str("Interfere error: ").concat(s.as_str()),
        }
    }
}

/// A query parameter or header: key, value, and an on/off toggle. Disabled
/// pairs are kept but excluded from the outgoing request.
#[derive(Debug, Clone)]
pub struct EndpointKvPair {
    pub id: u64,
    pub parent_response_id: u64,
    pub key: String,
    pub value: String,
    pub on: bool,
}

/// Mathematical image of a key-value pair.
#[verifier::ext_equal]
pub ghost struct KvView {
    pub id: u64,
    pub parent_response_id: u64,
    pub key: Seq<char>,
    pub value: Seq<char>,
    pub on: bool,
}

impl View for EndpointKvPair {
    type V = KvView;

    open spec fn view(&self) -> KvView {
        KvView {
            id: self.id,
            parent_response_id: self.parent_response_id,
            key: self.key@,
            value: self.value@,
            on: self.on,
        }
    }
}

/// The request half of a recorded exchange, or an in-progress draft:
/// query parameters and headers.
#[derive(Debug, Clone)]
pub struct Request {
    pub query_params: Vec<EndpointKvPair>,
    pub headers: Vec<EndpointKvPair>,
}

/// Mathematical image of a request.
#[verifier::ext_equal]
pub ghost struct RequestView {
    pub query_params: Seq<KvView>,
    pub headers: Seq<KvView>,
}

impl View for Request {
    type V = RequestView;

    open spec fn view(&self) -> RequestView {
        RequestView {
            query_params: Seq::new(
                self.query_params@.len(),
                |i: int| self.query_params@[i]@,
            ),
            headers: Seq::new(self.headers@.len(), |i: int| self.headers@[i]@),
        }
    }
}

impl Request {
    /// An empty request: no query parameters, no headers.
    pub fn empty() -> (r: Request)
        ensures
            r.query_params@.len() == 0,
            r.headers@.len() == 0,
    {
        Request { query_params: Vec::new(), headers: Vec::new() }
    }
}

/// One recorded exchange under an endpoint: the request that was sent, the
/// response text and status code, and when it was received (seconds since
/// the Unix epoch).
#[derive(Debug, Clone)]
pub struct Response {
    pub id: u64,
    pub parent_endpoint_id: u64,
    pub request: Request,
    pub text: String,
    pub code: u16,
    pub received_time: i64,
}

/// Mathematical image of a recorded exchange.
#[verifier::ext_equal]
pub ghost struct ResponseView {
    pub id: u64,
    pub parent_endpoint_id: u64,
    pub request: RequestView,
    pub text: Seq<char>,
    pub code: u16,
    pub received_time: i64,
}

impl View for Response {
    type V = ResponseView;

    open spec fn view(&self) -> ResponseView {
        ResponseView {
            id: self.id,
            parent_endpoint_id: self.parent_endpoint_id,
            request: self.request@,
            text: self.text@,
            code: self.code,
            received_time: self.received_time,
        }
    }
}

/// A saved endpoint: its URL, method, and the ordered history of recorded
/// exchanges against it.
#[derive(Debug, Clone)]
pub struct EndpointDb {
    pub id: u64,
    pub url: String,
    pub responses: Vec<Response>,
    pub method: HttpMethod,
}

/// Mathematical image of a saved endpoint.
#[verifier::ext_equal]
pub ghost struct EndpointView {
    pub id: u64,
    pub url: Seq<char>,
    pub responses: Seq<ResponseView>,
    pub method: HttpMethod,
}

impl View for EndpointDb {
    type V = EndpointView;

    open spec fn view(&self) -> EndpointView {
        EndpointView {
            id: self.id,
            url: self.url@,
            responses: Seq::new(self.responses@.len(), |i: int| self.responses@[i]@),
            method: self.method,
        }
    }
}

/// The whole application state the reducer works on.
///
/// At most one of three sources is authoritative for what will be sent
/// next: the draft (no endpoint selected), the copy request (an endpoint
/// selected and an edited duplicate in progress), or the selected
/// endpoint's recorded request.
#[derive(Debug, Clone)]
pub struct State {
    pub can_send: bool,
    pub endpoints: Vec<EndpointDb>,
    pub selected_endpoint: Option<u64>,
    pub draft: String,
    pub copy_request: Option<Request>,
    pub draft_request: Request,
    pub draft_response: Option<(u16, String, i64)>,
    pub draft_method: HttpMethod,
    pub endp_search: String,
    pub selected_response_index: usize,
    pub formatted_response: Option<String>,
    pub error_message: Option<String>,
    pub ctrl_pressed: bool,
}

/// Events on query parameters.
#[derive(Debug, Clone)]
pub enum MQueryParam {
    AddQueryParam(),
    SetQueryParamKey(u64, String),
    SetQueryParamContent(u64, String),
    DeleteQueryParam(u64),
    ToggleQueryParamIsOn(u64),
}

/// Events on headers.
#[derive(Debug, Clone)]
pub enum MHeader {
    AddHeader(),
    SetHeaderKey(u64, String),
    SetHeaderContent(u64, String),
    DeleteHeader(u64),
    ToggleHeaderIsOn(u64),
}

/// Every event the reducer consumes. Responses and reloaded endpoint lists
/// arrive as events too: the outside loop performs the commands the reducer
/// hands out and feeds the results back here.
#[derive(Debug, Clone)]
pub enum Message {
    SetDraft(String),
    Send,
    SendDraft,
    Back,
    RefetchDb,
    GotEndpoints(Vec<EndpointDb>),
    SetSelectedResponseIndex(usize),
    DecrementSelectedResponseIndex,
    IncrementSelectedResponseIndex,
    DecrementSelectedEndpoint,
    IncrementSelectedEndpoint,
    Focus(&'static str),
    ClickEndpoint(u64),
    ClickDeleteEndpoint(u64),
    ClickDeleteResponse(u64),
    ClearErrorMessage,
    SetCtrlPressed(bool),
    GotResponse(String, u16, bool, i64),
    DiscardDraftResponse,
    GotError(MyErr),
    Duplicate(String),
    SetDraftQuery(bool),
    SetSearch(String),
    FormatResponse,
    Start,
    ClickMethod,
    QueryParam(MQueryParam),
    Header(MHeader),
}

/// A side effect the reducer asks the outside loop to perform. The loop
/// performs it and reports back with a `Message`: a finished HTTP call as
/// `GotResponse` or `GotError`, a reload as `GotEndpoints`, a freshly
/// created endpoint as `ClickEndpoint` with the new id followed by
/// `RefetchDb`.
#[derive(Debug, Clone)]
pub enum Command {
    /// Move keyboard focus to the named widget.
    Focus(&'static str),
    /// Perform the HTTP call: url, enabled headers, method, and whether the
    /// result belongs to the draft pane.
    Send { url: String, headers: Vec<(String, String)>, method: HttpMethod, is_draft: bool },
    /// Reload the endpoint list, filtered by the search text.
    Refetch { search: String },
    /// Delete the endpoint and everything under it.
    DeleteEndpoint { id: u64 },
    /// Delete one recorded response and its pairs.
    DeleteResponse { id: u64 },
    /// Overwrite a recorded response's text and status code.
    UpdateResponse { id: u64, text: String, code: u16 },
    /// Record a new response under an existing endpoint, with the given
    /// pairs — toggles included — as its request snapshot.
    CreateResponse {
        parent_endpoint_id: u64,
        text: String,
        code: u16,
        query_params: Vec<EndpointKvPair>,
        headers: Vec<EndpointKvPair>,
    },
    /// Save a brand-new endpoint with its first recorded response.
    CreateEndpoint {
        url: String,
        method: HttpMethod,
        text: String,
        code: u16,
        query_params: Vec<EndpointKvPair>,
        headers: Vec<EndpointKvPair>,
    },
    /// Rename a stored query parameter.
    UpdateQueryParamKey { id: u64, key: String },
    /// Overwrite a stored query parameter's value.
    UpdateQueryParamValue { id: u64, value: String },
    /// Delete a stored query parameter.
    DeleteQueryParam { id: u64 },
    /// Rename a stored header.
    UpdateHeaderKey { id: u64, key: String },
    /// Overwrite a stored header's value.
    UpdateHeaderValue { id: u64, value: String },
    /// Delete a stored header.
    DeleteHeader { id: u64 },
}

} // verus!
