//! JSON-RPC 2.0: reading requests, dispatching them to registered handlers, and
//! writing the responses.
use vstd::prelude::*;
use crate::json::{
    JsonValue, JsonView, Object, entries_view, find_field, get_field, json_parse,
    lemma_get_field_at, lemma_get_field_other_entry, lemma_object_view, push_field,
};
use crate::strmap::{StrMap, sorted_strictly};
use crate::text::{str_eq, str_lt, lemma_str_lt_irreflexive};

verus! {

/// What a handler gives back: a result, or the text of an error.
pub type RpcResult = Result<JsonValue, &'static str>;

/// A handler of a method, boxed so that handlers of different kinds can share a service.
pub type RpcHandle = Box<dyn Fn(&Option<JsonValue>) -> RpcResult>;

/// The kinds of error that JSON-RPC names.
#[derive(Debug, Clone, Copy, PartialEq, Eq, Structural)]
pub enum RpcErrorCode {
    ParseError,
    InvalidRequest,
    MethodNotFound,
    InvalidParams,
    InternalError,
    ServerError,
}

/// An error object: a code, a message and, optionally, more data.
#[derive(Debug)]
pub struct RpcError {
    code: i64,
    message: String,
    data: Option<JsonValue>,
}

/// The mathematical value of an `RpcError`.
pub struct RpcErrorView {
    pub code: i64,
    pub message: Seq<char>,
    pub data: Option<JsonView>,
}

/// The view of an optional value, `null` where there is none.
pub open spec fn or_null(v: Option<JsonView>) -> JsonView {
    match v {
        Some(j) => j,
        None => JsonView::Null,
    }
}

/// The view of an optional id, `null` where there is none.
pub open spec fn id_json(id: Option<i64>) -> JsonView {
    match id {
        Some(n) => JsonView::I64(n),
        None => JsonView::Null,
    }
}

/// The view of an optional value.
pub open spec fn opt_json_view(v: Option<JsonValue>) -> Option<JsonView> {
    match v {
        Some(j) => Some(j@),
        None => None,
    }
}

impl View for RpcError {
    type V = RpcErrorView;

    closed spec fn view(&self) -> RpcErrorView {
        RpcErrorView { code: self.code, message: self.message@, data: opt_json_view(self.data) }
    }
}

/// The JSON object of an error: `code`, `data` (`null` where there is none) and
/// `message`, in key order.
pub open spec fn rpc_error_json(e: RpcErrorView) -> JsonView {
    JsonView::Object(
        seq![
            ("code"@, JsonView::I64(e.code)),
            ("data"@, or_null(e.data)),
            ("message"@, JsonView::Str(e.message)),
        ],
    )
}

fn optional_json(v: &Option<JsonValue>) -> (r: JsonValue)
    ensures
        r@ == or_null(opt_json_view(*v)),
{
    match v {
        Some(j) => j.clone(),
        None => JsonValue::Null,
    }
}

fn optional_id(id: Option<i64>) -> (r: JsonValue)
    ensures
        r@ == id_json(id),
{
    match id {
        Some(n) => JsonValue::I64(n),
        None => JsonValue::Null,
    }
}

impl RpcError {
    /// The error's JSON object.
    pub fn to_json(&self) -> (r: JsonValue)
        ensures
            r@ == rpc_error_json(self@),
    {
        let mut d: Object = Vec::new();
        push_field(&mut d, "code", JsonValue::I64(self.code));
        push_field(&mut d, "data", optional_json(&self.data));
        push_field(&mut d, "message", JsonValue::Str(self.message.clone()));
        proof {
            lemma_object_view(d);
            assert(entries_view(d@) =~= rpc_error_json(self@)->Object_0);
        }
        JsonValue::Object(d)
    }
}

/// A response that carries a result.
#[derive(Debug)]
pub struct SuccessResponse {
    jsonrpc: String,
    result: Option<JsonValue>,
    id: Option<i64>,
}

/// The mathematical value of a `SuccessResponse`.
pub struct SuccessResponseView {
    pub jsonrpc: Seq<char>,
    pub result: Option<JsonView>,
    pub id: Option<i64>,
}

impl View for SuccessResponse {
    type V = SuccessResponseView;

    closed spec fn view(&self) -> SuccessResponseView {
        SuccessResponseView { jsonrpc: self.jsonrpc@, result: opt_json_view(self.result), id: self.id }
    }
}

/// The JSON object of a success: `id`, `jsonrpc` and `result`, in key order, with
/// `null` for a missing id or result.
pub open spec fn success_json(r: SuccessResponseView) -> JsonView {
    JsonView::Object(
        seq![
            ("id"@, id_json(r.id)),
            ("jsonrpc"@, JsonView::Str(r.jsonrpc)),
            ("result"@, or_null(r.result)),
        ],
    )
}

impl SuccessResponse {
    /// The response's JSON object.
    pub fn to_json(&self) -> (r: JsonValue)
        ensures
            r@ == success_json(self@),
    {
        let mut d: Object = Vec::new();
        push_field(&mut d, "id", optional_id(self.id));
        push_field(&mut d, "jsonrpc", JsonValue::Str(self.jsonrpc.clone()));
        push_field(&mut d, "result", optional_json(&self.result));
        proof {
            lemma_object_view(d);
            assert(entries_view(d@) =~= success_json(self@)->Object_0);
        }
        JsonValue::Object(d)
    }
}

/// A response that carries an error.
#[derive(Debug)]
pub struct ErrorResponse {
    jsonrpc: String,
    error: RpcError,
    id: Option<i64>,
}

/// The mathematical value of an `ErrorResponse`.
pub struct ErrorResponseView {
    pub jsonrpc: Seq<char>,
    pub error: RpcErrorView,
    pub id: Option<i64>,
}

impl View for ErrorResponse {
    type V = ErrorResponseView;

    closed spec fn view(&self) -> ErrorResponseView {
        ErrorResponseView { jsonrpc: self.jsonrpc@, error: self.error@, id: self.id }
    }
}

/// The JSON object of an error response: `error`, `id` and `jsonrpc`, in key order.
pub open spec fn error_response_json(r: ErrorResponseView) -> JsonView {
    JsonView::Object(
        seq![
            ("error"@, rpc_error_json(r.error)),
            ("id"@, id_json(r.id)),
            ("jsonrpc"@, JsonView::Str(r.jsonrpc)),
        ],
    )
}

impl ErrorResponse {
    /// The response's JSON object.
    pub fn to_json(&self) -> (r: JsonValue)
        ensures
            r@ == error_response_json(self@),
    {
        let mut d: Object = Vec::new();
        push_field(&mut d, "error", self.error.to_json());
        push_field(&mut d, "id", optional_id(self.id));
        push_field(&mut d, "jsonrpc", JsonValue::Str(self.jsonrpc.clone()));
        proof {
            lemma_object_view(d);
            assert(entries_view(d@) =~= error_response_json(self@)->Object_0);
        }
        JsonValue::Object(d)
    }
}

/// A response: a success or an error.
#[derive(Debug)]
pub enum RpcResponse {
    SuccessResponse(SuccessResponse),
    ErrorResponse(ErrorResponse),
}

/// The mathematical value of an `RpcResponse`.
pub enum RpcResponseView {
    Success(SuccessResponseView),
    Error(ErrorResponseView),
}

impl View for RpcResponse {
    type V = RpcResponseView;

    open spec fn view(&self) -> RpcResponseView {
        match self {
            RpcResponse::SuccessResponse(r) => RpcResponseView::Success(r@),
            RpcResponse::ErrorResponse(r) => RpcResponseView::Error(r@),
        }
    }
}

/// The JSON object of a response.
pub open spec fn rpc_response_json(r: RpcResponseView) -> JsonView {
    match r {
        RpcResponseView::Success(s) => success_json(s),
        RpcResponseView::Error(e) => error_response_json(e),
    }
}

impl RpcResponse {
    /// The response's JSON object.
    pub fn to_json(&self) -> (r: JsonValue)
        ensures
            r@ == rpc_response_json(self@),
    {
        match self {
            RpcResponse::SuccessResponse(r) => r.to_json(),
            RpcResponse::ErrorResponse(r) => r.to_json(),
        }
    }
}

/// A request: the protocol version, the method, its parameters and an id.
#[derive(Debug)]
pub struct RpcRequest {
    jsonrpc: String,
    method: String,
    params: Option<JsonValue>,
    id: Option<i64>,
}

/// The mathematical value of an `RpcRequest`.
pub struct RpcRequestView {
    pub jsonrpc: Seq<char>,
    pub method: Seq<char>,
    pub params: Option<JsonView>,
    pub id: Option<i64>,
}

impl View for RpcRequest {
    type V = RpcRequestView;

    closed spec fn view(&self) -> RpcRequestView {
        RpcRequestView {
            jsonrpc: self.jsonrpc@,
            method: self.method@,
            params: opt_json_view(self.params),
            id: self.id,
        }
    }
}

/// What the `jsonrpc` field gives: the version `2.0`, which the strings `"2.0"` and
/// `"2"` stand for.
pub open spec fn version_of(fields: Seq<(Seq<char>, JsonView)>) -> Result<Seq<char>, RpcErrorCode> {
    match get_field(fields, "jsonrpc"@) {
        Some(JsonView::Str(v)) => if v == "2.0"@ || v == "2"@ {
            Ok("2.0"@)
        } else {
            Err(RpcErrorCode::InvalidRequest)
        },
        _ => Err(RpcErrorCode::InvalidRequest),
    }
}

/// What the `method` field gives: a string.
pub open spec fn method_of(fields: Seq<(Seq<char>, JsonView)>) -> Result<Seq<char>, RpcErrorCode> {
    match get_field(fields, "method"@) {
        Some(JsonView::Str(m)) => Ok(m),
        _ => Err(RpcErrorCode::InvalidRequest),
    }
}

/// What the `params` field gives: an array or object, or `null` for none.
pub open spec fn params_of(fields: Seq<(Seq<char>, JsonView)>) -> Result<Option<JsonView>, RpcErrorCode> {
    match get_field(fields, "params"@) {
        Some(p) => match p {
            JsonView::Array(_) | JsonView::Object(_) => Ok(Some(p)),
            JsonView::Null => Ok(None),
            _ => Err(RpcErrorCode::InvalidParams),
        },
        None => Err(RpcErrorCode::InvalidRequest),
    }
}

/// What the `id` field gives: an integer, or `null` for none.
pub open spec fn id_of(fields: Seq<(Seq<char>, JsonView)>) -> Result<Option<i64>, RpcErrorCode> {
    match get_field(fields, "id"@) {
        Some(JsonView::I64(n)) => Ok(Some(n)),
        Some(JsonView::U64(n)) => Ok(Some(n as i64)),
        Some(JsonView::Null) => Ok(None),
        _ => Err(RpcErrorCode::InvalidRequest),
    }
}

/// The `id` field is an unsigned integer of `i64::MAX` or more, which
/// `rustc_serialize`'s `as_i64` does not turn into an `i64`.
pub open spec fn id_too_large(j: JsonView) -> bool {
    match j {
        JsonView::Object(fields) => match get_field(fields, "id"@) {
            Some(JsonView::U64(n)) => n >= i64::MAX,
            _ => false,
        },
        _ => false,
    }
}

/// The request that a JSON value holds: an object whose four fields all read;
/// `InvalidRequest` for a value that is no object or whose fields do not read, as
/// the JSON-RPC table has it for JSON that is no valid request object.
pub open spec fn parse_request(j: JsonView) -> Result<RpcRequestView, RpcErrorCode> {
    match j {
        JsonView::Object(fields) => {
            let version = version_of(fields);
            let method = method_of(fields);
            let params = params_of(fields);
            let id = id_of(fields);
            if version is Ok && method is Ok && params is Ok && id is Ok {
                Ok(
                    RpcRequestView {
                        jsonrpc: version->Ok_0,
                        method: method->Ok_0,
                        params: params->Ok_0,
                        id: id->Ok_0,
                    },
                )
            } else {
                Err(RpcErrorCode::InvalidRequest)
            }
        },
        _ => Err(RpcErrorCode::InvalidRequest),
    }
}

/// The error object for each kind of error.
pub open spec fn error_for(code: RpcErrorCode) -> RpcErrorView {
    match code {
        RpcErrorCode::ParseError => RpcErrorView { code: -32700i64, message: "Parse error"@, data: None },
        RpcErrorCode::InvalidRequest => RpcErrorView { code: -32600i64, message: "Invalid Request"@, data: None },
        RpcErrorCode::MethodNotFound => RpcErrorView { code: -32601i64, message: "Method not found"@, data: None },
        RpcErrorCode::InvalidParams => RpcErrorView {
            code: -32602i64,
            message: "Invalid method parameter(s)"@,
            data: None,
        },
        RpcErrorCode::InternalError => RpcErrorView { code: -32603i64, message: "Internal error"@, data: None },
        RpcErrorCode::ServerError => RpcErrorView { code: -32000i64, message: "Server error"@, data: None },
    }
}

/// The request that a text holds, or the error that reading it gives: a text that
/// is no JSON is a `ParseError`.
pub open spec fn request_from_rpc_text(text: Seq<char>) -> Result<RpcRequestView, RpcErrorView> {
    match json_parse(text) {
        None => Err(error_for(RpcErrorCode::ParseError)),
        Some(j) => match parse_request(j) {
            Ok(r) => Ok(r),
            Err(c) => Err(error_for(c)),
        },
    }
}

/// The text is JSON whose `id` `rustc_serialize` does not turn into an `i64`.
pub open spec fn text_id_too_large(text: Seq<char>) -> bool {
    match json_parse(text) {
        Some(j) => id_too_large(j),
        None => false,
    }
}

fn error_for_code(code: RpcErrorCode) -> (r: RpcError)
    ensures
        r@ == error_for(code),
{
    match code {
        RpcErrorCode::ParseError => RpcError { code: -32700, message: "Parse error".to_owned(), data: None },
        RpcErrorCode::InvalidRequest => RpcError {
            code: -32600,
            message: "Invalid Request".to_owned(),
            data: None,
        },
        RpcErrorCode::MethodNotFound => RpcError {
            code: -32601,
            message: "Method not found".to_owned(),
            data: None,
        },
        RpcErrorCode::InvalidParams => RpcError {
            code: -32602,
            message: "Invalid method parameter(s)".to_owned(),
            data: None,
        },
        RpcErrorCode::InternalError => RpcError {
            code: -32603,
            message: "Internal error".to_owned(),
            data: None,
        },
        RpcErrorCode::ServerError => RpcError { code: -32000, message: "Server error".to_owned(), data: None },
    }
}

impl RpcRequest {
    /// Reads a request from its text. A text that is no JSON gives the error
    /// `-32700`; JSON that is no object, or an object whose fields do not read,
    /// gives `-32600`.
    pub fn new(jstring: &str) -> (r: Result<RpcRequest, RpcError>)
        requires
            !text_id_too_large(jstring@),
        ensures
            match r {
                Ok(req) => request_from_rpc_text(jstring@) == Ok::<RpcRequestView, RpcErrorView>(req@),
                Err(e) => request_from_rpc_text(jstring@) == Err::<RpcRequestView, RpcErrorView>(e@),
            },
    {
        match JsonValue::from_str(jstring) {
            Some(j) => {
                match RpcRequest::parse(j) {
                    Ok(rpc_request) => Ok(rpc_request),
                    Err(rpc_error_code) => Err(error_for_code(rpc_error_code)),
                }
            },
            None => Err(error_for_code(RpcErrorCode::ParseError)),
        }
    }

    /// Reads a request from its text as `new` does; `None` on the texts on which
    /// `new` has no answer, those whose `id` is an unsigned integer of `i64::MAX`
    /// or more.
    pub fn new_checked(jstring: &str) -> (r: Option<Result<RpcRequest, RpcError>>)
        ensures
            match r {
                None => text_id_too_large(jstring@),
                Some(Ok(req)) => !text_id_too_large(jstring@) && request_from_rpc_text(jstring@) == Ok::<
                    RpcRequestView,
                    RpcErrorView,
                >(req@),
                Some(Err(e)) => !text_id_too_large(jstring@) && request_from_rpc_text(jstring@) == Err::<
                    RpcRequestView,
                    RpcErrorView,
                >(e@),
            },
    {
        match JsonValue::from_str(jstring) {
            Some(j) => {
                if id_is_too_large(&j) {
                    return None;
                }
            },
            None => {},
        }
        Some(RpcRequest::new(jstring))
    }

    /// Reads a request from a JSON value; `InvalidRequest` for a value that is no
    /// object, or an object whose fields do not read.
    pub fn parse(j: JsonValue) -> (r: Result<RpcRequest, RpcErrorCode>)
        requires
            !id_too_large(j@),
        ensures
            match r {
                Ok(req) => parse_request(j@) == Ok::<RpcRequestView, RpcErrorCode>(req@),
                Err(c) => parse_request(j@) == Err::<RpcRequestView, RpcErrorCode>(c),
            },
    {
        let obj = match &j {
            JsonValue::Object(obj) => obj,
            _ => {
                return Err(RpcErrorCode::InvalidRequest);
            },
        };
        proof {
            lemma_object_view(*obj);
        }
        let version = RpcRequest::_parse_version(obj);
        let method = RpcRequest::_parse_method(obj);
        let params = RpcRequest::_parse_params(obj);
        let id = RpcRequest::_parse_id(obj);
        match (version, method, params, id) {
            (Ok(jsonrpc), Ok(method), Ok(params), Ok(id)) => Ok(RpcRequest { jsonrpc, method, params, id }),
            _ => Err(RpcErrorCode::InvalidRequest),
        }
    }

    fn _parse_version(obj: &Object) -> (r: Result<String, RpcErrorCode>)
        ensures
            match r {
                Ok(v) => version_of(entries_view(obj@)) == Ok::<Seq<char>, RpcErrorCode>(v@),
                Err(c) => version_of(entries_view(obj@)) == Err::<Seq<char>, RpcErrorCode>(c),
            },
    {
        match find_field(obj, "jsonrpc") {
            Some(JsonValue::Str(version)) => {
                if str_eq(version.as_str(), "2.0") || str_eq(version.as_str(), "2") {
                    Ok("2.0".to_owned())
                } else {
                    Err(RpcErrorCode::InvalidRequest)
                }
            },
            _ => Err(RpcErrorCode::InvalidRequest),
        }
    }

    fn _parse_method(obj: &Object) -> (r: Result<String, RpcErrorCode>)
        ensures
            match r {
                Ok(m) => method_of(entries_view(obj@)) == Ok::<Seq<char>, RpcErrorCode>(m@),
                Err(c) => method_of(entries_view(obj@)) == Err::<Seq<char>, RpcErrorCode>(c),
            },
    {
        match find_field(obj, "method") {
            Some(JsonValue::Str(m)) => Ok(m.clone()),
            _ => Err(RpcErrorCode::InvalidRequest),
        }
    }

    fn _parse_params(obj: &Object) -> (r: Result<Option<JsonValue>, RpcErrorCode>)
        ensures
            match r {
                Ok(p) => params_of(entries_view(obj@)) == Ok::<Option<JsonView>, RpcErrorCode>(opt_json_view(p)),
                Err(c) => params_of(entries_view(obj@)) == Err::<Option<JsonView>, RpcErrorCode>(c),
            },
    {
        match find_field(obj, "params") {
            Some(p) => match p {
                JsonValue::Array(_) | JsonValue::Object(_) => Ok(Some(p.clone())),
                JsonValue::Null => Ok(None),
                _ => Err(RpcErrorCode::InvalidParams),
            },
            None => Err(RpcErrorCode::InvalidRequest),
        }
    }

    fn _parse_id(obj: &Object) -> (r: Result<Option<i64>, RpcErrorCode>)
        requires
            !id_too_large(JsonView::Object(entries_view(obj@))),
        ensures
            match r {
                Ok(i) => id_of(entries_view(obj@)) == Ok::<Option<i64>, RpcErrorCode>(i),
                Err(c) => id_of(entries_view(obj@)) == Err::<Option<i64>, RpcErrorCode>(c),
            },
    {
        match find_field(obj, "id") {
            Some(JsonValue::I64(n)) => Ok(Some(*n)),
            Some(JsonValue::U64(n)) => Ok(Some(*n as i64)),
            Some(JsonValue::Null) => Ok(None),
            _ => Err(RpcErrorCode::InvalidRequest),
        }
    }
}

/// What a handler gave back, by its views.
pub open spec fn outcome_view(out: RpcResult) -> Result<JsonView, Seq<char>> {
    match out {
        Ok(j) => Ok(j@),
        Err(e) => Err(e@),
    }
}

/// The response to a request, where `outcome` is what its method's handler gave
/// back, and `None` where no handler is registered for the method. The response
/// carries the request's version and id; a handler's error text becomes an error
/// `-32603`, and a method without a handler the error `-32601`.
pub open spec fn response_to(req: RpcRequestView, outcome: Option<Result<JsonView, Seq<char>>>) -> RpcResponseView {
    match outcome {
        Some(Ok(result)) => RpcResponseView::Success(
            SuccessResponseView { jsonrpc: req.jsonrpc, result: Some(result), id: req.id },
        ),
        Some(Err(message)) => RpcResponseView::Error(
            ErrorResponseView {
                jsonrpc: req.jsonrpc,
                error: RpcErrorView { code: -32603i64, message, data: None },
                id: req.id,
            },
        ),
        None => RpcResponseView::Error(
            ErrorResponseView { jsonrpc: req.jsonrpc, error: error_for(RpcErrorCode::MethodNotFound), id: req.id },
        ),
    }
}

impl RpcRequest {
    /// The request's parameters, as the handler of its method is given them.
    pub closed spec fn spec_params(&self) -> Option<JsonValue> {
        self.params
    }
}

/// The parameters a handler is given are the request's parameters.
pub proof fn lemma_handler_gets_params(request: RpcRequest)
    ensures
        opt_json_view(request.spec_params()) == request@.params,
{
}

/// The response to `request`, where `outcome` is what the handler of its method gave
/// back, and `None` where there is no handler.
pub fn respond(request: &RpcRequest, outcome: Option<RpcResult>) -> (r: RpcResponse)
    ensures
        r@ == response_to(
            request@,
            match outcome {
                Some(out) => Some(outcome_view(out)),
                None => None,
            },
        ),
{
    match outcome {
        Some(Ok(rpc_result)) => RpcResponse::SuccessResponse(
            SuccessResponse { jsonrpc: request.jsonrpc.clone(), result: Some(rpc_result), id: request.id },
        ),
        Some(Err(e)) => RpcResponse::ErrorResponse(
            ErrorResponse {
                jsonrpc: request.jsonrpc.clone(),
                error: RpcError { code: -32603, message: e.to_owned(), data: None },
                id: request.id,
            },
        ),
        None => RpcResponse::ErrorResponse(
            ErrorResponse {
                jsonrpc: request.jsonrpc.clone(),
                error: error_for_code(RpcErrorCode::MethodNotFound),
                id: request.id,
            },
        ),
    }
}

/// A handler may be called on any parameters.
pub open spec fn handler_total<H: Fn(&Option<JsonValue>) -> RpcResult>(h: H) -> bool {
    forall|p: &Option<JsonValue>| #[trigger] call_requires(h, (p,))
}

/// The methods of a JSON-RPC service, each with its handler.
pub struct JsonRpc<H: Fn(&Option<JsonValue>) -> RpcResult> {
    methods: StrMap<H>,
}

impl<H: Fn(&Option<JsonValue>) -> RpcResult> View for JsonRpc<H> {
    type V = Map<Seq<char>, H>;

    closed spec fn view(&self) -> Map<Seq<char>, H> {
        self.methods@
    }
}

impl<H: Fn(&Option<JsonValue>) -> RpcResult> JsonRpc<H> {
    #[verifier::type_invariant]
    closed spec fn handlers_total(&self) -> bool {
        forall|k: Seq<char>| #[trigger] self.methods@.contains_key(k) ==> handler_total(self.methods@[k])
    }

    /// The methods in the order in which the service keeps them: the order of strings.
    pub closed spec fn method_order(&self) -> Seq<Seq<char>> {
        self.methods.key_seq()
    }

    /// A service without methods.
    pub fn new() -> (r: JsonRpc<H>)
        ensures
            r@ == Map::<Seq<char>, H>::empty(),
            r.method_order() == Seq::<Seq<char>>::empty(),
    {
        JsonRpc { methods: StrMap::new() }
    }

    /// Registers `handle` for `method`, in place of any handler it had.
    pub fn register(&mut self, method: &str, handle: H)
        requires
            handler_total(handle),
        ensures
            final(self)@ == old(self)@.insert(method@, handle),
            sorted_strictly(final(self).method_order()),
            forall|k: Seq<char>| final(self)@.contains_key(k) <==> final(self).method_order().contains(k),
    {
        proof {
            use_type_invariant(&*self);
        }
        let mut methods: StrMap<H> = StrMap::new();
        std::mem::swap(&mut methods, &mut self.methods);
        let _ = methods.insert(method.to_owned(), handle);
        self.methods = methods;
    }

    /// The methods with their handlers.
    pub fn methods(&self) -> (r: &StrMap<H>)
        ensures
            r@ == self@,
            r.key_seq() == self.method_order(),
    {
        &self.methods
    }

    /// Answers a request: calls the handler of its method on its parameters, or
    /// answers `-32601` where the method has none.
    pub fn call(&self, request: &RpcRequest) -> (r: RpcResponse)
        ensures
            opt_json_view(request.spec_params()) == request@.params,
            !self@.contains_key(request@.method) ==> r@ == response_to(request@, None),
            self@.contains_key(request@.method) ==> exists|out: RpcResult|
                call_ensures(self@[request@.method], (&request.spec_params(),), out)
                    && r@ == response_to(request@, Some(outcome_view(out))),
    {
        proof {
            use_type_invariant(self);
        }
        match self.methods.get(request.method.as_str()) {
            Some(func) => {
                let out = func(&request.params);
                respond(request, Some(out))
            },
            None => respond(request, None),
        }
    }
}

/// Every response to a request carries the request's version and id, whatever the
/// handler gave back.
pub proof fn lemma_response_echoes_request(req: RpcRequestView, outcome: Option<Result<JsonView, Seq<char>>>)
    ensures
        match response_to(req, outcome) {
            RpcResponseView::Success(s) => s.jsonrpc == req.jsonrpc && s.id == req.id,
            RpcResponseView::Error(e) => e.jsonrpc == req.jsonrpc && e.id == req.id,
        },
{
}

/// Once `handle` is registered for `method`, a call of `method` goes to `handle`,
/// and every other method keeps the handler it had, or stays without one.
pub proof fn lemma_register_then_call<H>(
    before: Map<Seq<char>, H>,
    after: Map<Seq<char>, H>,
    method: Seq<char>,
    handle: H,
)
    requires
        after == before.insert(method, handle),
    ensures
        after.contains_key(method),
        after[method] == handle,
        forall|m: Seq<char>|
            m != method ==> (#[trigger] after.contains_key(m) <==> before.contains_key(m)),
        forall|m: Seq<char>| m != method && before.contains_key(m) ==> #[trigger] after[m] == before[m],
{
}

/// The methods after registering `handles[i]` for `names[i]`, one after another,
/// on a service without methods.
pub open spec fn registered<H>(names: Seq<Seq<char>>, handles: Seq<H>) -> Map<Seq<char>, H>
    decreases names.len(),
{
    if names.len() == 0 || handles.len() != names.len() {
        Map::empty()
    } else {
        registered(names.drop_last(), handles.drop_last()).insert(names.last(), handles.last())
    }
}

proof fn lemma_registered<H>(names: Seq<Seq<char>>, handles: Seq<H>)
    requires
        names.len() == handles.len(),
    ensures
        forall|k: Seq<char>| #[trigger] registered(names, handles).contains_key(k) <==> names.contains(k),
        forall|i: int|
            0 <= i < names.len() && (forall|j: int| i < j < names.len() ==> names[j] != names[i])
                ==> #[trigger] registered(names, handles)[names[i]] == handles[i],
    decreases names.len(),
{
    if names.len() > 0 {
        let n = names.drop_last();
        let h = handles.drop_last();
        lemma_registered(n, h);
        let m = registered(names, handles);
        assert(m == registered(n, h).insert(names.last(), handles.last()));
        assert forall|k: Seq<char>| #[trigger] m.contains_key(k) <==> names.contains(k) by {
            if names.contains(k) && k != names.last() {
                let i = choose|i: int| 0 <= i < names.len() && names[i] == k;
                assert(n[i] == k);
            }
            if n.contains(k) {
                let i = choose|i: int| 0 <= i < n.len() && n[i] == k;
                assert(names[i] == k);
            }
        }
        assert forall|i: int|
            0 <= i < names.len() && (forall|j: int| i < j < names.len() ==> names[j] != names[i]) implies
                #[trigger] m[names[i]] == handles[i] by {
            if i < names.len() - 1 {
                assert(names[names.len() - 1] != names[i]);
                assert(n[i] == names[i]);
                assert forall|j: int| i < j < n.len() implies n[j] != n[i] by {
                    assert(names[j] != names[i]);
                }
            }
        }
    }
}

/// A request object whose version, method and id read is read with the parameters
/// it holds: an array or an object as it stands, `null` as none; parameters of any
/// other kind, or none at all, make it an invalid request.
pub proof fn lemma_request_params(fields: Seq<(Seq<char>, JsonView)>, method: Seq<char>, id: i64)
    requires
        get_field(fields, "jsonrpc"@) == Some(JsonView::Str("2.0"@)),
        get_field(fields, "method"@) == Some(JsonView::Str(method)),
        get_field(fields, "id"@) == Some(JsonView::I64(id)),
    ensures
        get_field(fields, "params"@) matches Some(p) && (p is Array || p is Object) ==> parse_request(
            JsonView::Object(fields),
        ) == Ok::<RpcRequestView, RpcErrorCode>(
            RpcRequestView { jsonrpc: "2.0"@, method, params: Some(get_field(fields, "params"@).unwrap()), id: Some(id) },
        ),
        get_field(fields, "params"@) == Some(JsonView::Null) ==> parse_request(JsonView::Object(fields)) == Ok::<
            RpcRequestView,
            RpcErrorCode,
        >(RpcRequestView { jsonrpc: "2.0"@, method, params: None, id: Some(id) }),
        get_field(fields, "params"@) matches Some(p) && !(p is Array || p is Object || p is Null) ==> parse_request(
            JsonView::Object(fields),
        ) == Err::<RpcRequestView, RpcErrorCode>(RpcErrorCode::InvalidRequest),
        get_field(fields, "params"@) is None ==> parse_request(JsonView::Object(fields)) == Err::<
            RpcRequestView,
            RpcErrorCode,
        >(RpcErrorCode::InvalidRequest),
{
}

/// What a handler gives back decides the response, which keeps the request's
/// version and id: a value `v` gives a success whose result is `v` itself, of
/// whatever kind, and whose JSON holds `v` under `result`; an error text gives the
/// error `-32603` with that text; a method without a handler gives `-32601`.
pub proof fn lemma_response_to_outcome(req: RpcRequestView, outcome: Option<Result<JsonView, Seq<char>>>)
    ensures
        outcome matches Some(Ok(v)) ==> {
            &&& response_to(req, outcome) == RpcResponseView::Success(
                SuccessResponseView { jsonrpc: req.jsonrpc, result: Some(v), id: req.id },
            )
            &&& rpc_response_json(response_to(req, outcome)) is Object
            &&& get_field(rpc_response_json(response_to(req, outcome))->Object_0, "result"@) == Some(v)
        },
        outcome matches Some(Err(m)) ==> response_to(req, outcome) == RpcResponseView::Error(
            ErrorResponseView {
                jsonrpc: req.jsonrpc,
                error: RpcErrorView { code: -32603i64, message: m, data: None },
                id: req.id,
            },
        ),
        outcome is None ==> response_to(req, outcome) == RpcResponseView::Error(
            ErrorResponseView {
                jsonrpc: req.jsonrpc,
                error: RpcErrorView { code: -32601i64, message: "Method not found"@, data: None },
                id: req.id,
            },
        ),
{
    if let Some(Ok(v)) = outcome {
        reveal_strlit("id");
        reveal_strlit("jsonrpc");
        reveal_strlit("result");
        let f = rpc_response_json(response_to(req, outcome))->Object_0;
        assert(f[2].0 == "result"@);
        lemma_get_field_at(f, 2);
    }
}

/// The fields of the JSON objects that responses and errors are written as: an
/// error holds its code, message and data (`null` where there is none); a success
/// holds its id, version and result (`null` where there is none); an error
/// response holds its error's object, its id and its version.
pub proof fn lemma_response_json_fields(s: SuccessResponseView, e: ErrorResponseView, err: RpcErrorView)
    ensures
        rpc_error_json(err) is Object,
        get_field(rpc_error_json(err)->Object_0, "code"@) == Some(JsonView::I64(err.code)),
        get_field(rpc_error_json(err)->Object_0, "message"@) == Some(JsonView::Str(err.message)),
        get_field(rpc_error_json(err)->Object_0, "data"@) == Some(
            match err.data {
                Some(d) => d,
                None => JsonView::Null,
            },
        ),
        success_json(s) is Object,
        get_field(success_json(s)->Object_0, "id"@) == Some(
            match s.id {
                Some(n) => JsonView::I64(n),
                None => JsonView::Null,
            },
        ),
        get_field(success_json(s)->Object_0, "jsonrpc"@) == Some(JsonView::Str(s.jsonrpc)),
        get_field(success_json(s)->Object_0, "result"@) == Some(
            match s.result {
                Some(v) => v,
                None => JsonView::Null,
            },
        ),
        get_field(success_json(s)->Object_0, "error"@) is None,
        error_response_json(e) is Object,
        get_field(error_response_json(e)->Object_0, "error"@) == Some(rpc_error_json(e.error)),
        get_field(error_response_json(e)->Object_0, "id"@) == Some(
            match e.id {
                Some(n) => JsonView::I64(n),
                None => JsonView::Null,
            },
        ),
        get_field(error_response_json(e)->Object_0, "jsonrpc"@) == Some(JsonView::Str(e.jsonrpc)),
        get_field(error_response_json(e)->Object_0, "result"@) is None,
{
    reveal_strlit("code");
    reveal_strlit("data");
    reveal_strlit("message");
    reveal_strlit("id");
    reveal_strlit("jsonrpc");
    reveal_strlit("result");
    reveal_strlit("error");
    assert("code"@[0] == 'c' && "data"@[0] == 'd' && "message"@[0] == 'm');
    assert("id"@[0] == 'i' && "jsonrpc"@[0] == 'j' && "result"@[0] == 'r' && "error"@[0] == 'e');
    let f = rpc_error_json(err)->Object_0;
    lemma_get_field_at(f, 0);
    lemma_get_field_at(f, 1);
    lemma_get_field_at(f, 2);
    let g = success_json(s)->Object_0;
    lemma_get_field_at(g, 0);
    lemma_get_field_at(g, 1);
    lemma_get_field_at(g, 2);
    assert forall|i: int| 0 <= i < g.len() implies g[i].0 != "error"@ by {
        assert(g[i].0[0] != "error"@[0]);
    }
    let h = error_response_json(e)->Object_0;
    lemma_get_field_at(h, 0);
    lemma_get_field_at(h, 1);
    lemma_get_field_at(h, 2);
    assert forall|i: int| 0 <= i < h.len() implies h[i].0 != "result"@ by {
        assert(h[i].0[0] != "result"@[0]);
    }
}

/// One more registration adds its name and handler to what the earlier ones made.
pub proof fn lemma_register_step<H>(names: Seq<Seq<char>>, handles: Seq<H>, name: Seq<char>, handle: H)
    requires
        names.len() == handles.len(),
    ensures
        registered(names.push(name), handles.push(handle)) == registered(names, handles).insert(name, handle),
{
    assert(names.push(name).drop_last() =~= names);
    assert(handles.push(handle).drop_last() =~= handles);
}

/// A field other than `jsonrpc`, `method`, `params` and `id` changes nothing of what
/// a request object reads as, wherever it stands.
pub proof fn lemma_parse_ignores_other_fields(
    fields: Seq<(Seq<char>, JsonView)>,
    p: int,
    key: Seq<char>,
    value: JsonView,
)
    requires
        0 <= p <= fields.len(),
        key != "jsonrpc"@,
        key != "method"@,
        key != "params"@,
        key != "id"@,
    ensures
        parse_request(JsonView::Object(fields.insert(p, (key, value)))) == parse_request(JsonView::Object(fields)),
        id_too_large(JsonView::Object(fields.insert(p, (key, value)))) == id_too_large(JsonView::Object(fields)),
{
    lemma_get_field_other_entry(fields, p, (key, value), "jsonrpc"@);
    lemma_get_field_other_entry(fields, p, (key, value), "method"@);
    lemma_get_field_other_entry(fields, p, (key, value), "params"@);
    lemma_get_field_other_entry(fields, p, (key, value), "id"@);
}

/// After a series of registrations on a service without methods, the service's
/// methods are the names registered, each once, in string order; each name has
/// the handler of its last registration.
pub proof fn lemma_registration_order<H>(
    names: Seq<Seq<char>>,
    handles: Seq<H>,
    methods: Map<Seq<char>, H>,
    order: Seq<Seq<char>>,
)
    requires
        names.len() == handles.len(),
        methods == registered(names, handles),
        sorted_strictly(order),
        forall|k: Seq<char>| methods.contains_key(k) <==> order.contains(k),
    ensures
        forall|k: Seq<char>| #[trigger] order.contains(k) <==> names.contains(k),
        forall|i: int, j: int| 0 <= i < j < order.len() ==> str_lt(#[trigger] order[i], #[trigger] order[j]),
        forall|i: int, j: int| 0 <= i < order.len() && 0 <= j < order.len() && i != j ==> #[trigger] order[i] != #[trigger] order[j],
        forall|i: int|
            0 <= i < names.len() && (forall|j: int| i < j < names.len() ==> names[j] != names[i])
                ==> #[trigger] methods[names[i]] == handles[i],
{
    lemma_registered(names, handles);
    assert forall|k: Seq<char>| #[trigger] order.contains(k) <==> names.contains(k) by {
        assert(methods.contains_key(k) <==> names.contains(k));
    }
    assert forall|i: int, j: int| 0 <= i < order.len() && 0 <= j < order.len() && i != j implies #[trigger] order[i]
        != #[trigger] order[j] by {
        lemma_str_lt_irreflexive(order[i]);
        if i < j {
            assert(str_lt(order[i], order[j]));
        } else {
            assert(str_lt(order[j], order[i]));
        }
    }
}

/// Whether a value's `id` is an unsigned integer of `i64::MAX` or more: the values
/// that `RpcRequest::parse` does not take.
pub fn id_is_too_large(j: &JsonValue) -> (r: bool)
    ensures
        r == id_too_large(j@),
{
    match j.get("id") {
        Some(JsonValue::U64(n)) => *n >= 9223372036854775807u64,
        _ => false,
    }
}

} // verus!
