//! Forwarding one request: classification of its method, the header fields
//! injected on the way to the target, the request that goes out, and what
//! is made of the answer or of a transport failure.

use crate::fields::Fields;
use crate::headers::{
    accepts_text, carries, forward_fields, forwarded, lemma_forwarded_names, log_fields, logged,
    relay_fields, relayed, valid_value, is_value_char,
};
use crate::logs::{LogEntry, LogEntryView, ResponseLog, ResponseLogView};
use crate::text::{decimal, push_decimal, digit_char};
use vstd::prelude::*;
use vstd::utf8::encode_utf8;

verus! {

/// A request as it came in: method, path with query, header fields in the
/// order received, and the whole body.
#[derive(Debug)]
pub struct InboundRequest {
    pub method: String,
    pub uri: String,
    pub headers: Vec<(String, Vec<u8>)>,
    pub body: Vec<u8>,
}

/// The request that goes out to the target.
#[derive(Debug)]
pub struct ForwardRequest {
    pub method: String,
    pub url: String,
    pub headers: Fields,
    pub body: Vec<u8>,
}

/// The model of a [`ForwardRequest`].
pub struct ForwardRequestView {
    pub method: Seq<char>,
    pub url: Seq<char>,
    pub headers: Map<Seq<char>, Seq<char>>,
    pub body: Seq<u8>,
}

impl DeepView for ForwardRequest {
    type V = ForwardRequestView;

    open spec fn deep_view(&self) -> ForwardRequestView {
        ForwardRequestView {
            method: self.method@,
            url: self.url@,
            headers: self.headers@,
            body: self.body@,
        }
    }
}

/// What the target answered: status, header fields in order, whole body.
#[derive(Debug)]
pub struct TargetResponse {
    pub status: u16,
    pub headers: Vec<(String, Vec<u8>)>,
    pub body: Vec<u8>,
}

/// The target could not be reached or did not answer.
#[derive(Debug)]
pub struct ProxyTransportError {
    /// What the transport said went wrong.
    pub cause: String,
}

/// What the client is answered.
#[derive(Debug)]
pub struct ClientResponse {
    pub status: u16,
    pub headers: Vec<(String, Vec<u8>)>,
    pub body: Vec<u8>,
}

/// The model of a [`ClientResponse`].
pub struct ClientResponseView {
    pub status: u16,
    pub headers: Seq<(Seq<char>, Seq<u8>)>,
    pub body: Seq<u8>,
}

impl DeepView for ClientResponse {
    type V = ClientResponseView;

    open spec fn deep_view(&self) -> ClientResponseView {
        ClientResponseView {
            status: self.status,
            headers: self.headers.deep_view(),
            body: self.body@,
        }
    }
}

/// The status answered when the target could not be reached.
pub const BAD_GATEWAY: u16 = 502;

/// The text that `String::from_utf8_lossy` makes of `bytes`.
pub uninterp spec fn lossy_text(bytes: Seq<u8>) -> Seq<char>;

/// `String::from_utf8_lossy`, owned: the bytes as text, with each run of
/// bytes that is not UTF-8 replaced. It never fails.
#[verifier::external_body]
pub(crate) fn decode_lossy(bytes: &[u8]) -> (text: String)
    ensures
        text@ == lossy_text(bytes@),
{
    String::from_utf8_lossy(bytes).into_owned()
}

/// A lower-case hexadecimal digit.
pub open spec fn is_lower_hex(c: char) -> bool {
    48 <= c as u32 <= 57 || 97 <= c as u32 <= 102
}

/// `id` has the form of a request identifier: 32 lower-case hexadecimal
/// digits in groups of 8, 4, 4, 4 and 12 with a hyphen between groups.
pub open spec fn is_request_id(id: Seq<char>) -> bool {
    &&& id.len() == 36
    &&& forall|i: int|
        0 <= i < 36 ==> if i == 8 || i == 13 || i == 18 || i == 23 {
            #[trigger] id[i] == '-'
        } else {
            is_lower_hex(id[i])
        }
}

/// `uuid::Uuid::new_v4`, formatted with `to_string`: a random identifier in
/// the hyphenated lower-case form. That no identifier comes twice is the
/// crate's business and is not stated here.
#[verifier::external_body]
pub(crate) fn fresh_request_id() -> (id: String)
    ensures
        is_request_id(id@),
{
    uuid::Uuid::new_v4().to_string()
}

/// The name of the header that carries the client's identity to the target.
pub open spec fn address_header() -> Seq<char> {
    "x-address"@
}

/// The name of the header that tells the target where to report context.
pub open spec fn callback_header() -> Seq<char> {
    "x-callback-url"@
}

/// A request is queued if its method is one of the mutating methods `POST`,
/// `PUT`, `PATCH` and `DELETE`, spelled in upper case. Nothing is deferred:
/// a queued request differs from another only in the callback header it is
/// given.
pub open spec fn is_queued(method: Seq<char>) -> bool {
    ||| method == "POST"@
    ||| method == "PUT"@
    ||| method == "PATCH"@
    ||| method == "DELETE"@
}

/// Where a request for `uri` goes on the target.
pub open spec fn target_url(port: u16, uri: Seq<char>) -> Seq<char> {
    "http://localhost:"@ + decimal(port as nat) + uri
}

/// Where the target reports context for the request `request_id`. The path
/// has no underscore before `chopin`, unlike the proxy's own routes.
pub open spec fn callback_url(port: u16, request_id: Seq<char>) -> Seq<char> {
    "http://localhost:"@ + decimal(port as nat) + "/chopin/report-context?requestId="@
        + request_id
}

/// The callback URL given to a request, if it is given one.
pub open spec fn callback_for(method: Seq<char>, port: u16, request_id: Seq<char>) -> Option<
    Seq<char>,
> {
    if is_queued(method) {
        Some(callback_url(port, request_id))
    } else {
        None
    }
}

/// `fields` with `value` set under `name`, where there is a value and the
/// HTTP layer accepts it; `fields` as they are otherwise.
pub open spec fn with_field(
    fields: Map<Seq<char>, Seq<char>>,
    name: Seq<char>,
    value: Option<Seq<char>>,
) -> Map<Seq<char>, Seq<char>> {
    match value {
        Some(text) => if valid_value(text) {
            fields.insert(name, text)
        } else {
            fields
        },
        None => fields,
    }
}

/// `fields` with the identity and the callback URL injected.
pub open spec fn injected(
    fields: Map<Seq<char>, Seq<char>>,
    identity: Option<Seq<char>>,
    callback: Option<Seq<char>>,
) -> Map<Seq<char>, Seq<char>> {
    with_field(with_field(fields, address_header(), identity), callback_header(), callback)
}

/// The request that goes out for a request that came in.
pub open spec fn forward_view(
    target_port: u16,
    proxy_port: u16,
    method: Seq<char>,
    uri: Seq<char>,
    headers: Seq<(Seq<char>, Seq<u8>)>,
    body: Seq<u8>,
    identity: Option<Seq<char>>,
    request_id: Seq<char>,
) -> ForwardRequestView {
    ForwardRequestView {
        method,
        url: target_url(target_port, uri),
        headers: injected(
            forwarded(headers),
            identity,
            callback_for(method, proxy_port, request_id),
        ),
        body,
    }
}

/// The log entry opened for a request that came in at `now`.
pub open spec fn opened_view(
    method: Seq<char>,
    uri: Seq<char>,
    headers: Seq<(Seq<char>, Seq<u8>)>,
    body: Seq<u8>,
    request_id: Seq<char>,
    now: i64,
) -> LogEntryView {
    LogEntryView {
        request_id,
        method,
        url: uri,
        headers: logged(headers),
        body: Some(lossy_text(body)),
        timestamp: now,
        response: None,
        contexts: None,
    }
}

/// What is logged of an answer.
pub open spec fn response_view(
    status: u16,
    headers: Seq<(Seq<char>, Seq<u8>)>,
    body: Seq<u8>,
) -> ResponseLogView {
    ResponseLogView { status, headers: logged(headers), body: Some(lossy_text(body)) }
}

/// What the client is answered when the target answered: the target's
/// status and body, and those of its header fields that the HTTP layer
/// accepts.
pub open spec fn relay_view(
    status: u16,
    headers: Seq<(Seq<char>, Seq<u8>)>,
    body: Seq<u8>,
) -> ClientResponseView {
    ClientResponseView { status, headers: relayed(headers), body }
}

/// What the client is answered when the target could not be reached: a
/// gateway error without header fields, with the cause in plain text.
pub open spec fn failure_view(cause: Seq<char>) -> ClientResponseView {
    ClientResponseView {
        status: BAD_GATEWAY,
        headers: Seq::empty(),
        body: encode_utf8("Proxy error: "@ + cause),
    }
}

/// The one-line summary of a completed transaction.
pub open spec fn notice_text(method: Seq<char>, uri: Seq<char>, status: u16) -> Seq<char> {
    method + " "@ + uri + " -> "@ + decimal(status as nat)
}

/// Whether a request with this method is queued.
pub fn queued(method: &String) -> (yes: bool)
    ensures
        yes == is_queued(method@),
{
    *method == String::from_str("POST") || *method == String::from_str("PUT") || *method
        == String::from_str("PATCH") || *method == String::from_str("DELETE")
}

/// Builds the URL on the target for `uri`.
pub fn make_target_url(port: u16, uri: &str) -> (url: String)
    ensures
        url@ == target_url(port, uri@),
{
    let mut url = String::from_str("http://localhost:");
    push_decimal(&mut url, port as u64);
    url.append(uri);
    url
}

/// Builds the URL on which the target reports context for `request_id`.
pub fn make_callback_url(port: u16, request_id: &str) -> (url: String)
    ensures
        url@ == callback_url(port, request_id@),
{
    let mut url = String::from_str("http://localhost:");
    push_decimal(&mut url, port as u64);
    url.append("/chopin/report-context?requestId=");
    url.append(request_id);
    url
}

/// Sets `value` under `name` where there is a value and the HTTP layer
/// accepts it. A value that it refuses is dropped without a trace.
pub fn set_field(fields: &mut Fields, name: &str, value: Option<String>)
    ensures
        final(fields)@ == with_field(old(fields)@, name@, value.deep_view()),
{
    match value {
        Some(text) => {
            if accepts_text(text.as_str()) {
                fields.insert(String::from_str(name), text);
            }
        },
        None => {},
    }
}

/// Builds the request that goes out to the target: same method, path with
/// query on the target, the header fields that the HTTP layer accepts, the
/// client's identity where it has one, the callback URL where the request
/// is queued, and the same body.
pub fn build_forward(
    target_port: u16,
    proxy_port: u16,
    request: &InboundRequest,
    identity: Option<String>,
    request_id: &str,
) -> (forward: ForwardRequest)
    ensures
        forward.deep_view() == forward_view(
            target_port,
            proxy_port,
            request.method@,
            request.uri@,
            request.headers.deep_view(),
            request.body@,
            identity.deep_view(),
            request_id@,
        ),
{
    let mut headers = forward_fields(&request.headers);
    set_field(&mut headers, "x-address", identity);
    let callback = if queued(&request.method) {
        Some(make_callback_url(proxy_port, request_id))
    } else {
        None
    };
    set_field(&mut headers, "x-callback-url", callback);
    let body = request.body.clone();
    assert(body@ =~= request.body@);
    ForwardRequest {
        method: request.method.clone(),
        url: make_target_url(target_port, request.uri.as_str()),
        headers,
        body,
    }
}

/// Opens the log entry of a request: what came in, no answer yet, no
/// context.
pub fn open_entry(request: &InboundRequest, request_id: String, now: i64) -> (entry: LogEntry)
    ensures
        entry.deep_view() == opened_view(
            request.method@,
            request.uri@,
            request.headers.deep_view(),
            request.body@,
            request_id@,
            now,
        ),
{
    LogEntry {
        request_id,
        method: request.method.clone(),
        url: request.uri.clone(),
        headers: log_fields(&request.headers),
        body: Some(decode_lossy(request.body.as_slice())),
        timestamp: now,
        response: None,
        contexts: None,
    }
}

/// Closes the log entry of a request with the target's answer.
pub fn close_entry(entry: LogEntry, response: &TargetResponse) -> (closed: LogEntry)
    ensures
        closed.deep_view() == (LogEntryView {
            response: Some(
                response_view(response.status, response.headers.deep_view(), response.body@),
            ),
            ..entry.deep_view()
        }),
{
    let mut closed = entry;
    closed.response = Some(
        ResponseLog {
            status: response.status,
            headers: log_fields(&response.headers),
            body: Some(decode_lossy(response.body.as_slice())),
        },
    );
    closed
}

/// The answer for the client when the target answered.
pub fn relay(response: TargetResponse) -> (answer: ClientResponse)
    ensures
        answer.deep_view() == relay_view(
            response.status,
            response.headers.deep_view(),
            response.body@,
        ),
{
    ClientResponse {
        status: response.status,
        headers: relay_fields(&response.headers),
        body: response.body,
    }
}

/// The answer for the client when the target could not be reached.
pub fn bad_gateway(error: &ProxyTransportError) -> (answer: ClientResponse)
    ensures
        answer.deep_view() == failure_view(error.cause@),
{
    let mut text = String::from_str("Proxy error: ");
    text.append(error.cause.as_str());
    let answer = ClientResponse {
        status: BAD_GATEWAY,
        headers: Vec::new(),
        body: text.as_str().as_bytes_vec(),
    };
    assert(answer.headers.deep_view() =~= Seq::empty());
    answer
}

/// The one-line summary of a completed transaction.
pub fn notice(method: &str, uri: &str, status: u16) -> (line: String)
    ensures
        line@ == notice_text(method@, uri@, status),
{
    let mut line = String::from_str(method);
    line.append(" ");
    line.append(uri);
    line.append(" -> ");
    push_decimal(&mut line, status as u64);
    line
}

/// Texts that the HTTP layer accepts as header values stay acceptable when
/// joined.
proof fn lemma_joined_fits(left: Seq<char>, right: Seq<char>)
    requires
        valid_value(left),
        valid_value(right),
    ensures
        valid_value(left + right),
{
    assert forall|i: int| 0 <= i < (left + right).len() implies is_value_char(
        #[trigger] (left + right)[i],
    ) by {
        if i < left.len() {
            assert((left + right)[i] == left[i]);
        } else {
            assert((left + right)[i] == right[i - left.len()]);
        }
    }
}

/// A number in decimal is accepted as a header value.
proof fn lemma_decimal_fits(n: nat)
    ensures
        valid_value(decimal(n)),
    decreases n,
{
    if n >= 10 {
        lemma_decimal_fits(n / 10);
        assert(valid_value(seq![digit_char(n % 10)]));
        assert(decimal(n) =~= decimal(n / 10) + seq![digit_char(n % 10)]);
        lemma_joined_fits(decimal(n / 10), seq![digit_char(n % 10)]);
    }
}

/// The callback URL of a well-formed request identifier is accepted as a
/// header value.
pub proof fn lemma_callback_fits(port: u16, request_id: Seq<char>)
    requires
        is_request_id(request_id),
    ensures
        valid_value(callback_url(port, request_id)),
{
    let scheme = "http://localhost:"@;
    let path = "/chopin/report-context?requestId="@;
    reveal_strlit("http://localhost:");
    reveal_strlit("/chopin/report-context?requestId=");
    assert(valid_value(scheme));
    assert(valid_value(path));
    assert(valid_value(request_id)) by {
        assert forall|i: int| 0 <= i < request_id.len() implies is_value_char(
            #[trigger] request_id[i],
        ) by {
            if i == 8 || i == 13 || i == 18 || i == 23 {
                assert(request_id[i] == '-');
            } else {
                assert(is_lower_hex(request_id[i]));
            }
        }
    }
    lemma_decimal_fits(port as nat);
    lemma_joined_fits(scheme, decimal(port as nat));
    lemma_joined_fits(scheme + decimal(port as nat), path);
    lemma_joined_fits(scheme + decimal(port as nat) + path, request_id);
}

/// The two injected headers have different names.
proof fn lemma_injected_names_differ()
    ensures
        address_header() != callback_header(),
{
    reveal_strlit("x-address");
    reveal_strlit("x-callback-url");
    assert(address_header().len() == 9);
    assert(callback_header().len() == 14);
}

/// The request forwarded for a queued request always carries a callback
/// header. The request forwarded for any other request carries one only
/// where the client itself sent a header of that name, which is passed on
/// like every other header.
pub proof fn law_callback_header(
    target_port: u16,
    proxy_port: u16,
    method: Seq<char>,
    uri: Seq<char>,
    headers: Seq<(Seq<char>, Seq<u8>)>,
    body: Seq<u8>,
    identity: Option<Seq<char>>,
    request_id: Seq<char>,
)
    requires
        is_request_id(request_id),
    ensures
        ({
            let out = forward_view(
                target_port,
                proxy_port,
                method,
                uri,
                headers,
                body,
                identity,
                request_id,
            );
            &&& is_queued(method) ==> out.headers.contains_key(callback_header())
                && out.headers[callback_header()] == callback_url(proxy_port, request_id)
            &&& !is_queued(method) ==> (out.headers.contains_key(callback_header()) <==> carries(
                headers,
                callback_header(),
            ))
        }),
{
    lemma_callback_fits(proxy_port, request_id);
    lemma_injected_names_differ();
    lemma_forwarded_names(headers, callback_header());
}

/// Where the client has an identity that the HTTP layer accepts as a header
/// value, the forwarded request carries it in its address header,
/// whatever the client sent under that name. Where the client has none, the
/// forwarded request carries an address header only where the client
/// itself sent a header of that name.
pub proof fn law_address_header(
    target_port: u16,
    proxy_port: u16,
    method: Seq<char>,
    uri: Seq<char>,
    headers: Seq<(Seq<char>, Seq<u8>)>,
    body: Seq<u8>,
    identity: Option<Seq<char>>,
    request_id: Seq<char>,
)
    requires
        identity matches Some(id) ==> valid_value(id),
    ensures
        ({
            let out = forward_view(
                target_port,
                proxy_port,
                method,
                uri,
                headers,
                body,
                identity,
                request_id,
            );
            match identity {
                Some(id) => out.headers.contains_key(address_header())
                    && out.headers[address_header()] == id,
                None => out.headers.contains_key(address_header()) <==> carries(
                    headers,
                    address_header(),
                ),
            }
        }),
{
    lemma_injected_names_differ();
    lemma_forwarded_names(headers, address_header());
}

} // verus!
