//! The engine: four routes over two shared stores. Each handler here
//! decides; reading a request off the wire, sending it on and writing the
//! answer back belong to the caller, which hands in plain values and acts
//! on the plain values it is handed back.

use crate::app::AppState;
use crate::clock::now_millis;
use crate::config::Config;
use crate::context::{fragments, merged, ContextStore};
use crate::forward::{
    address_header, bad_gateway, build_forward, callback_header, callback_url, close_entry,
    failure_view, forward_view, fresh_request_id, is_queued, is_request_id, law_address_header,
    law_callback_header, notice, notice_text, open_entry, opened_view, relay, relay_view,
    response_view, ClientResponse, ForwardRequest, InboundRequest, ProxyTransportError,
    TargetResponse,
};
use crate::headers::{accepts_text, carries, valid_value};
use crate::identity::{
    cookie_text, identity_cookie, identity_of_request, is_minted, issues_cookie, request_identity,
    resolve, resolved,
};
use crate::logs::{LogEntry, LogEntryView, LogStore};
use crate::retention::{capped, unexpired, MAX_ENTRIES, TTL_MILLIS};
use crate::text::{decimal, push_decimal};
use vstd::prelude::*;

verus! {

/// The four routes of the proxy.
#[derive(Clone, Copy, Debug, PartialEq, Eq, Structural)]
pub enum Route {
    /// `GET /_chopin/login`
    Login,
    /// `POST /_chopin/report-context`
    ReportContext,
    /// `GET /_chopin/logs`
    Logs,
    /// Everything else is forwarded to the target.
    Proxy,
}

/// The route that serves a request, by its method and its path without the
/// query.
pub open spec fn route_of(method: Seq<char>, path: Seq<char>) -> Route {
    if method == "GET"@ && path == "/_chopin/login"@ {
        Route::Login
    } else if method == "POST"@ && path == "/_chopin/report-context"@ {
        Route::ReportContext
    } else if method == "GET"@ && path == "/_chopin/logs"@ {
        Route::Logs
    } else {
        Route::Proxy
    }
}

/// Picks the route that serves a request.
pub fn route(method: &String, path: &String) -> (route: Route)
    ensures
        route == route_of(method@, path@),
{
    let get = *method == String::from_str("GET");
    let post = *method == String::from_str("POST");
    if get && *path == String::from_str("/_chopin/login") {
        Route::Login
    } else if post && *path == String::from_str("/_chopin/report-context") {
        Route::ReportContext
    } else if get && *path == String::from_str("/_chopin/logs") {
        Route::Logs
    } else {
        Route::Proxy
    }
}

/// The answer of the login route.
#[derive(Debug)]
pub struct LoginResponse {
    pub status: u16,
    /// The identity the client has from now on.
    pub identity: String,
    /// The value of the `Set-Cookie` header, where one is sent.
    pub set_cookie: Option<String>,
    pub body: String,
}

/// The answer of the report-context route.
#[derive(Debug)]
pub struct ReportResponse {
    pub status: u16,
    pub body: String,
}

/// A request on its way to the target, with the log entry opened for it.
#[derive(Debug)]
pub struct Forwarding {
    pub request: ForwardRequest,
    pub entry: LogEntry,
}

/// What became of a forwarded request.
#[derive(Debug)]
pub struct Completion {
    /// The answer for the client.
    pub response: ClientResponse,
    /// A line for whoever watches the engine.
    pub notice: String,
    /// The health the engine reports, where it has changed.
    pub health: Option<AppState>,
}

/// The text of the cookie that login issues for `identity`.
pub open spec fn login_cookie(identity: Seq<char>) -> Seq<char> {
    identity_cookie() + seq!['='] + identity
}

/// The `Set-Cookie` value of a login, where one is sent: the cookie for the
/// identity, where login issues one and the HTTP layer accepts its text.
pub open spec fn login_directive(issue: bool, identity: Seq<char>) -> Option<Seq<char>> {
    if issue && valid_value(login_cookie(identity)) {
        Some(login_cookie(identity))
    } else {
        None
    }
}

/// The address the engine listens on.
pub open spec fn listen_text(port: u16) -> Seq<char> {
    "127.0.0.1:"@ + decimal(port as nat)
}

/// The forwarding engine with its two stores.
pub struct ProxyServer {
    config: Config,
    logs: LogStore,
    contexts: ContextStore,
}

/// The model of a [`ProxyServer`].
pub struct ProxyServerView {
    pub config: Config,
    pub logs: Seq<LogEntryView>,
    pub contexts: Map<Seq<char>, Seq<Seq<char>>>,
}

impl View for ProxyServer {
    type V = ProxyServerView;

    closed spec fn view(&self) -> ProxyServerView {
        ProxyServerView { config: self.config, logs: self.logs@, contexts: self.contexts@ }
    }
}

impl ProxyServer {
    /// An engine with empty stores.
    pub fn new(config: Config) -> (server: Self)
        ensures
            server@ == (ProxyServerView { config, logs: Seq::empty(), contexts: Map::empty() }),
    {
        ProxyServer { config, logs: LogStore::new(), contexts: ContextStore::new() }
    }

    /// The address to listen on: the loopback interface and the proxy port.
    pub fn listen_address(&self) -> (address: String)
        ensures
            address@ == listen_text(self@.config.proxy_port),
    {
        let mut address = String::from_str("127.0.0.1:");
        push_decimal(&mut address, self.config.proxy_port as u64);
        address
    }

    /// Serves the login route: settles the client's identity from the
    /// explicit `as` parameter, else from the cookie the request presents,
    /// else by minting one, and issues the cookie unless the client
    /// presented the identity itself. The answer is always a success with
    /// an empty body.
    pub fn handle_login(headers: &Vec<(String, Vec<u8>)>, explicit: Option<String>) -> (answer:
        LoginResponse)
        ensures
            answer.status == 200,
            answer.body@ == Seq::<char>::empty(),
            ({
                let presented = request_identity(headers.deep_view());
                &&& if explicit is None && presented is None {
                    is_minted(answer.identity@)
                } else {
                    answer.identity@ == resolved(explicit.deep_view(), presented, Seq::empty())
                }
                &&& answer.set_cookie.deep_view() == login_directive(
                    issues_cookie(explicit.deep_view(), presented),
                    answer.identity@,
                )
            }),
    {
        let settled = resolve(explicit, identity_of_request(headers));
        let set_cookie = if settled.set_cookie {
            let text = cookie_text("dev-address", settled.identity.as_str());
            if accepts_text(text.as_str()) {
                Some(text)
            } else {
                None
            }
        } else {
            None
        };
        LoginResponse { status: 200, identity: settled.identity, set_cookie, body: String::new() }
    }

    /// Serves the report-context route: stores `body` as a fragment under
    /// the request identifier and answers success, or answers a client
    /// error and stores nothing where the identifier is missing.
    pub fn handle_report_context(&mut self, request_id: Option<String>, body: String) -> (answer:
        ReportResponse)
        ensures
            match request_id {
                Some(id) => {
                    &&& answer.status == 200
                    &&& answer.body@ == Seq::<char>::empty()
                    &&& final(self)@ == (ProxyServerView {
                        contexts: old(self)@.contexts.insert(
                            id@,
                            fragments(old(self)@.contexts, id@).push(body@),
                        ),
                        ..old(self)@
                    })
                },
                None => {
                    &&& answer.status == 400
                    &&& answer.body@ == "Missing requestId"@
                    &&& final(self)@ == old(self)@
                },
            },
    {
        match request_id {
            Some(id) => {
                self.contexts.append(id, body);
                ReportResponse { status: 200, body: String::new() }
            },
            None => ReportResponse { status: 400, body: String::from_str("Missing requestId") },
        }
    }

    /// Serves the logs route: a copy of every stored entry, oldest first,
    /// each with the context fragments reported for it so far.
    pub fn handle_logs(&self) -> (entries: Vec<LogEntry>)
        ensures
            entries.deep_view() == merged(self@.contexts, self@.logs),
    {
        let stored = self.logs.snapshot();
        self.contexts.merge_into(&stored)
    }

    /// Prepares the forwarding of a request: gives it a fresh identifier,
    /// stamps it with the current time, recovers the client's identity from
    /// its cookie, and builds the outgoing request and the log entry.
    ///
    /// The outgoing request carries the callback header if the request is
    /// queued, and otherwise only if the client sent such a header itself.
    /// It carries the client's identity in the address header if the
    /// request presents one, and otherwise carries an address header only
    /// if the client sent such a header itself.
    pub fn handle_proxy(&self, request: &InboundRequest) -> (out: Forwarding)
        ensures
            is_request_id(out.entry.request_id@),
            out.request.deep_view() == forward_view(
                self@.config.target_port,
                self@.config.proxy_port,
                request.method@,
                request.uri@,
                request.headers.deep_view(),
                request.body@,
                request_identity(request.headers.deep_view()),
                out.entry.request_id@,
            ),
            out.entry.deep_view() == opened_view(
                request.method@,
                request.uri@,
                request.headers.deep_view(),
                request.body@,
                out.entry.request_id@,
                out.entry.timestamp,
            ),
            is_queued(request.method@) ==> out.request.headers@.contains_key(callback_header())
                && out.request.headers@[callback_header()] == callback_url(
                self@.config.proxy_port,
                out.entry.request_id@,
            ),
            !is_queued(request.method@) ==> (out.request.headers@.contains_key(callback_header())
                <==> carries(request.headers.deep_view(), callback_header())),
            match request_identity(request.headers.deep_view()) {
                Some(id) => out.request.headers@.contains_key(address_header())
                    && out.request.headers@[address_header()] == id,
                None => out.request.headers@.contains_key(address_header()) <==> carries(
                    request.headers.deep_view(),
                    address_header(),
                ),
            },
    {
        let request_id = fresh_request_id();
        let now = now_millis();
        let identity = identity_of_request(&request.headers);
        proof {
            law_callback_header(
                self.config.target_port,
                self.config.proxy_port,
                request.method@,
                request.uri@,
                request.headers.deep_view(),
                request.body@,
                identity.deep_view(),
                request_id@,
            );
            law_address_header(
                self.config.target_port,
                self.config.proxy_port,
                request.method@,
                request.uri@,
                request.headers.deep_view(),
                request.body@,
                identity.deep_view(),
                request_id@,
            );
        }
        let forward = build_forward(
            self.config.target_port,
            self.config.proxy_port,
            request,
            identity,
            request_id.as_str(),
        );
        Forwarding { request: forward, entry: open_entry(request, request_id, now) }
    }

    /// Completes a forwarded request. Where the target answered, the entry
    /// is closed with the answer and appended to the log, and the client is
    /// relayed the answer. Where the transport failed, nothing is logged,
    /// the client is answered a gateway error that names the cause, and the
    /// engine reports itself in error.
    pub fn complete_proxy(
        &mut self,
        entry: LogEntry,
        outcome: Result<TargetResponse, ProxyTransportError>,
    ) -> (done: Completion)
        ensures
            match outcome {
                Ok(response) => {
                    &&& final(self)@ == (ProxyServerView {
                        logs: capped(
                            old(self)@.logs.push(
                                LogEntryView {
                                    response: Some(
                                        response_view(
                                            response.status,
                                            response.headers.deep_view(),
                                            response.body@,
                                        ),
                                    ),
                                    ..entry.deep_view()
                                },
                            ),
                            MAX_ENTRIES as nat,
                        ),
                        ..old(self)@
                    })
                    &&& done.response.deep_view() == relay_view(
                        response.status,
                        response.headers.deep_view(),
                        response.body@,
                    )
                    &&& done.notice@ == notice_text(entry.method@, entry.url@, response.status)
                    &&& done.health is None
                },
                Err(error) => {
                    &&& final(self)@ == old(self)@
                    &&& done.response.deep_view() == failure_view(error.cause@)
                    &&& done.notice@ == "Proxy error: "@ + error.cause@
                    &&& done.health == Some(AppState::Error(error.cause))
                },
            },
    {
        match outcome {
            Ok(response) => {
                let line = notice(entry.method.as_str(), entry.url.as_str(), response.status);
                self.logs.append(close_entry(entry, &response));
                Completion { response: relay(response), notice: line, health: None }
            },
            Err(error) => {
                let answer = bad_gateway(&error);
                let mut line = String::from_str("Proxy error: ");
                line.append(error.cause.as_str());
                Completion {
                    response: answer,
                    notice: line,
                    health: Some(AppState::Error(error.cause)),
                }
            },
        }
    }

    /// Evicts from the log every entry that is an hour old or older at time
    /// `now`. Context fragments stay.
    pub fn on_tick(&mut self, now: i64)
        ensures
            final(self)@ == (ProxyServerView {
                logs: unexpired::<LogEntry>(old(self)@.logs, now, TTL_MILLIS),
                ..old(self)@
            }),
    {
        self.logs.evict_expired(now, TTL_MILLIS);
    }
}

} // verus!
