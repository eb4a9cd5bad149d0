//! The session engine: request dispatch, registry lifecycle under a bounded
//! capacity, response accumulation, and the tick boundary that clears it.
//!
//! The whole behaviour of one dispatch is the mathematical transition
//! [`spec_step`]; the executable entry points are proved to realise it
//! exactly, for every minted identifier.

use vstd::prelude::*;
use vstd::string::StringExecFns;
use vstd::utf8::{decode_utf8, valid_utf8};

use crate::protocol::{Address, Request, RequestType, RequestView, Response, ResponseCode,
    ResponseView};
use crate::registry::{contains_id, distinct_ids, remove_id, upsert, ClientRegistry,
    lemma_remove_id_distinct, lemma_upsert_distinct};
use crate::remote_client::{ClientView, RemoteClient};

verus! {

/// Fixed tick cadence in Hz; one tick lasts `1000 / ENGINE_TICK_RATE` ms.
pub const ENGINE_TICK_RATE: u32 = 10;

/// Maximum number of concurrently registered clients. Once reached, further
/// Connect requests are rejected outright; nobody is evicted to make room.
pub const MAX_CLIENT_COUNT: usize = 8;

/// The reject message for a Connect whose payload is not valid text.
pub open spec fn invalid_name_text() -> Seq<char> {
    "Invalid name."@
}

/// The reject message for a Connect that arrives with the registry full.
pub open spec fn max_reached_text() -> Seq<char> {
    "Maximum connection count reached."@
}

/// The acknowledgement message for a Disconnect of a registered client.
pub open spec fn disconnected_text() -> Seq<char> {
    "Disconnected."@
}

/// The welcome message carried by a connect-accept response.
pub open spec fn welcome_text(name: Seq<char>) -> Seq<char> {
    "Connection successful. Welcome, "@ + name + "."@
}

/// The newly assigned identifier as it travels in a response's object
/// payload: sixteen bytes, most significant first.
pub open spec fn id_bytes(id: u128) -> Seq<u8> {
    Seq::new(16, |i: int| (((id >> (((15 - i) as u128) * 8)) & 0xff) as u8))
}

/// The identifier a response's sixteen-byte object payload denotes: the
/// inverse reading of [`id_bytes`].
pub open spec fn id_of_bytes(s: Seq<u8>) -> u128
    recommends
        s.len() == 16,
{
    ((s[0] as u128) << 120u128) | ((s[1] as u128) << 112u128) | ((s[2] as u128) << 104u128) | (
    (s[3] as u128) << 96u128) | ((s[4] as u128) << 88u128) | ((s[5] as u128) << 80u128) | ((
    s[6] as u128) << 72u128) | ((s[7] as u128) << 64u128) | ((s[8] as u128) << 56u128) | ((
    s[9] as u128) << 48u128) | ((s[10] as u128) << 40u128) | ((s[11] as u128) << 32u128) | ((
    s[12] as u128) << 24u128) | ((s[13] as u128) << 16u128) | ((s[14] as u128) << 8u128) | (
    s[15] as u128)
}

/// The object payload of an accept decodes back to exactly the identifier
/// that was assigned: encoding loses nothing.
pub proof fn lemma_id_bytes_roundtrip(id: u128)
    ensures
        id_of_bytes(id_bytes(id)) == id,
{
    let s = id_bytes(id);
    assert(((((((id >> 120u128) & 0xff) as u8) as u128) << 120u128) | (((((id >> 112u128) & 0xff)
        as u8) as u128) << 112u128) | (((((id >> 104u128) & 0xff) as u8) as u128) << 104u128) | ((
    (((id >> 96u128) & 0xff) as u8) as u128) << 96u128) | (((((id >> 88u128) & 0xff) as u8)
        as u128) << 88u128) | (((((id >> 80u128) & 0xff) as u8) as u128) << 80u128) | (((((id
        >> 72u128) & 0xff) as u8) as u128) << 72u128) | (((((id >> 64u128) & 0xff) as u8) as u128)
        << 64u128) | (((((id >> 56u128) & 0xff) as u8) as u128) << 56u128) | (((((id >> 48u128)
        & 0xff) as u8) as u128) << 48u128) | (((((id >> 40u128) & 0xff) as u8) as u128) << 40u128)
        | (((((id >> 32u128) & 0xff) as u8) as u128) << 32u128) | (((((id >> 24u128) & 0xff) as u8)
        as u128) << 24u128) | (((((id >> 16u128) & 0xff) as u8) as u128) << 16u128) | (((((id
        >> 8u128) & 0xff) as u8) as u128) << 8u128) | ((((id >> 0u128) & 0xff) as u8) as u128))
        == id) by (bit_vector);
    assert(id_of_bytes(s) == (((((id >> 120u128) & 0xff) as u8) as u128) << 120u128) | (((((id
        >> 112u128) & 0xff) as u8) as u128) << 112u128) | (((((id >> 104u128) & 0xff) as u8)
        as u128) << 104u128) | (((((id >> 96u128) & 0xff) as u8) as u128) << 96u128) | (((((id
        >> 88u128) & 0xff) as u8) as u128) << 88u128) | (((((id >> 80u128) & 0xff) as u8) as u128)
        << 80u128) | (((((id >> 72u128) & 0xff) as u8) as u128) << 72u128) | (((((id >> 64u128)
        & 0xff) as u8) as u128) << 64u128) | (((((id >> 56u128) & 0xff) as u8) as u128) << 56u128)
        | (((((id >> 48u128) & 0xff) as u8) as u128) << 48u128) | (((((id >> 40u128) & 0xff) as u8)
        as u128) << 40u128) | (((((id >> 32u128) & 0xff) as u8) as u128) << 32u128) | (((((id
        >> 24u128) & 0xff) as u8) as u128) << 24u128) | (((((id >> 16u128) & 0xff) as u8) as u128)
        << 16u128) | (((((id >> 8u128) & 0xff) as u8) as u128) << 8u128) | ((((id >> 0u128) & 0xff)
        as u8) as u128));
}

/// A token-acknowledge response: the session token echoed to any request
/// that is neither Connect nor Disconnect.
pub open spec fn token_ack_view(token: Seq<char>, addr: Address) -> ResponseView {
    ResponseView {
        code: ResponseCode::TokenAcknowledge,
        addr,
        numerical_data: Seq::empty(),
        textual_data: token,
        object_data: Seq::empty(),
    }
}

/// A connect-accept response carrying the welcome message and the newly
/// assigned identifier.
pub open spec fn accept_view(msg: Seq<char>, user_id: u128, addr: Address) -> ResponseView {
    ResponseView {
        code: ResponseCode::ConnectAccept,
        addr,
        numerical_data: Seq::empty(),
        textual_data: msg,
        object_data: id_bytes(user_id),
    }
}

/// A connect-reject response with one of the two fixed reject messages.
pub open spec fn reject_view(msg: Seq<char>, addr: Address) -> ResponseView {
    ResponseView {
        code: ResponseCode::ConnectReject,
        addr,
        numerical_data: Seq::empty(),
        textual_data: msg,
        object_data: Seq::empty(),
    }
}

/// A disconnect-acknowledge response.
pub open spec fn dc_ack_view(msg: Seq<char>, addr: Address) -> ResponseView {
    ResponseView {
        code: ResponseCode::DisconnectAck,
        addr,
        numerical_data: Seq::empty(),
        textual_data: msg,
        object_data: Seq::empty(),
    }
}

/// Mathematical state of an [`Engine`].
#[verifier::ext_equal]
pub struct EngineView {
    pub session_token: Seq<char>,
    pub responses: Seq<ResponseView>,
    pub delay_duration_ms: u64,
    pub clients: Seq<ClientView>,
    pub debug_mode: bool,
}

/// The engine's invariant: registered identifiers are pairwise distinct and
/// the population never exceeds the capacity.
pub open spec fn engine_inv(v: EngineView) -> bool {
    &&& distinct_ids(v.clients)
    &&& v.clients.len() <= MAX_CLIENT_COUNT
}

/// `pre` with one more accumulated response.
pub open spec fn with_response(pre: EngineView, r: ResponseView) -> EngineView {
    EngineView {
        session_token: pre.session_token,
        responses: pre.responses.push(r),
        delay_duration_ms: pre.delay_duration_ms,
        clients: pre.clients,
        debug_mode: pre.debug_mode,
    }
}

/// `pre` with a new registry and one more accumulated response.
pub open spec fn with_clients_and_response(
    pre: EngineView,
    clients: Seq<ClientView>,
    r: ResponseView,
) -> EngineView {
    EngineView {
        session_token: pre.session_token,
        responses: pre.responses.push(r),
        delay_duration_ms: pre.delay_duration_ms,
        clients,
        debug_mode: pre.debug_mode,
    }
}

/// One dispatch step: the state after handling `req` when `id` is the
/// identifier minted for a Connect (`id` is ignored by every other kind).
///
/// - Connect with the registry full: reject, no state change.
/// - Connect whose payload is not valid UTF-8: reject, no state change.
/// - Connect otherwise: register a client named by the decoded payload under
///   `id` and accept; an entry already under `id` is replaced, as a map keyed
///   by identifier would.
/// - Disconnect of a registered identifier: deregister and acknowledge.
/// - Disconnect of an unknown identifier: silently ignored.
/// - Any other kind: echo the session token, no state change.
pub open spec fn spec_step(pre: EngineView, req: RequestView, id: u128) -> EngineView {
    match req.req_type {
        RequestType::Connect => {
            if pre.clients.len() >= MAX_CLIENT_COUNT {
                with_response(pre, reject_view(max_reached_text(), req.addr))
            } else if !valid_utf8(req.contents) {
                with_response(pre, reject_view(invalid_name_text(), req.addr))
            } else {
                let name = decode_utf8(req.contents);
                let c = ClientView { user_id: id, addr: req.addr, user_name: name };
                with_clients_and_response(
                    pre,
                    upsert(pre.clients, c),
                    accept_view(welcome_text(name), id, req.addr),
                )
            }
        },
        RequestType::Disconnect => {
            if contains_id(pre.clients, req.client_id) {
                with_clients_and_response(
                    pre,
                    remove_id(pre.clients, req.client_id),
                    dc_ack_view(disconnected_text(), req.addr),
                )
            } else {
                pre
            }
        },
        RequestType::Other => with_response(pre, token_ack_view(pre.session_token, req.addr)),
    }
}

/// The views of a buffer of responses, in order.
pub open spec fn response_views(s: Seq<Response>) -> Seq<ResponseView> {
    s.map_values(|r: Response| r@)
}

pub proof fn lemma_response_views_push(s: Seq<Response>, r: Response)
    ensures
        response_views(s.push(r)) == response_views(s).push(r@),
{
    assert(response_views(s.push(r)) =~= response_views(s).push(r@));
}

/// Capacity law: from any state within the invariant, one step keeps the
/// identifiers distinct and the population at or below the capacity,
/// whatever the request and whatever identifier was minted.
pub proof fn lemma_step_preserves_inv(pre: EngineView, req: RequestView, id: u128)
    requires
        engine_inv(pre),
    ensures
        engine_inv(spec_step(pre, req, id)),
{
    match req.req_type {
        RequestType::Connect => {
            if pre.clients.len() < MAX_CLIENT_COUNT && valid_utf8(req.contents) {
                let c = ClientView {
                    user_id: id,
                    addr: req.addr,
                    user_name: decode_utf8(req.contents),
                };
                lemma_upsert_distinct(pre.clients, c);
            }
        },
        RequestType::Disconnect => {
            if contains_id(pre.clients, req.client_id) {
                lemma_remove_id_distinct(pre.clients, req.client_id);
            }
        },
        RequestType::Other => {},
    }
}

/// The state after handling a whole sequence of requests in order, each
/// paired with the identifier minted for it.
pub open spec fn spec_run(pre: EngineView, steps: Seq<(RequestView, u128)>) -> EngineView
    decreases steps.len(),
{
    if steps.len() == 0 {
        pre
    } else {
        spec_step(spec_run(pre, steps.drop_last()), steps.last().0, steps.last().1)
    }
}

/// Capacity law over whole runs: from any state within the invariant, no
/// sequence of requests — whatever their kinds, payloads and minted
/// identifiers — ever drives the registry past the capacity.
pub proof fn lemma_run_preserves_inv(pre: EngineView, steps: Seq<(RequestView, u128)>)
    requires
        engine_inv(pre),
    ensures
        engine_inv(spec_run(pre, steps)),
        spec_run(pre, steps).clients.len() <= MAX_CLIENT_COUNT,
    decreases steps.len(),
{
    if steps.len() > 0 {
        lemma_run_preserves_inv(pre, steps.drop_last());
        lemma_step_preserves_inv(spec_run(pre, steps.drop_last()), steps.last().0, steps.last().1);
    }
}

/// A Connect whose payload is not valid text, arriving with capacity to
/// spare, is rejected with exactly the invalid-name message and leaves the
/// registry unchanged.
pub proof fn lemma_connect_invalid_name(pre: EngineView, req: RequestView, id: u128)
    requires
        req.req_type == RequestType::Connect,
        pre.clients.len() < MAX_CLIENT_COUNT,
        !valid_utf8(req.contents),
    ensures
        spec_step(pre, req, id).clients == pre.clients,
        spec_step(pre, req, id).responses == pre.responses.push(
            reject_view(invalid_name_text(), req.addr),
        ),
{
}

/// A Connect with the registry full is rejected with exactly the
/// capacity message and leaves the registry unchanged.
pub proof fn lemma_connect_at_capacity(pre: EngineView, req: RequestView, id: u128)
    requires
        req.req_type == RequestType::Connect,
        pre.clients.len() >= MAX_CLIENT_COUNT,
    ensures
        spec_step(pre, req, id).clients == pre.clients,
        spec_step(pre, req, id).responses == pre.responses.push(
            reject_view(max_reached_text(), req.addr),
        ),
{
}

/// A Connect with valid text, available capacity, and a freshly minted
/// identifier grows the registry by exactly one, registers the identifier,
/// and accepts with the welcome message and that identifier's bytes.
pub proof fn lemma_connect_accept(pre: EngineView, req: RequestView, id: u128)
    requires
        engine_inv(pre),
        req.req_type == RequestType::Connect,
        pre.clients.len() < MAX_CLIENT_COUNT,
        valid_utf8(req.contents),
        !contains_id(pre.clients, id),
    ensures
        spec_step(pre, req, id).clients.len() == pre.clients.len() + 1,
        contains_id(spec_step(pre, req, id).clients, id),
        spec_step(pre, req, id).responses == pre.responses.push(
            accept_view(welcome_text(decode_utf8(req.contents)), id, req.addr),
        ),
        accept_view(welcome_text(decode_utf8(req.contents)), id, req.addr).object_data
            == id_bytes(id),
{
    let c = ClientView { user_id: id, addr: req.addr, user_name: decode_utf8(req.contents) };
    lemma_upsert_distinct(pre.clients, c);
}

/// A Disconnect of a registered identifier shrinks the registry by exactly
/// one, deregisters the identifier, and acknowledges with exactly one
/// disconnect-ack.
pub proof fn lemma_disconnect_present(pre: EngineView, req: RequestView, id: u128)
    requires
        engine_inv(pre),
        req.req_type == RequestType::Disconnect,
        contains_id(pre.clients, req.client_id),
    ensures
        spec_step(pre, req, id).clients.len() == pre.clients.len() - 1,
        !contains_id(spec_step(pre, req, id).clients, req.client_id),
        spec_step(pre, req, id).responses == pre.responses.push(
            dc_ack_view(disconnected_text(), req.addr),
        ),
{
    lemma_remove_id_distinct(pre.clients, req.client_id);
}

/// Disconnect is idempotent: repeating the same Disconnect immediately
/// after changes nothing and emits nothing, whatever identifiers were
/// minted alongside.
pub proof fn lemma_disconnect_idempotent(pre: EngineView, req: RequestView, id1: u128, id2: u128)
    requires
        engine_inv(pre),
        req.req_type == RequestType::Disconnect,
    ensures
        spec_step(spec_step(pre, req, id1), req, id2) == spec_step(pre, req, id1),
{
    let mid = spec_step(pre, req, id1);
    if contains_id(pre.clients, req.client_id) {
        lemma_remove_id_distinct(pre.clients, req.client_id);
        assert(!contains_id(mid.clients, req.client_id));
    }
}

/// Any request of another kind is answered by exactly one token-acknowledge
/// carrying the session token, whatever the registry holds; no state
/// changes.
pub proof fn lemma_other_token_ack(pre: EngineView, req: RequestView, id: u128)
    requires
        req.req_type == RequestType::Other,
    ensures
        spec_step(pre, req, id).clients == pre.clients,
        spec_step(pre, req, id).responses == pre.responses.push(
            token_ack_view(pre.session_token, req.addr),
        ),
{
}

/// Relies on `uuid::Uuid::new_v4`: a freshly generated random version-4
/// identifier, taken as its 128-bit big-endian value. Nothing is promised
/// of the result; it depends on the process's random source.
#[verifier::external_body]
fn mint_identifier() -> u128 {
    uuid::Uuid::new_v4().as_u128()
}

/// Relies on `String::from_utf8`: per std's documentation it returns `Ok`
/// exactly when the bytes are valid UTF-8, and then the string's characters
/// are their decoding.
#[verifier::external_body]
fn decode_name(bytes: &Vec<u8>) -> (r: Option<String>)
    ensures
        r is Some <==> valid_utf8(bytes@),
        r matches Some(s) ==> s@ == decode_utf8(bytes@),
{
    String::from_utf8(bytes.clone()).ok()
}

/// The newly assigned identifier encoded for a response's object payload.
fn encode_id(id: u128) -> (r: Vec<u8>)
    ensures
        r@ == id_bytes(id),
{
    let mut r: Vec<u8> = Vec::new();
    let mut i: usize = 0;
    while i < 16
        invariant
            i <= 16,
            r@.len() == i,
            forall|j: int| 0 <= j < i ==> r@[j] == id_bytes(id)[j],
        decreases 16 - i,
    {
        let sh: u128 = ((15 - i) as u128) * 8;
        let b: u8 = ((id >> sh) & 0xff) as u8;
        proof {
            assert((id >> sh) & 0xff < 256) by (bit_vector);
        }
        r.push(b);
        i += 1;
    }
    proof {
        assert(r@ =~= id_bytes(id));
    }
    r
}

/// A fresh vector holding the same values.
fn copy_vals<T: Copy>(v: &Vec<T>) -> (r: Vec<T>)
    ensures
        r@ == v@,
{
    let mut r: Vec<T> = Vec::new();
    let mut i: usize = 0;
    while i < v.len()
        invariant
            i <= v.len(),
            r@.len() == i,
            forall|j: int| 0 <= j < i ==> r@[j] == v@[j],
        decreases v.len() - i,
    {
        r.push(v[i]);
        i += 1;
    }
    proof {
        assert(r@ =~= v@);
    }
    r
}

/// The session engine. It owns the client registry and the outgoing
/// response buffer exclusively; one driving loop feeds it requests, drains
/// the accumulated responses, and paces it at the fixed tick cadence.
pub struct Engine {
    session_token: String,
    responses: Vec<Response>,
    delay_duration_ms: u64,
    clients: ClientRegistry,
    debug_mode: bool,
}

impl View for Engine {
    type V = EngineView;

    closed spec fn view(&self) -> EngineView {
        EngineView {
            session_token: self.session_token@,
            responses: response_views(self.responses@),
            delay_duration_ms: self.delay_duration_ms,
            clients: self.clients@,
            debug_mode: self.debug_mode,
        }
    }
}

impl Engine {
    /// Well-formed: the engine's state satisfies [`engine_inv`].
    pub open spec fn wf(&self) -> bool {
        engine_inv(self@)
    }

    /// A fresh engine: empty registry, empty response buffer, the given
    /// session token, and the delay derived from the fixed tick rate.
    pub fn new(token: String, debug: bool) -> (r: Engine)
        ensures
            r.wf(),
            r@.session_token == token@,
            r@.responses == Seq::<ResponseView>::empty(),
            r@.clients == Seq::<ClientView>::empty(),
            r@.delay_duration_ms == 1000u64 / ENGINE_TICK_RATE as u64,
            r@.debug_mode == debug,
    {
        let r = Engine {
            session_token: token,
            responses: Vec::new(),
            delay_duration_ms: (1000 / ENGINE_TICK_RATE) as u64,
            clients: ClientRegistry::new(),
            debug_mode: debug,
        };
        proof {
            assert(response_views(r.responses@) =~= Seq::<ResponseView>::empty());
        }
        r
    }

    /// Handle one request with `id` as the identifier a Connect would
    /// register: exactly the transition [`spec_step`].
    pub fn process_request_with_id(&mut self, req: &Request, id: u128)
        requires
            old(self).wf(),
        ensures
            final(self).wf(),
            final(self)@ == spec_step(old(self)@, req@, id),
    {
        match req.req_type {
            RequestType::Connect => {
                if self.clients.size() < MAX_CLIENT_COUNT {
                    match decode_name(&req.contents) {
                        Some(name) => {
                            let welcome = Engine::build_welcome(&name);
                            let new_client = RemoteClient {
                                user_id: id,
                                addr: req.addr,
                                user_name: name,
                            };
                            self.clients.insert(new_client);
                            let res = Engine::create_connection_success_response(
                                welcome,
                                id,
                                req,
                            );
                            proof {
                                lemma_response_views_push(self.responses@, res);
                            }
                            self.responses.push(res);
                            proof {
                                assert(self@ =~= spec_step(old(self)@, req@, id));
                            }
                        },
                        None => {
                            let res = Engine::create_connection_reject_response(
                                "Invalid name.",
                                req,
                            );
                            proof {
                                lemma_response_views_push(self.responses@, res);
                            }
                            self.responses.push(res);
                            proof {
                                assert(self@ =~= spec_step(old(self)@, req@, id));
                            }
                        },
                    }
                } else {
                    let res = Engine::create_connection_reject_response(
                        "Maximum connection count reached.",
                        req,
                    );
                    proof {
                        lemma_response_views_push(self.responses@, res);
                    }
                    self.responses.push(res);
                    proof {
                        assert(self@ =~= spec_step(old(self)@, req@, id));
                    }
                }
            },
            RequestType::Disconnect => {
                if self.clients.contains(req.client_id) {
                    self.clients.remove(req.client_id);
                    let res = Engine::create_dc_acknowledge_response("Disconnected.", req);
                    proof {
                        lemma_response_views_push(self.responses@, res);
                    }
                    self.responses.push(res);
                    proof {
                        assert(self@ =~= spec_step(old(self)@, req@, id));
                    }
                } else {
                    proof {
                        assert(self@ =~= spec_step(old(self)@, req@, id));
                    }
                }
            },
            RequestType::Other => {
                let token = self.session_token.clone();
                let res = Engine::create_token_response(token, req);
                proof {
                    lemma_response_views_push(self.responses@, res);
                }
                self.responses.push(res);
                proof {
                    assert(self@ =~= spec_step(old(self)@, req@, id));
                }
            },
        }
        proof {
            lemma_step_preserves_inv(old(self)@, req@, id);
        }
    }

    /// Handle one request, minting a fresh identifier for a Connect. The
    /// identifier is random, so the post-state is [`spec_step`] for some
    /// identifier; every kind but Connect ignores it.
    pub fn process_request(&mut self, req: &Request)
        requires
            old(self).wf(),
        ensures
            final(self).wf(),
            exists|id: u128| final(self)@ == spec_step(old(self)@, req@, id),
            req@.req_type != RequestType::Connect ==> final(self)@ == spec_step(
                old(self)@,
                req@,
                0,
            ),
    {
        let id = mint_identifier();
        self.process_request_with_id(req, id);
        proof {
            assert(self@ == spec_step(old(self)@, req@, id));
        }
    }

    /// A snapshot of the responses accumulated since the last tick
    /// boundary, in arrival order; the buffer itself is not cleared.
    pub fn get_responses(&self) -> (r: Vec<Response>)
        ensures
            response_views(r@) == self@.responses,
    {
        let mut out: Vec<Response> = Vec::new();
        let mut i: usize = 0;
        while i < self.responses.len()
            invariant
                i <= self.responses.len(),
                out@.len() == i,
                forall|j: int| 0 <= j < i ==> out@[j]@ == self.responses@[j]@,
            decreases self.responses.len() - i,
        {
            let d = Engine::duplicate_response(&self.responses[i]);
            out.push(d);
            i += 1;
        }
        proof {
            assert(response_views(out@) =~= response_views(self.responses@));
        }
        out
    }

    /// The tick boundary: clear the outgoing response buffer for the next
    /// cycle. Responses not drained before this point are lost. The pacing
    /// itself — blocking for `delay_duration_ms` — is the driving loop's
    /// side of the tick, outside this state transition.
    pub fn perform_tick(&mut self)
        ensures
            final(self)@.responses == Seq::<ResponseView>::empty(),
            final(self)@.session_token == old(self)@.session_token,
            final(self)@.delay_duration_ms == old(self)@.delay_duration_ms,
            final(self)@.clients == old(self)@.clients,
            final(self)@.debug_mode == old(self)@.debug_mode,
            old(self).wf() ==> final(self).wf(),
    {
        self.responses.clear();
        proof {
            assert(response_views(self.responses@) =~= Seq::<ResponseView>::empty());
        }
    }

    /// The configured inter-tick delay in milliseconds, for the driving
    /// loop to pace by.
    pub fn delay_duration_ms(&self) -> (d: u64)
        ensures
            d == self@.delay_duration_ms,
    {
        self.delay_duration_ms
    }

    /// Whether connection lifecycle events should be mirrored to a
    /// diagnostic sink by the driving loop.
    pub fn debug_mode(&self) -> (d: bool)
        ensures
            d == self@.debug_mode,
    {
        self.debug_mode
    }

    /// The number of currently connected clients.
    pub fn client_count(&self) -> (n: usize)
        ensures
            n == self@.clients.len(),
    {
        self.clients.size()
    }

    /// The welcome message for a freshly connected client.
    fn build_welcome(name: &String) -> (r: String)
        ensures
            r@ == welcome_text(name@),
    {
        let mut r: String = "Connection successful. Welcome, ".to_owned();
        r.append(name.as_str());
        r.append(".");
        r
    }

    /// A fresh response equal in value to `r`.
    fn duplicate_response(r: &Response) -> (d: Response)
        ensures
            d@ == r@,
    {
        Response {
            code: r.code,
            addr: r.addr,
            numerical_data: copy_vals(&r.numerical_data),
            textual_data: r.textual_data.clone(),
            object_data: copy_vals(&r.object_data),
        }
    }

    /// Build a token-acknowledge response for `req`'s origin.
    pub fn create_token_response(token: String, req: &Request) -> (r: Response)
        ensures
            r@ == token_ack_view(token@, req.addr),
    {
        Response {
            code: ResponseCode::TokenAcknowledge,
            addr: req.addr,
            numerical_data: Vec::new(),
            textual_data: token,
            object_data: Vec::new(),
        }
    }

    /// Build a connect-accept response carrying `msg` and the bytes of the
    /// newly assigned `user_id`.
    pub fn create_connection_success_response(msg: String, user_id: u128, req: &Request) -> (r:
        Response)
        ensures
            r@ == accept_view(msg@, user_id, req.addr),
    {
        Response {
            code: ResponseCode::ConnectAccept,
            addr: req.addr,
            numerical_data: Vec::new(),
            textual_data: msg,
            object_data: encode_id(user_id),
        }
    }

    /// Build a disconnect-acknowledge response carrying `msg`.
    pub fn create_dc_acknowledge_response(msg: &'static str, req: &Request) -> (r: Response)
        ensures
            r@ == dc_ack_view(msg@, req.addr),
    {
        Response {
            code: ResponseCode::DisconnectAck,
            addr: req.addr,
            numerical_data: Vec::new(),
            textual_data: msg.to_owned(),
            object_data: Vec::new(),
        }
    }

    /// Build a connect-reject response carrying `msg`.
    pub fn create_connection_reject_response(msg: &'static str, req: &Request) -> (r: Response)
        ensures
            r@ == reject_view(msg@, req.addr),
    {
        Response {
            code: ResponseCode::ConnectReject,
            addr: req.addr,
            numerical_data: Vec::new(),
            textual_data: msg.to_owned(),
            object_data: Vec::new(),
        }
    }
}

} // verus!
