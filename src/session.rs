//! One session per open socket: admission on the upgrade request, and the
//! authorization gate in front of every inbound action.
use vstd::prelude::*;
use crate::ticket::Ticket;
use crate::cookie::{extract_ticket, attach_ticket, presented_ticket, spec_set_cookie};
use crate::registry::{Registry, Connection, Admission, spec_admit};
use crate::envelope::{Frame, Rejection, parse, spec_parse};

verus! {

/// A policy that decides whether a claimed ticket may act.  Whatever the
/// policy, it only ever lets through tickets that are registered.
pub trait AuthorizesTicket {
    /// Whether the policy lets `ticket` act against the registry `registry`.
    spec fn admits(&self, registry: Map<u128, Connection>, ticket: u128) -> bool;

    fn authorize_ticket(&self, registry: &Registry, ticket: Ticket) -> (ok: bool)
        requires
            registry.wf(),
        ensures
            ok == self.admits(registry@, ticket.bits),
            ok ==> registry@.contains_key(ticket.bits),
    ;
}

/// The placeholder policy: a ticket may act exactly when it is registered.
/// It does not tie the ticket to the socket that presents it.
pub struct DumbTicketStamper {}

impl DumbTicketStamper {
    pub fn new() -> (s: DumbTicketStamper) {
        DumbTicketStamper {}
    }
}

impl AuthorizesTicket for DumbTicketStamper {
    open spec fn admits(&self, registry: Map<u128, Connection>, ticket: u128) -> bool {
        registry.contains_key(ticket)
    }

    fn authorize_ticket(&self, registry: &Registry, ticket: Ticket) -> (ok: bool) {
        registry.contains(ticket)
    }
}

/// Where a socket is in its life.
#[derive(Clone, Copy, Debug, PartialEq, Eq, Structural)]
pub enum SessionState {
    Unopened,
    Open,
    Closed,
}

/// The view of an optional string.
pub open spec fn opt_view(s: Option<String>) -> Option<Seq<char>> {
    match s {
        Some(v) => Some(v@),
        None => None,
    }
}

/// The view of an optional string slice.
pub open spec fn opt_str_view(s: Option<&str>) -> Option<Seq<char>> {
    match s {
        Some(v) => Some(v@),
        None => None,
    }
}

/// The `Set-Cookie` header that admitting `t` into `m` sends: none on a
/// reconnect, the ticket's cookie on a new connection.
pub open spec fn spec_set_cookie_for(m: Map<u128, Connection>, t: u128) -> Option<Seq<char>> {
    if m.contains_key(t) {
        None
    } else {
        Some(spec_set_cookie(t))
    }
}

/// The ticket that a request resolves to: the one it presents, or `fresh`.
pub open spec fn resolved_ticket(header: Option<Seq<char>>, fresh: u128) -> u128 {
    match presented_ticket(header) {
        Some(b) => b,
        None => fresh,
    }
}

/// Admits a resolved ticket: registers it if it is new and returns the
/// `Set-Cookie` header to send, or `None` on a reconnect.
pub fn admit_resolved(registry: &mut Registry, ticket: Ticket) -> (set_cookie: Option<String>)
    requires
        old(registry).wf(),
    ensures
        final(registry).wf(),
        final(registry)@ == spec_admit(old(registry)@, ticket.bits),
        opt_view(set_cookie) == spec_set_cookie_for(old(registry)@, ticket.bits),
{
    match registry.admit_ticket(ticket) {
        Admission::Reconnected => None,
        Admission::Admitted => Some(attach_ticket(ticket)),
    }
}

/// Admission of an upgrade request whose `Cookie` header is
/// `cookie_header`, with `fresh` as the ticket to issue where the request
/// presents none (or one that is not a UUID).
pub fn admit_request(registry: &mut Registry, cookie_header: Option<&str>, fresh: Ticket) -> (set_cookie:
    Option<String>)
    requires
        old(registry).wf(),
    ensures
        final(registry).wf(),
        final(registry)@ == spec_admit(
            old(registry)@,
            resolved_ticket(opt_str_view(cookie_header), fresh.bits),
        ),
        opt_view(set_cookie) == spec_set_cookie_for(
            old(registry)@,
            resolved_ticket(opt_str_view(cookie_header), fresh.bits),
        ),
{
    let ticket = match extract_ticket(cookie_header) {
        Some(t) => t,
        None => fresh,
    };
    admit_resolved(registry, ticket)
}

/// The acknowledgment sent for an authorized action.
pub open spec fn spec_ack(action: Seq<char>) -> Seq<char> {
    "gotcha, you want to "@ + action
}

/// The acknowledgment sent for an authorized action.
pub fn ack(action: &str) -> (r: String)
    ensures
        r@ == spec_ack(action@),
{
    let mut r = String::from_str("gotcha, you want to ");
    r.append(action);
    r
}

/// The reply to an inbound frame: the parse error, or the unknown-ticket
/// error where the policy refuses the claimed ticket, or the acknowledgment.
pub open spec fn spec_reply<A: AuthorizesTicket>(
    authorizer: &A,
    registry: Map<u128, Connection>,
    frame: &Frame,
) -> Seq<char> {
    match spec_parse(frame) {
        Err(e) => e.spec_message(),
        Ok((action, ticket)) => if authorizer.admits(registry, ticket) {
            spec_ack(action)
        } else {
            Rejection::UnknownTicket.spec_message()
        },
    }
}

/// The per-socket handler.
pub struct Session<A> {
    pub state: SessionState,
    pub authorizer: A,
}

impl<A: AuthorizesTicket> Session<A> {
    /// A session for a socket that is being upgraded.
    pub fn new(authorizer: A) -> (s: Session<A>)
        ensures
            s.state == SessionState::Unopened,
            s.authorizer == authorizer,
    {
        Session { state: SessionState::Unopened, authorizer }
    }

    /// Admits the upgrade request.  A presented ticket is used as it is; a
    /// request without one gets a freshly generated ticket.  Every request
    /// is admitted.  The result is the `Set-Cookie` header to send, or
    /// `None` on a reconnect.
    pub fn on_request(&mut self, registry: &mut Registry, cookie_header: Option<&str>) -> (set_cookie:
        Option<String>)
        requires
            old(registry).wf(),
        ensures
            final(registry).wf(),
            *final(self) == *old(self),
            presented_ticket(opt_str_view(cookie_header)) matches Some(b) ==> {
                &&& final(registry)@ == spec_admit(old(registry)@, b)
                &&& opt_view(set_cookie) == spec_set_cookie_for(old(registry)@, b)
            },
            exists|b: u128|
                {
                    &&& final(registry)@ == spec_admit(old(registry)@, b)
                    &&& opt_view(set_cookie) == spec_set_cookie_for(old(registry)@, b)
                },
    {
        let ticket = match extract_ticket(cookie_header) {
            Some(t) => t,
            None => Ticket::generate(),
        };
        admit_resolved(registry, ticket)
    }

    /// The transport confirmed the handshake.
    pub fn on_open(&mut self)
        ensures
            final(self).authorizer == old(self).authorizer,
            final(self).state == (if old(self).state == SessionState::Unopened {
                SessionState::Open
            } else {
                old(self).state
            }),
    {
        if self.state == SessionState::Unopened {
            self.state = SessionState::Open;
        }
    }

    /// Handles an inbound frame and returns the text to send back: it is
    /// parsed, the claimed ticket goes to the policy, and an authorized
    /// action is acknowledged.  No shared state changes.
    pub fn on_message(&self, registry: &Registry, frame: &Frame) -> (reply: String)
        requires
            registry.wf(),
        ensures
            reply@ == spec_reply(&self.authorizer, registry@, frame),
    {
        match parse(frame) {
            Err(e) => e.message(),
            Ok(env) => {
                if self.authorizer.authorize_ticket(registry, env.ticket) {
                    ack(env.action.as_str())
                } else {
                    Rejection::UnknownTicket.message()
                }
            },
        }
    }

    /// The socket closed.  Its registry entry stays.
    pub fn on_close(&mut self)
        ensures
            final(self).authorizer == old(self).authorizer,
            final(self).state == SessionState::Closed,
    {
        self.state = SessionState::Closed;
    }

    /// The transport reported an error.  Its registry entry stays.
    pub fn on_error(&mut self)
        ensures
            final(self).authorizer == old(self).authorizer,
            final(self).state == SessionState::Closed,
    {
        self.state = SessionState::Closed;
    }
}

/// A ticket that was never admitted fails authorization under the
/// placeholder policy, whatever the action: the reply is the unknown-ticket
/// error.
pub proof fn lemma_unregistered_rejected(
    stamper: DumbTicketStamper,
    registry: Map<u128, Connection>,
    frame: &Frame,
)
    requires
        spec_parse(frame) is Ok,
        !registry.contains_key(spec_parse(frame)->Ok_0.1),
    ensures
        spec_reply(&stamper, registry, frame) == Rejection::UnknownTicket.spec_message(),
{
}

/// A ticket handed out in a `Set-Cookie` header and sent back in the next
/// request's `Cookie` header is recognized: admission takes the reconnect
/// path, leaves the registry as it is and sends no new cookie.
pub proof fn lemma_returning_ticket_reconnects(
    registry: Map<u128, Connection>,
    returned_header: Seq<char>,
    ticket: u128,
    fresh: u128,
)
    requires
        presented_ticket(Some(returned_header)) == Some(ticket),
        registry.contains_key(ticket),
    ensures
        resolved_ticket(Some(returned_header), fresh) == ticket,
        spec_admit(registry, resolved_ticket(Some(returned_header), fresh)) == registry,
        spec_set_cookie_for(registry, resolved_ticket(Some(returned_header), fresh)) is None,
{
}

} // verus!
