use sock::envelope::{parse, parse_text};
use sock::{
    admit_request, attach_ticket, extract_ticket, find_cookie, Admission, DumbTicketStamper,
    Frame, Player, Registry, Rejection, Session, SessionState, Ticket,
};

const KNOWN: &str = "67e55044-10b1-426f-9247-bb680e5fe0c8";

fn returned_pair(set_cookie: &str) -> String {
    set_cookie.split(';').next().unwrap().to_string()
}

#[test]
fn new_client_gets_cookie_and_is_acknowledged() {
    let mut registry = Registry::new();
    let mut session = Session::new(DumbTicketStamper::new());
    let set_cookie = session.on_request(&mut registry, None).expect("a new cookie");
    assert!(set_cookie.starts_with("bzwf_anon_wstx="));
    assert!(set_cookie.ends_with("; Path=/"));
    assert_eq!(registry.len(), 1);
    let pair = returned_pair(&set_cookie);
    let ticket = extract_ticket(Some(pair.as_str())).expect("ticket reads back");
    assert!(registry.contains(ticket));
    session.on_open();
    let frame = Frame::Text(format!("move-north {}", ticket.to_text()));
    assert_eq!(session.on_message(&registry, &frame), "gotcha, you want to move-north");
    assert_eq!(registry.len(), 1);
}

#[test]
fn valid_unknown_cookie_is_admitted_as_new() {
    let mut registry = Registry::new();
    let header = format!("bzwf_anon_wstx={}", KNOWN);
    let fresh = Ticket { bits: 7 };
    let set_cookie = admit_request(&mut registry, Some(header.as_str()), fresh);
    assert_eq!(set_cookie, Some(format!("bzwf_anon_wstx={}; Path=/", KNOWN)));
    let t = Ticket::parse(KNOWN).unwrap();
    assert!(registry.contains(t));
    assert!(!registry.contains(fresh));
    assert_eq!(registry.len(), 1);
}

#[test]
fn unregistered_ticket_is_refused() {
    let mut registry = Registry::new();
    registry.admit_ticket(Ticket { bits: 1 });
    let session = Session::new(DumbTicketStamper::new());
    let frame = Frame::Text(format!("move-north {}", KNOWN));
    assert_eq!(session.on_message(&registry, &frame), "unknown ticket");
    assert_eq!(registry.len(), 1);
    assert!(!registry.contains(Ticket::parse(KNOWN).unwrap()));
}

#[test]
fn unregistered_ticket_is_refused_for_any_action() {
    let registry = Registry::new();
    let session = Session::new(DumbTicketStamper::new());
    for action in ["move-north", "pick-up", "x"] {
        let frame = Frame::Text(format!("{} {}", action, KNOWN));
        assert_eq!(session.on_message(&registry, &frame), "unknown ticket");
    }
}

#[test]
fn reconnect_keeps_single_entry() {
    let mut registry = Registry::new();
    let t = Ticket::parse(KNOWN).unwrap();
    assert_eq!(registry.admit_ticket(t), Admission::Admitted);
    let before = registry.get(t).unwrap();
    let header = format!("other=1; bzwf_anon_wstx={}", KNOWN);
    let set_cookie = admit_request(&mut registry, Some(header.as_str()), Ticket { bits: 9 });
    assert_eq!(set_cookie, None);
    assert_eq!(registry.len(), 1);
    assert_eq!(registry.get(t), Some(before));
    assert_eq!(registry.get(t).unwrap().player, Player::Anonymous);
    assert_eq!(registry.admit_ticket(t), Admission::Reconnected);
    assert_eq!(registry.len(), 1);
}

#[test]
fn attached_ticket_round_trips_to_reconnect() {
    let mut registry = Registry::new();
    let t = Ticket { bits: 0x0123_4567_89ab_cdef_0123_4567_89ab_cdef };
    let set_cookie = attach_ticket(t);
    let pair = returned_pair(&set_cookie);
    assert_eq!(extract_ticket(Some(pair.as_str())), Some(t));
    assert!(admit_request(&mut registry, Some(pair.as_str()), Ticket { bits: 5 }).is_some());
    assert_eq!(admit_request(&mut registry, Some(pair.as_str()), Ticket { bits: 6 }), None);
    assert_eq!(registry.len(), 1);
    assert!(registry.contains(t));
}

#[test]
fn concurrent_first_requests_give_distinct_entries() {
    let mut registry = Registry::new();
    let mut cookies: Vec<String> = Vec::new();
    for _ in 0..50 {
        let mut session = Session::new(DumbTicketStamper::new());
        cookies.push(session.on_request(&mut registry, None).unwrap());
    }
    assert_eq!(registry.len(), 50);
    let mut sorted = cookies.clone();
    sorted.sort();
    sorted.dedup();
    assert_eq!(sorted.len(), 50);
}

#[test]
fn malformed_cookie_gets_fresh_ticket() {
    let mut registry = Registry::new();
    let fresh = Ticket { bits: 42 };
    let set_cookie = admit_request(&mut registry, Some("bzwf_anon_wstx=not-a-uuid"), fresh);
    assert_eq!(set_cookie, Some(attach_ticket(fresh)));
    assert!(registry.contains(fresh));
    assert_eq!(admit_request(&mut registry, None, fresh), None);
    assert_eq!(registry.len(), 1);
}

#[test]
fn parser_rejections() {
    assert_eq!(parse_text("").err(), Some(Rejection::ArityMismatch));
    assert_eq!(parse_text("move-north").err(), Some(Rejection::ArityMismatch));
    assert_eq!(parse_text("move-north not-a-uuid").err(), Some(Rejection::TicketMalformed));
    let three = format!("move-north {} extra", KNOWN);
    assert_eq!(parse_text(&three).err(), Some(Rejection::ArityMismatch));
    assert_eq!(parse(&Frame::Binary(vec![1, 2, 3])).err(), Some(Rejection::ParseFailed));
}

#[test]
fn parser_reads_action_and_ticket() {
    let text = format!("  move-north \t {}\n", KNOWN);
    let env = parse_text(&text).unwrap();
    assert_eq!(env.action, "move-north");
    assert_eq!(env.ticket, Ticket::parse(KNOWN).unwrap());
    assert_eq!(env.ticket.bits, 0x67e55044_10b1_426f_9247_bb680e5fe0c8);
}

#[test]
fn parse_errors_are_sent_back() {
    let mut registry = Registry::new();
    registry.admit_ticket(Ticket::parse(KNOWN).unwrap());
    let session = Session::new(DumbTicketStamper::new());
    assert_eq!(session.on_message(&registry, &Frame::Text("jump".to_string())), "expected an action and a ticket");
    assert_eq!(session.on_message(&registry, &Frame::Text("jump 123".to_string())), "malformed ticket");
    assert_eq!(session.on_message(&registry, &Frame::Binary(vec![0])), "could not decode frame");
}

#[test]
fn find_cookie_picks_named_pair() {
    assert_eq!(find_cookie("a=1; bzwf_anon_wstx=xyz; c=3", "bzwf_anon_wstx"), Some("xyz"));
    assert_eq!(find_cookie("a=1;c=3", "c"), Some("3"));
    assert_eq!(find_cookie("a=1; c=3", "b"), None);
    assert_eq!(find_cookie("bzwf_anon_wstxx=1", "bzwf_anon_wstx"), None);
    assert_eq!(find_cookie("", "a"), None);
    assert_eq!(find_cookie("a=1; a=2", "a"), Some("1"));
    assert_eq!(find_cookie("a=", "a"), Some(""));
}

#[test]
fn ticket_text_is_canonical() {
    let t = Ticket { bits: 0x67e55044_10b1_426f_9247_bb680e5fe0c8 };
    assert_eq!(t.to_text(), KNOWN);
    assert_eq!(Ticket::parse("67E5504410B1426F9247BB680E5FE0C8"), Some(t));
    assert_eq!(Ticket::parse("nope"), None);
    assert_ne!(Ticket::generate(), Ticket::generate());
}

#[test]
fn session_states() {
    let mut session = Session::new(DumbTicketStamper::new());
    assert_eq!(session.state, SessionState::Unopened);
    session.on_open();
    assert_eq!(session.state, SessionState::Open);
    session.on_close();
    assert_eq!(session.state, SessionState::Closed);
    session.on_open();
    assert_eq!(session.state, SessionState::Closed);
    let mut other = Session::new(DumbTicketStamper::new());
    other.on_error();
    assert_eq!(other.state, SessionState::Closed);
}

#[test]
fn connection_label_names_ticket() {
    let t = Ticket::parse(KNOWN).unwrap();
    let c = sock::Connection::new(t, Player::anonymous());
    assert_eq!(c.label(), format!("conn{{{}}}", KNOWN));
}
