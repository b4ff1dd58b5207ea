//! The action envelope: an inbound text frame read as an action token
//! followed by the ticket that the sender claims.
use vstd::prelude::*;
use crate::ticket::{Ticket, uuid_parse};

verus! {

/// Why an inbound frame was turned away.
#[derive(Clone, Copy, Debug, PartialEq, Eq, Structural)]
pub enum Rejection {
    /// The frame could not be decoded at all (it was not text).
    ParseFailed,
    /// The frame did not hold exactly two tokens.
    ArityMismatch,
    /// The second token is not a UUID.
    TicketMalformed,
    /// The claimed ticket is not registered.
    UnknownTicket,
}

impl Rejection {
    /// The error text sent back to the client.
    pub fn message(&self) -> (r: String)
        ensures
            r@ == self.spec_message(),
    {
        match self {
            Rejection::ParseFailed => String::from_str("could not decode frame"),
            Rejection::ArityMismatch => String::from_str("expected an action and a ticket"),
            Rejection::TicketMalformed => String::from_str("malformed ticket"),
            Rejection::UnknownTicket => String::from_str("unknown ticket"),
        }
    }

    pub open spec fn spec_message(&self) -> Seq<char> {
        match self {
            Rejection::ParseFailed => "could not decode frame"@,
            Rejection::ArityMismatch => "expected an action and a ticket"@,
            Rejection::TicketMalformed => "malformed ticket"@,
            Rejection::UnknownTicket => "unknown ticket"@,
        }
    }
}

/// An inbound websocket frame.
pub enum Frame {
    Text(String),
    Binary(Vec<u8>),
}

/// A decoded frame: the action asked for and the ticket claimed.
pub struct Envelope {
    pub action: String,
    pub ticket: Ticket,
}

/// The characters that separate tokens.
pub open spec fn is_space(c: char) -> bool {
    c == ' ' || c == '\t' || c == '\n' || c == '\r'
}

/// The start and end of each maximal run of non-space characters of `s`,
/// from left to right.
pub open spec fn spans(s: Seq<char>) -> Seq<(int, int)>
    decreases s.len(),
{
    if s.len() == 0 {
        Seq::empty()
    } else {
        let p = s.drop_last();
        let sp = spans(p);
        if is_space(s.last()) {
            sp
        } else if p.len() > 0 && !is_space(p.last()) && sp.len() > 0 {
            sp.update(sp.len() - 1, (sp.last().0, s.len() as int))
        } else {
            sp.push((p.len() as int, s.len() as int))
        }
    }
}

/// The whitespace-separated tokens of `s`.
pub open spec fn tokens(s: Seq<char>) -> Seq<Seq<char>> {
    spans(s).map_values(|p: (int, int)| s.subrange(p.0, p.1))
}

/// What a text frame decodes to: the action text and the ticket's bits.
pub open spec fn spec_parse_text(s: Seq<char>) -> Result<(Seq<char>, u128), Rejection> {
    let ts = tokens(s);
    if ts.len() != 2 {
        Err(Rejection::ArityMismatch)
    } else {
        match uuid_parse(ts[1]) {
            Some(b) => Ok((ts[0], b)),
            None => Err(Rejection::TicketMalformed),
        }
    }
}

/// Each span lies within `s`, and a text that ends in a non-space ends
/// with a span that reaches its end.
proof fn lemma_spans(s: Seq<char>)
    ensures
        forall|j: int|
            0 <= j < spans(s).len() ==> 0 <= (#[trigger] spans(s)[j]).0 < spans(s)[j].1 <= s.len(),
        s.len() > 0 && !is_space(s.last()) ==> spans(s).len() > 0 && spans(s).last().1 == s.len(),
    decreases s.len(),
{
    if s.len() > 0 {
        let p = s.drop_last();
        lemma_spans(p);
        let sp = spans(p);
        assert forall|j: int| 0 <= j < spans(s).len() implies 0 <= (#[trigger] spans(s)[j]).0
            < spans(s)[j].1 <= s.len() by {
            if j < sp.len() {
                assert(0 <= sp[j].0 < sp[j].1 <= p.len());
            }
        }
    }
}

fn is_space_char(c: char) -> (b: bool)
    ensures
        b == is_space(c),
{
    c == ' ' || c == '\t' || c == '\n' || c == '\r'
}

/// The spans of the tokens of `s`, as start and end positions.
fn token_spans(s: &str) -> (r: (Vec<usize>, Vec<usize>))
    ensures
        r.0@.len() == spans(s@).len(),
        r.1@.len() == spans(s@).len(),
        forall|j: int|
            0 <= j < spans(s@).len() ==> r.0@[j] == (#[trigger] spans(s@)[j]).0 && r.1@[j]
                == spans(s@)[j].1,
{
    let n = s.unicode_len();
    let mut starts: Vec<usize> = Vec::new();
    let mut ends: Vec<usize> = Vec::new();
    let mut i: usize = 0;
    while i < n
        invariant
            n == s@.len(),
            i <= n,
            starts@.len() == spans(s@.subrange(0, i as int)).len(),
            ends@.len() == spans(s@.subrange(0, i as int)).len(),
            forall|j: int|
                0 <= j < spans(s@.subrange(0, i as int)).len() ==> starts@[j] == (#[trigger] spans(
                    s@.subrange(0, i as int),
                )[j]).0 && ends@[j] == spans(s@.subrange(0, i as int))[j].1,
        decreases n - i,
    {
        let ghost p = s@.subrange(0, i as int);
        let ghost t = s@.subrange(0, i + 1);
        assert(t.drop_last() =~= p);
        proof {
            lemma_spans(p);
        }
        let c = s.get_char(i);
        if is_space_char(c) {
        } else if i > 0 && !is_space_char(s.get_char(i - 1)) {
            assert(p.last() == s@[i - 1]);
            let last = ends.len() - 1;
            ends.set(last, i + 1);
        } else {
            starts.push(i);
            ends.push(i + 1);
        }
        assert(spans(t) == spans(s@.subrange(0, i + 1)));
        i = i + 1;
    }
    assert(s@.subrange(0, n as int) =~= s@);
    (starts, ends)
}

/// Decodes a text frame into its action and claimed ticket.
pub fn parse_text(s: &str) -> (r: Result<Envelope, Rejection>)
    ensures
        match r {
            Ok(e) => spec_parse_text(s@) == Ok::<(Seq<char>, u128), Rejection>((e.action@, e.ticket.bits)),
            Err(x) => spec_parse_text(s@) == Err::<(Seq<char>, u128), Rejection>(x),
        },
{
    let (starts, ends) = token_spans(s);
    proof {
        lemma_spans(s@);
    }
    if starts.len() != 2 {
        return Err(Rejection::ArityMismatch);
    }
    assert(starts@[0] == spans(s@)[0].0 && ends@[0] == spans(s@)[0].1);
    assert(starts@[1] == spans(s@)[1].0 && ends@[1] == spans(s@)[1].1);
    let action = s.substring_char(starts[0], ends[0]);
    let claimed = s.substring_char(starts[1], ends[1]);
    assert(tokens(s@)[0] == action@);
    assert(tokens(s@)[1] == claimed@);
    match Ticket::parse(claimed) {
        Some(t) => Ok(Envelope { action: String::from_str(action), ticket: t }),
        None => Err(Rejection::TicketMalformed),
    }
}

/// What a frame decodes to; a frame that is not text cannot be decoded.
pub open spec fn spec_parse(frame: &Frame) -> Result<(Seq<char>, u128), Rejection> {
    match frame {
        Frame::Text(t) => spec_parse_text(t@),
        Frame::Binary(_) => Err(Rejection::ParseFailed),
    }
}

/// Decodes an inbound frame into its action and claimed ticket.
pub fn parse(frame: &Frame) -> (r: Result<Envelope, Rejection>)
    ensures
        match r {
            Ok(e) => spec_parse(frame) == Ok::<(Seq<char>, u128), Rejection>((e.action@, e.ticket.bits)),
            Err(x) => spec_parse(frame) == Err::<(Seq<char>, u128), Rejection>(x),
        },
{
    match frame {
        Frame::Text(t) => parse_text(t.as_str()),
        Frame::Binary(_) => Err(Rejection::ParseFailed),
    }
}

/// A frame with fewer than two tokens, or whose second token is not a
/// UUID, is turned away by the parser.
pub proof fn lemma_parse_rejects(s: Seq<char>)
    requires
        tokens(s).len() < 2 || uuid_parse(tokens(s)[1]) is None,
    ensures
        spec_parse_text(s) is Err,
{
}

} // verus!
