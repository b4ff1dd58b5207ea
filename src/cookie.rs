//! The identity cookie: finding it in a request's `Cookie` header and
//! writing it into a response's `Set-Cookie` header.
use vstd::prelude::*;
use crate::ticket::{Ticket, uuid_parse, uuid_text, is_uuid_char};

verus! {

/// The name of the cookie that carries the identity ticket.
pub open spec fn spec_cookie_name() -> Seq<char> {
    "bzwf_anon_wstx"@
}

/// The name of the cookie that carries the identity ticket.
pub fn cookie_name() -> (r: &'static str)
    ensures
        r@ == spec_cookie_name(),
{
    "bzwf_anon_wstx"
}

/// The first position at or after `i` that is not a space.
pub open spec fn skip_spaces(h: Seq<char>, i: int) -> int
    decreases h.len() - i,
{
    if 0 <= i < h.len() && h[i] == ' ' {
        skip_spaces(h, i + 1)
    } else {
        i
    }
}

/// The position of the first `;` at or after `i`, or the end of `h`.
pub open spec fn seg_end(h: Seq<char>, i: int) -> int
    decreases h.len() - i,
{
    if 0 <= i < h.len() && h[i] != ';' {
        seg_end(h, i + 1)
    } else {
        i
    }
}

/// Whether the pair that starts at `s` and ends at `e` has the key `name`.
pub open spec fn key_at(h: Seq<char>, name: Seq<char>, s: int, e: int) -> bool {
    &&& s + name.len() + 1 <= e
    &&& h.subrange(s, s + name.len()) == name
    &&& h[s + name.len()] == '='
}

/// The value of the first pair named `name` among the `;`-separated
/// `key=value` pairs of `h` from position `i` on (leading spaces of a pair
/// are skipped).
pub open spec fn lookup_from(h: Seq<char>, name: Seq<char>, i: int) -> Option<Seq<char>>
    decreases h.len() - i,
{
    let s = skip_spaces(h, i);
    let e = seg_end(h, s);
    if key_at(h, name, s, e) {
        Some(h.subrange(s + name.len() + 1, e))
    } else if i <= e < h.len() {
        lookup_from(h, name, e + 1)
    } else {
        None
    }
}

/// The value of the cookie `name` in a `Cookie` header.
pub open spec fn cookie_lookup(h: Seq<char>, name: Seq<char>) -> Option<Seq<char>> {
    lookup_from(h, name, 0)
}

proof fn lemma_skip_spaces_bounds(h: Seq<char>, i: int)
    requires
        0 <= i <= h.len(),
    ensures
        i <= skip_spaces(h, i) <= h.len(),
        seg_end(h, skip_spaces(h, i)) == seg_end(h, i),
    decreases h.len() - i,
{
    if i < h.len() && h[i] == ' ' {
        lemma_skip_spaces_bounds(h, i + 1);
    }
}

proof fn lemma_seg_end_bounds(h: Seq<char>, i: int)
    requires
        0 <= i <= h.len(),
    ensures
        i <= seg_end(h, i) <= h.len(),
    decreases h.len() - i,
{
    if i < h.len() && h[i] != ';' {
        lemma_seg_end_bounds(h, i + 1);
    }
}

/// A segment ends at `e` when no `;` comes before it and `e` is a `;` or
/// the end.
proof fn lemma_seg_end_at(h: Seq<char>, i: int, e: int)
    requires
        0 <= i <= e <= h.len(),
        forall|j: int| i <= j < e ==> h[j] != ';',
        e == h.len() || h[e] == ';',
    ensures
        seg_end(h, i) == e,
    decreases e - i,
{
    if i < e {
        lemma_seg_end_at(h, i + 1, e);
    }
}

/// Finds the value of the cookie `name` in a `Cookie` header.
pub fn find_cookie<'a>(header: &'a str, name: &str) -> (r: Option<&'a str>)
    ensures
        match r {
            Some(v) => cookie_lookup(header@, name@) == Some(v@),
            None => cookie_lookup(header@, name@) is None,
        },
{
    let ghost h = header@;
    let n = header.unicode_len();
    let k = name.unicode_len();
    let mut i: usize = 0;
    loop
        invariant
            n == h.len(),
            k == name@.len(),
            h == header@,
            0 <= i <= n,
            lookup_from(h, name@, i as int) == cookie_lookup(h, name@),
        decreases n - i,
    {
        let mut s: usize = i;
        while s < n && header.get_char(s) == ' '
            invariant
                n == h.len(),
                h == header@,
                i <= s <= n,
                skip_spaces(h, i as int) == skip_spaces(h, s as int),
            decreases n - s,
        {
            s = s + 1;
        }
        let mut e: usize = s;
        while e < n && header.get_char(e) != ';'
            invariant
                n == h.len(),
                h == header@,
                s <= e <= n,
                seg_end(h, s as int) == seg_end(h, e as int),
            decreases n - e,
        {
            e = e + 1;
        }
        assert(skip_spaces(h, i as int) == s);
        assert(seg_end(h, s as int) == e);
        proof {
            lemma_skip_spaces_bounds(h, i as int);
        }
        let mut matched = k < e - s;
        if matched {
            let mut same = true;
            let mut j: usize = 0;
            while j < k
                invariant
                    n == h.len(),
                    h == header@,
                    k == name@.len(),
                    s + k < e <= n,
                    j <= k,
                    same <==> forall|q: int| 0 <= q < j ==> h[s + q] == name@[q],
                decreases k - j,
            {
                if header.get_char(s + j) != name.get_char(j) {
                    same = false;
                }
                j = j + 1;
            }
            proof {
                let sub = h.subrange(s as int, s + k);
                if same {
                    assert(sub =~= name@);
                } else {
                    let q = choose|q: int| 0 <= q < k && h[s + q] != name@[q];
                    assert(sub[q] != name@[q]);
                }
            }
            matched = same && header.get_char(s + k) == '=';
        }
        if matched {
            return Some(header.substring_char(s + k + 1, e));
        }
        if e >= n {
            return None;
        }
        i = e + 1;
    }
}

/// The `Set-Cookie` header value that hands the client the ticket `bits`.
pub open spec fn spec_set_cookie(bits: u128) -> Seq<char> {
    spec_cookie_name() + "="@ + uuid_text(bits) + "; Path=/"@
}

/// The `name=value` pair that a client keeps from a `Set-Cookie` header and
/// sends back in its `Cookie` header: all before the first `;`.
pub open spec fn cookie_pair(set_cookie: Seq<char>) -> Seq<char> {
    set_cookie.subrange(0, seg_end(set_cookie, 0))
}

/// The ticket that a request presents: the identity cookie's value, where
/// there is one and it reads as a UUID.
pub open spec fn presented_ticket(header: Option<Seq<char>>) -> Option<u128> {
    match header {
        Some(h) => match cookie_lookup(h, spec_cookie_name()) {
            Some(v) => uuid_parse(v),
            None => None,
        },
        None => None,
    }
}

/// Reads the identity ticket from a request's `Cookie` header.  An absent
/// header, an absent cookie and a value that is not a UUID all give `None`.
pub fn extract_ticket(header: Option<&str>) -> (r: Option<Ticket>)
    ensures
        r == (match presented_ticket(
            match header {
                Some(h) => Some(h@),
                None => None,
            },
        ) {
            Some(b) => Some(Ticket { bits: b }),
            None => None,
        }),
{
    match header {
        Some(h) => match find_cookie(h, cookie_name()) {
            Some(v) => Ticket::parse(v),
            None => None,
        },
        None => None,
    }
}

/// The `Set-Cookie` header value that hands the client `ticket`.
pub fn attach_ticket(ticket: Ticket) -> (r: String)
    ensures
        r@ == spec_set_cookie(ticket.bits),
        presented_ticket(Some(cookie_pair(r@))) == Some(ticket.bits),
{
    let text = ticket.to_text();
    proof {
        lemma_cookie_pair(ticket.bits);
    }
    let mut r = String::from_str(cookie_name());
    r.append("=");
    r.append(text.as_str());
    r.append("; Path=/");
    r
}

/// The pair kept from the `Set-Cookie` header is the identity cookie with
/// the ticket's text as its value, when that text holds no `;`.
proof fn lemma_cookie_pair(bits: u128)
    requires
        forall|i: int| 0 <= i < uuid_text(bits).len() ==> is_uuid_char(#[trigger] uuid_text(bits)[i]),
    ensures
        cookie_lookup(cookie_pair(spec_set_cookie(bits)), spec_cookie_name()) == Some(uuid_text(bits)),
{
    reveal_strlit("bzwf_anon_wstx");
    reveal_strlit("=");
    reveal_strlit("; Path=/");
    let name = spec_cookie_name();
    let text = uuid_text(bits);
    let sc = spec_set_cookie(bits);
    let k = name.len() as int;
    let p = name + "="@ + text;
    assert forall|j: int| 0 <= j < p.len() implies p[j] != ';' by {
        if j > k {
            assert(p[j] == text[j - k - 1]);
            assert(is_uuid_char(text[j - k - 1]));
        }
    }
    assert(sc[p.len() as int] == ';');
    assert forall|j: int| 0 <= j < p.len() implies sc[j] != ';' by {
        assert(sc[j] == p[j]);
    }
    lemma_seg_end_at(sc, 0, p.len() as int);
    assert(cookie_pair(sc) =~= p);
    lemma_seg_end_at(p, 0, p.len() as int);
    assert(skip_spaces(p, 0) == 0);
    assert(p.subrange(0, k as int) =~= name);
    assert(p.subrange(k + 1, p.len() as int) =~= text);
    assert(cookie_lookup(p, name) == Some(text));
}

} // verus!
