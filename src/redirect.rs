//! Following HTTP redirects: one decision per response received.
use vstd::prelude::*;

use crate::text::{eq_ignore_case, str_eq_ignore_case};

verus! {

/// Redirects followed for one download at most.
pub const MAX_HTTP_REDIRECTS: usize = 10;

/// One request header.
pub struct Header {
    pub name: String,
    pub value: String,
}

impl View for Header {
    type V = (Seq<char>, Seq<char>);

    open spec fn view(&self) -> (Seq<char>, Seq<char>) {
        (self.name@, self.value@)
    }
}

pub open spec fn headers_view(headers: Seq<Header>) -> Seq<(Seq<char>, Seq<char>)> {
    headers.map_values(|h: Header| h@)
}

pub open spec fn is_host(name: Seq<char>) -> bool {
    eq_ignore_case(name, seq!['h', 'o', 's', 't'])
}

/// The headers sent again to the target of a redirect: all but `Host`.
pub open spec fn forwarded(headers: Seq<(Seq<char>, Seq<char>)>) -> Seq<(Seq<char>, Seq<char>)> {
    headers.filter(|h: (Seq<char>, Seq<char>)| !is_host(h.0))
}

pub open spec fn is_redirection(status: u16) -> bool {
    300 <= status <= 399
}

/// Whether a response is followed, with `budget` redirects left.
pub open spec fn follows(status: u16, location: Option<Seq<char>>, budget: nat) -> bool {
    is_redirection(status) && budget > 0 && location.is_some()
}

pub open spec fn location_view(location: Option<&str>) -> Option<Seq<char>> {
    match location {
        Some(l) => Some(l@),
        None => None,
    }
}

/// What to do with a response.
pub enum RedirectStep {
    /// Send a GET to `url` with these headers; one redirect less is left.
    Follow { url: String, headers: Vec<Header> },
    /// This response is the answer.
    Done,
}

fn is_host_header(name: &str) -> (r: bool)
    ensures
        r == is_host(name@),
{
    proof {
        reveal_strlit("host");
    }
    let r = str_eq_ignore_case(name, "host");
    assert("host"@ =~= seq!['h', 'o', 's', 't']);
    r
}

fn forward_headers(headers: &Vec<Header>) -> (r: Vec<Header>)
    ensures
        headers_view(r@) == forwarded(headers_view(headers@)),
{
    let mut r: Vec<Header> = Vec::new();
    let mut i: usize = 0;
    while i < headers.len()
        invariant
            i <= headers@.len(),
            headers_view(r@) == forwarded(headers_view(headers@.subrange(0, i as int))),
        decreases headers@.len() - i,
    {
        let h = &headers[i];
        let ghost prefix = headers_view(headers@.subrange(0, i as int));
        let ghost next = headers_view(headers@.subrange(0, i + 1));
        assert(next =~= prefix.push(h@));
        proof {
            prefix.lemma_filter_push(h@, |h: (Seq<char>, Seq<char>)| !is_host(h.0));
        }
        if !is_host_header(h.name.as_str()) {
            let ghost before = r@;
            r.push(Header { name: h.name.clone(), value: h.value.clone() });
            assert(headers_view(r@) =~= headers_view(before).push(h@));
        }
        i = i + 1;
    }
    assert(headers@.subrange(0, i as int) =~= headers@);
    r
}

/// Decides on a response of status `status`, with `Location` header
/// `location`, to a request sent with `headers`, when `max_redirects`
/// redirects may still be followed.
pub fn follow_redirects(
    status: u16,
    location: Option<&str>,
    headers: &Vec<Header>,
    max_redirects: usize,
) -> (r: RedirectStep)
    ensures
        match r {
            RedirectStep::Follow { url, headers: sent } => {
                &&& follows(status, location_view(location), max_redirects as nat)
                &&& url@ == location.unwrap()@
                &&& headers_view(sent@) == forwarded(headers_view(headers@))
            },
            RedirectStep::Done => !follows(status, location_view(location), max_redirects as nat),
        },
{
    if 300 <= status && status <= 399 && max_redirects > 0 {
        if let Some(l) = location {
            return RedirectStep::Follow { url: l.to_string(), headers: forward_headers(headers) };
        }
    }
    RedirectStep::Done
}

/// What a chain of responses comes to, each answering the redirect before it:
/// the first response that is not followed.
pub open spec fn final_status(
    chain: Seq<(u16, Option<Seq<char>>)>,
    budget: nat,
) -> u16
    decreases chain.len(),
{
    if chain.len() <= 1 || !follows(chain[0].0, chain[0].1, budget) {
        chain[0].0
    } else {
        final_status(chain.drop_first(), (budget - 1) as nat)
    }
}

/// A redirect to a response is answered as that response would be without
/// the redirect, and the headers sent on are those of the first request but `Host`.
pub proof fn lemma_redirect_transparent(
    redirect_status: u16,
    location: Seq<char>,
    answer: (u16, Option<Seq<char>>),
    budget: nat,
    headers: Seq<(Seq<char>, Seq<char>)>,
)
    requires
        is_redirection(redirect_status),
        budget > 0,
        !is_redirection(answer.0),
    ensures
        final_status(seq![(redirect_status, Some(location)), answer], budget) == final_status(
            seq![answer],
            (budget - 1) as nat,
        ),
        final_status(seq![answer], (budget - 1) as nat) == answer.0,
        forall|i: int| 0 <= i < forwarded(headers).len() ==> !is_host(#[trigger] forwarded(headers)[i].0),
{
    let chain = seq![(redirect_status, Some(location)), answer];
    assert(chain.drop_first() =~= seq![answer]);
    assert forall|i: int| 0 <= i < forwarded(headers).len() implies !is_host(#[trigger] forwarded(headers)[i].0) by {
        headers.lemma_filter_pred(|h: (Seq<char>, Seq<char>)| !is_host(h.0), i);
    }
}

} // verus!
