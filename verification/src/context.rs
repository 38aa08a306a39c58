//! Request and response value objects and their header model.
//!
//! Headers are an ordered list of name/value pairs; a later write of the same
//! name wins over an earlier one. The abstract value of a header list is a
//! sequence of character-sequence pairs, and `header_lookup` gives the value
//! that last-write-wins resolution assigns to a name.

use vstd::prelude::*;
use crate::strcmp::str_eq;

verus! {

/// Abstract value of a request: path, headers in write order, and the
/// opaque correlation identifier carried for tracing.
pub ghost struct ReqView {
    pub path: Seq<char>,
    pub headers: Seq<(Seq<char>, Seq<char>)>,
    pub correlation: u64,
}

/// Abstract value of a response: status code and headers in write order.
pub ghost struct RespView {
    pub status: u16,
    pub headers: Seq<(Seq<char>, Seq<char>)>,
}

/// The abstract value of a concrete header list.
pub open spec fn headers_view(hs: Seq<(String, String)>) -> Seq<(Seq<char>, Seq<char>)> {
    hs.map_values(|p: (String, String)| (p.0@, p.1@))
}

/// Last-write-wins resolution: the value of the latest pair whose name matches.
pub open spec fn header_lookup(hs: Seq<(Seq<char>, Seq<char>)>, name: Seq<char>) -> Option<
    Seq<char>,
>
    decreases hs.len(),
{
    if hs.len() == 0 {
        None
    } else if hs.last().0 == name {
        Some(hs.last().1)
    } else {
        header_lookup(hs.drop_last(), name)
    }
}

/// The header list with every pair of the given name taken out.
pub open spec fn header_remove(
    hs: Seq<(Seq<char>, Seq<char>)>,
    name: Seq<char>,
) -> Seq<(Seq<char>, Seq<char>)>
    decreases hs.len(),
{
    if hs.len() == 0 {
        hs
    } else {
        let rest = header_remove(hs.drop_last(), name);
        if hs.last().0 == name {
            rest
        } else {
            rest.push(hs.last())
        }
    }
}

/// Removal erases the removed name and resolves every other name as before.
pub proof fn lemma_header_remove_lookup(
    hs: Seq<(Seq<char>, Seq<char>)>,
    name: Seq<char>,
    other: Seq<char>,
)
    ensures
        header_lookup(header_remove(hs, name), name) is None,
        other != name ==> header_lookup(header_remove(hs, name), other) == header_lookup(
            hs,
            other,
        ),
    decreases hs.len(),
{
    if hs.len() > 0 {
        lemma_header_remove_lookup(hs.drop_last(), name, other);
        let rest = header_remove(hs.drop_last(), name);
        if hs.last().0 != name {
            assert(rest.push(hs.last()).drop_last() =~= rest);
        }
    }
}

/// Writing a header resolves its own name to the new value and leaves every
/// other name as it was.
pub proof fn lemma_header_push_lookup(
    hs: Seq<(Seq<char>, Seq<char>)>,
    name: Seq<char>,
    value: Seq<char>,
    other: Seq<char>,
)
    ensures
        header_lookup(hs.push((name, value)), name) == Some(value),
        other != name ==> header_lookup(hs.push((name, value)), other) == header_lookup(
            hs,
            other,
        ),
{
    assert(hs.push((name, value)).drop_last() =~= hs);
}

/// Finds the value that last-write-wins resolution assigns to `name`.
fn lookup_pairs<'a>(hs: &'a Vec<(String, String)>, name: &str) -> (r: Option<&'a String>)
    ensures
        match r {
            Some(v) => header_lookup(headers_view(hs@), name@) == Some(v@),
            None => header_lookup(headers_view(hs@), name@) is None,
        },
{
    let ghost hv = headers_view(hs@);
    let mut j: usize = hs.len();
    proof {
        assert(hv.take(j as int) =~= hv);
    }
    while j > 0
        invariant
            j <= hs@.len(),
            hv == headers_view(hs@),
            header_lookup(hv.take(j as int), name@) == header_lookup(hv, name@),
        decreases j,
    {
        let k = j - 1;
        proof {
            assert(hv.take(k as int + 1).drop_last() =~= hv.take(k as int));
            assert(hv.take(k as int + 1).last() == hv[k as int]);
        }
        if str_eq(hs[k].0.as_str(), name) {
            return Some(&hs[k].1);
        }
        j = k;
    }
    proof {
        assert(hv.take(0).len() == 0);
    }
    None
}

/// Takes every pair named `name` out of the list.
fn remove_pairs(hs: &mut Vec<(String, String)>, name: &str)
    ensures
        headers_view(final(hs)@) == header_remove(headers_view(old(hs)@), name@),
{
    let ghost hv = headers_view(old(hs)@);
    let mut out: Vec<(String, String)> = Vec::new();
    let mut i: usize = 0;
    proof {
        assert(hv.take(0).len() == 0);
        assert(headers_view(out@) =~= header_remove(hv.take(0), name@));
    }
    while i < hs.len()
        invariant
            0 <= i <= hs@.len(),
            hv == headers_view(hs@),
            headers_view(out@) == header_remove(hv.take(i as int), name@),
        decreases hs@.len() - i,
    {
        proof {
            assert(hv.take(i as int + 1).drop_last() =~= hv.take(i as int));
            assert(hv.take(i as int + 1).last() == hv[i as int]);
        }
        let keep = !str_eq(hs[i].0.as_str(), name);
        if keep {
            let n = hs[i].0.clone();
            let v = hs[i].1.clone();
            out.push((n, v));
            proof {
                assert(headers_view(out@) =~= header_remove(hv.take(i as int), name@).push(
                    hv[i as int],
                ));
            }
        }
        i = i + 1;
    }
    proof {
        assert(hv.take(hs@.len() as int) =~= hv);
    }
    *hs = out;
}

/// One in-flight request: its path, headers and tracing correlation
/// identifier, owned by the handling task and mutable during the
/// request-filter phase only.
pub struct RequestContext {
    pub path: String,
    pub headers: Vec<(String, String)>,
    pub correlation_id: u64,
}

impl View for RequestContext {
    type V = ReqView;

    open spec fn view(&self) -> ReqView {
        ReqView {
            path: self.path@,
            headers: headers_view(self.headers@),
            correlation: self.correlation_id,
        }
    }
}

impl RequestContext {
    /// A request for the given path with no headers and no correlation yet.
    pub fn new(path: String) -> (c: RequestContext)
        ensures
            c@.path == path@,
            c@.headers.len() == 0,
            c@.correlation == 0,
    {
        let c = RequestContext { path, headers: Vec::new(), correlation_id: 0 };
        proof {
            assert(c@.headers =~= Seq::<(Seq<char>, Seq<char>)>::empty());
        }
        c
    }

    /// The value the headers resolve `name` to, if any.
    pub fn get_header(&self, name: &str) -> (r: Option<&String>)
        ensures
            match r {
                Some(v) => header_lookup(self@.headers, name@) == Some(v@),
                None => header_lookup(self@.headers, name@) is None,
            },
    {
        lookup_pairs(&self.headers, name)
    }

    /// Tags the request with its tracing correlation identifier.
    pub fn set_correlation(&mut self, correlation_id: u64)
        ensures
            final(self)@ == (ReqView { correlation: correlation_id, ..old(self)@ }),
    {
        self.correlation_id = correlation_id;
    }

    /// Writes a header; the new pair wins over every earlier pair of its name.
    pub fn set_header(&mut self, name: String, value: String)
        ensures
            final(self)@ == (ReqView {
                headers: old(self)@.headers.push((name@, value@)),
                ..old(self)@
            }),
    {
        let ghost before = self@.headers;
        self.headers.push((name, value));
        proof {
            assert(self@.headers =~= before.push((
                self.headers@.last().0@,
                self.headers@.last().1@,
            )));
        }
    }

    /// Takes every header of the given name out.
    pub fn remove_header(&mut self, name: &str)
        ensures
            final(self)@ == (ReqView {
                headers: header_remove(old(self)@.headers, name@),
                ..old(self)@
            }),
    {
        remove_pairs(&mut self.headers, name);
    }
}

impl Default for RequestContext {
    /// An empty request: empty path, no headers, no correlation.
    fn default() -> (c: Self)
        ensures
            c@.path.len() == 0,
            c@.headers.len() == 0,
            c@.correlation == 0,
    {
        let c = RequestContext { path: String::new(), headers: Vec::new(), correlation_id: 0 };
        proof {
            assert(c@.headers =~= Seq::<(Seq<char>, Seq<char>)>::empty());
        }
        c
    }
}

/// One response: its status code and headers, mutable during the
/// response-filter phase only.
pub struct ResponseContext {
    pub status: u16,
    pub headers: Vec<(String, String)>,
}

impl View for ResponseContext {
    type V = RespView;

    open spec fn view(&self) -> RespView {
        RespView { status: self.status, headers: headers_view(self.headers@) }
    }
}

impl ResponseContext {
    /// A response with the given status and no headers yet.
    pub fn new(status: u16) -> (c: ResponseContext)
        ensures
            c@.status == status,
            c@.headers.len() == 0,
    {
        let c = ResponseContext { status, headers: Vec::new() };
        proof {
            assert(c@.headers =~= Seq::<(Seq<char>, Seq<char>)>::empty());
        }
        c
    }

    /// The value the headers resolve `name` to, if any.
    pub fn get_header(&self, name: &str) -> (r: Option<&String>)
        ensures
            match r {
                Some(v) => header_lookup(self@.headers, name@) == Some(v@),
                None => header_lookup(self@.headers, name@) is None,
            },
    {
        lookup_pairs(&self.headers, name)
    }

    /// Writes a header; the new pair wins over every earlier pair of its name.
    pub fn set_header(&mut self, name: String, value: String)
        ensures
            final(self)@ == (RespView {
                headers: old(self)@.headers.push((name@, value@)),
                ..old(self)@
            }),
    {
        let ghost before = self@.headers;
        self.headers.push((name, value));
        proof {
            assert(self@.headers =~= before.push((
                self.headers@.last().0@,
                self.headers@.last().1@,
            )));
        }
    }

    /// Takes every header of the given name out.
    pub fn remove_header(&mut self, name: &str)
        ensures
            final(self)@ == (RespView {
                headers: header_remove(old(self)@.headers, name@),
                ..old(self)@
            }),
    {
        remove_pairs(&mut self.headers, name);
    }
}

impl Default for ResponseContext {
    /// An empty response: status zero, no headers.
    fn default() -> (c: Self)
        ensures
            c@.status == 0,
            c@.headers.len() == 0,
    {
        let c = ResponseContext { status: 0, headers: Vec::new() };
        proof {
            assert(c@.headers =~= Seq::<(Seq<char>, Seq<char>)>::empty());
        }
        c
    }
}

} // verus!
