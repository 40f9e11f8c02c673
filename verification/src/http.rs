//! The request and response model the router works on: a method, a
//! path, a list of headers with case-insensitive names, and responses
//! carrying a status, headers and a body. The surrounding connection
//! layer converts to and from its own wire types.

use vstd::prelude::*;

verus! {

/// The request methods the router distinguishes; anything else falls
/// to the not-found branch.
pub enum Method {
    Get,
    Post,
    Options,
    Other,
}

/// The part of a request the router needs: the body is not read until
/// a relay has been decided on.
pub struct RequestHead {
    pub method: Method,
    pub path: String,
    pub headers: Vec<(String, String)>,
}

/// A response: status code, response headers in order, and the body.
pub struct HttpResponse {
    pub status: u16,
    pub headers: Vec<(String, String)>,
    pub body: String,
}

/// The view of a header list: each name and value as a character
/// sequence, in order.
pub open spec fn headers_view(hs: Seq<(String, String)>) -> Seq<(Seq<char>, Seq<char>)> {
    hs.map_values(|h: (String, String)| (h.0@, h.1@))
}

/// The code of `c` with an upper-case ASCII letter folded to lower
/// case; other characters are left as they are.
pub open spec fn lower_code(c: char) -> int {
    if 65 <= c as u32 <= 90 {
        c as u32 + 32
    } else {
        c as int
    }
}

/// Character equality up to ASCII case.
pub open spec fn chars_eq_ci(a: char, b: char) -> bool {
    lower_code(a) == lower_code(b)
}

/// String equality up to ASCII case.
pub open spec fn str_eq_ci(a: Seq<char>, b: Seq<char>) -> bool {
    a.len() == b.len() && forall|i: int| 0 <= i < a.len() ==> chars_eq_ci(a[i], b[i])
}

/// The value of the first header whose name equals `name` up to ASCII
/// case, if any.
pub open spec fn header_lookup(hs: Seq<(Seq<char>, Seq<char>)>, name: Seq<char>) -> Option<
    Seq<char>,
>
    decreases hs.len(),
{
    if hs.len() == 0 {
        None
    } else if str_eq_ci(hs.first().0, name) {
        Some(hs.first().1)
    } else {
        header_lookup(hs.drop_first(), name)
    }
}

/// Compares two string slices for equality up to ASCII case.
pub fn eq_str_ci(a: &str, b: &str) -> (r: bool)
    ensures
        r == str_eq_ci(a@, b@),
{
    let n = a.unicode_len();
    if n != b.unicode_len() {
        return false;
    }
    let mut i: usize = 0;
    while i < n
        invariant
            n == a@.len(),
            n == b@.len(),
            i <= n,
            forall|j: int| 0 <= j < i ==> chars_eq_ci(a@[j], b@[j]),
        decreases n - i,
    {
        let ca = a.get_char(i) as u32;
        let cb = b.get_char(i) as u32;
        let la = if 65 <= ca && ca <= 90 {
            ca + 32
        } else {
            ca
        };
        let lb = if 65 <= cb && cb <= 90 {
            cb + 32
        } else {
            cb
        };
        if la != lb {
            assert(!chars_eq_ci(a@[i as int], b@[i as int]));
            return false;
        }
        i += 1;
    }
    true
}

/// Finds the value of the first header named `name`, comparing names
/// case-insensitively.
pub fn header_value(headers: &Vec<(String, String)>, name: &str) -> (r: Option<String>)
    ensures
        (match r {
            Some(v) => header_lookup(headers_view(headers@), name@) == Some(v@),
            None => header_lookup(headers_view(headers@), name@) is None,
        }),
{
    let ghost hv = headers_view(headers@);
    let n = headers.len();
    let mut i: usize = 0;
    proof {
        assert(hv.skip(0) =~= hv);
    }
    while i < n
        invariant
            n == headers@.len(),
            i <= n,
            hv == headers_view(headers@),
            header_lookup(hv, name@) == header_lookup(hv.skip(i as int), name@),
        decreases n - i,
    {
        proof {
            assert(hv.skip(i as int).first() == hv[i as int]);
            assert(hv[i as int] == (headers@[i as int].0@, headers@[i as int].1@));
        }
        if eq_str_ci(headers[i].0.as_str(), name) {
            let v = headers[i].1.clone();
            proof {
                assert(header_lookup(hv.skip(i as int), name@) == Some(hv[i as int].1));
            }
            return Some(v);
        }
        proof {
            assert(hv.skip(i as int).drop_first() =~= hv.skip(i + 1));
        }
        i += 1;
    }
    proof {
        assert(hv.skip(n as int).len() == 0);
    }
    None
}

} // verus!
