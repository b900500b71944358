//! The driver's request handling: which route a request line names, and the
//! bytes of the response for a status line and a body.
use vstd::prelude::*;
use vstd::string::StringSliceAdditionalSpecFns;

verus! {

/// The routes the server knows.
#[derive(Clone, Copy, Debug, PartialEq, Eq, Structural)]
pub enum Route {
    /// `GET / HTTP/1.1`: the home page.
    Home,
    /// `GET /sleep HTTP/1.1`: the home page, after a pause.
    Sleep,
    /// Anything else.
    NotFound,
}

/// The route that a request line names.
pub open spec fn route_of(line: Seq<u8>) -> Route {
    if line == "GET / HTTP/1.1".spec_bytes() {
        Route::Home
    } else if line == "GET /sleep HTTP/1.1".spec_bytes() {
        Route::Sleep
    } else {
        Route::NotFound
    }
}

/// The decimal digits of `n`, most significant first, in ASCII.
pub open spec fn decimal(n: nat) -> Seq<u8>
    decreases n,
{
    if n < 10 {
        seq![(48 + n) as u8]
    } else {
        decimal(n / 10).push((48 + n % 10) as u8)
    }
}

/// A response: the status line, a `Content-Length` header giving the body's
/// length in bytes, a blank line, and the body.
pub open spec fn response_of(status: Seq<u8>, body: Seq<u8>) -> Seq<u8> {
    status + "\r\nContent-Length: ".spec_bytes() + decimal(body.len()) + "\r\n\r\n".spec_bytes()
        + body
}

fn same_bytes(a: &[u8], b: &[u8]) -> (r: bool)
    ensures
        r == (a@ == b@),
{
    if a.len() != b.len() {
        return false;
    }
    let mut i: usize = 0;
    while i < a.len()
        invariant
            a@.len() == b@.len(),
            i <= a@.len(),
            forall|k: int| 0 <= k < i ==> a@[k] == b@[k],
        decreases a@.len() - i,
    {
        if a[i] != b[i] {
            return false;
        }
        i = i + 1;
    }
    assert(a@ =~= b@);
    true
}

/// Which route a request line names.
pub fn route(request_line: &[u8]) -> (r: Route)
    ensures
        r == route_of(request_line@),
{
    if same_bytes(request_line, "GET / HTTP/1.1".as_bytes()) {
        Route::Home
    } else if same_bytes(request_line, "GET /sleep HTTP/1.1".as_bytes()) {
        Route::Sleep
    } else {
        Route::NotFound
    }
}

impl Route {
    /// The status line answered on this route.
    pub fn status_line(&self) -> (r: &'static str)
        ensures
            r@ == (if *self == Route::NotFound {
                "HTTP/1.1 404 NOT FOUND"@
            } else {
                "HTTP/1.1 200 OK"@
            }),
    {
        match self {
            Route::NotFound => "HTTP/1.1 404 NOT FOUND",
            _ => "HTTP/1.1 200 OK",
        }
    }

    /// The file whose contents make the body on this route.
    pub fn file_name(&self) -> (r: &'static str)
        ensures
            r@ == (if *self == Route::NotFound { "404.html"@ } else { "hello.html"@ }),
    {
        match self {
            Route::NotFound => "404.html",
            _ => "hello.html",
        }
    }

    /// Whether the server pauses before answering on this route.
    pub fn pauses(&self) -> (r: bool)
        ensures
            r == (*self == Route::Sleep),
    {
        match self {
            Route::Sleep => true,
            _ => false,
        }
    }
}

fn append_bytes(out: &mut Vec<u8>, src: &[u8])
    ensures
        final(out)@ == old(out)@ + src@,
{
    let mut i: usize = 0;
    while i < src.len()
        invariant
            i <= src@.len(),
            out@ == old(out)@ + src@.subrange(0, i as int),
        decreases src@.len() - i,
    {
        out.push(src[i]);
        i = i + 1;
        assert(out@ =~= old(out)@ + src@.subrange(0, i as int));
    }
    assert(src@.subrange(0, src@.len() as int) =~= src@);
}

fn append_decimal(out: &mut Vec<u8>, n: usize)
    ensures
        final(out)@ == old(out)@ + decimal(n as nat),
    decreases n,
{
    if n >= 10 {
        append_decimal(out, n / 10);
    }
    out.push(48u8 + (n % 10) as u8);
    if n >= 10 {
        assert(old(out)@ + decimal(n as nat) =~= old(out)@ + decimal((n / 10) as nat) + seq![
            (48 + n % 10) as u8,
        ]);
    }
    assert(out@ =~= old(out)@ + decimal(n as nat));
}

/// The bytes of the response with this status line and body.
pub fn response(status: &[u8], body: &[u8]) -> (r: Vec<u8>)
    ensures
        r@ == response_of(status@, body@),
{
    let mut out: Vec<u8> = Vec::new();
    append_bytes(&mut out, status);
    append_bytes(&mut out, "\r\nContent-Length: ".as_bytes());
    append_decimal(&mut out, body.len());
    append_bytes(&mut out, "\r\n\r\n".as_bytes());
    append_bytes(&mut out, body);
    assert(out@ =~= response_of(status@, body@));
    out
}

} // verus!
