use vstd::prelude::*;
use vstd::string::StringSliceAdditionalSpecFns;

verus! {

/// Bytes read from a connection: at most this many are taken as the request.
pub const REQUEST_LIMIT: usize = 1024;

/// ASCII whitespace: space, tab, line feed, vertical tab, form feed, carriage return.
pub open spec fn is_space(b: u8) -> bool {
    b == 0x20 || (0x09 <= b && b <= 0x0d)
}

/// First position at or after `i` that holds no whitespace (or the end).
pub open spec fn skip_spaces(s: Seq<u8>, i: int) -> int
    decreases s.len() - i,
{
    if 0 <= i < s.len() && is_space(s[i]) {
        skip_spaces(s, i + 1)
    } else {
        i
    }
}

/// First position at or after `i` that holds whitespace (or the end).
pub open spec fn skip_token(s: Seq<u8>, i: int) -> int
    decreases s.len() - i,
{
    if 0 <= i < s.len() && !is_space(s[i]) {
        skip_token(s, i + 1)
    } else {
        i
    }
}

/// The second whitespace-delimited token of a request (the path of its request
/// line), if it has one.
pub open spec fn request_path_of(s: Seq<u8>) -> Option<Seq<u8>> {
    let a = skip_spaces(s, 0);
    let b = skip_token(s, a);
    let c = skip_spaces(s, b);
    if c < s.len() {
        Some(s.subrange(c, skip_token(s, c)))
    } else {
        None
    }
}

/// The path separator, `/`.
pub const SLASH: u8 = 0x2f;

/// The prefix that introduces the name in a path: the bytes of `/hello/`.
pub open spec fn hello_prefix() -> Seq<u8> {
    seq![SLASH, 0x68, 0x65, 0x6c, 0x6c, 0x6f, SLASH]
}

pub open spec fn has_hello_prefix(t: Seq<u8>) -> bool {
    t.len() >= hello_prefix().len() && t.take(hello_prefix().len() as int) == hello_prefix()
}

/// `t` with every leading repetition of the prefix removed.
pub open spec fn strip_hello(t: Seq<u8>) -> Seq<u8>
    decreases t.len(),
{
    if has_hello_prefix(t) {
        strip_hello(t.skip(hello_prefix().len() as int))
    } else {
        t
    }
}

/// First position at or after `i` that holds a slash (or the end).
pub open spec fn segment_end(t: Seq<u8>, i: int) -> int
    decreases t.len() - i,
{
    if 0 <= i < t.len() && t[i] != SLASH {
        segment_end(t, i + 1)
    } else {
        i
    }
}

/// The part of `t` before its first slash.
pub open spec fn first_segment(t: Seq<u8>) -> Seq<u8> {
    t.take(segment_end(t, 0))
}

/// The name that stands in for a missing or unreadable one.
pub open spec fn default_name() -> Seq<u8> {
    "world".spec_bytes()
}

/// The name a request asks to be greeted by: the segment that follows the
/// prefix in the request's path, up to the next slash. Where the request has
/// no path, the path lacks the prefix, or the segment is empty, the default.
pub open spec fn greeting_name_of(req: Seq<u8>) -> Seq<u8> {
    match request_path_of(req) {
        Some(path) => {
            let seg = first_segment(strip_hello(path));
            if has_hello_prefix(path) && seg.len() > 0 {
                seg
            } else {
                default_name()
            }
        },
        None => default_name(),
    }
}

pub fn is_space_byte(b: u8) -> (r: bool)
    ensures
        r == is_space(b),
{
    b == 0x20 || (0x09 <= b && b <= 0x0d)
}

fn skip_spaces_from(s: &[u8], i: usize) -> (r: usize)
    requires
        i <= s@.len(),
    ensures
        r == skip_spaces(s@, i as int),
        i <= r <= s@.len(),
{
    let mut j: usize = i;
    while j < s.len() && is_space_byte(s[j])
        invariant
            i <= j <= s@.len(),
            skip_spaces(s@, j as int) == skip_spaces(s@, i as int),
        decreases s@.len() - j,
    {
        j += 1;
    }
    j
}

fn skip_token_from(s: &[u8], i: usize) -> (r: usize)
    requires
        i <= s@.len(),
    ensures
        r == skip_token(s@, i as int),
        i <= r <= s@.len(),
{
    let mut j: usize = i;
    while j < s.len() && !is_space_byte(s[j])
        invariant
            i <= j <= s@.len(),
            skip_token(s@, j as int) == skip_token(s@, i as int),
        decreases s@.len() - j,
    {
        j += 1;
    }
    j
}

fn segment_end_from(t: &[u8], i: usize) -> (r: usize)
    requires
        i <= t@.len(),
    ensures
        r == segment_end(t@, i as int),
        i <= r <= t@.len(),
{
    let mut j: usize = i;
    while j < t.len() && t[j] != SLASH
        invariant
            i <= j <= t@.len(),
            segment_end(t@, j as int) == segment_end(t@, i as int),
        decreases t@.len() - j,
    {
        j += 1;
    }
    j
}

/// The bytes of `s` from `a` up to `b`.
fn copy_range(s: &[u8], a: usize, b: usize) -> (r: Vec<u8>)
    requires
        a <= b <= s@.len(),
    ensures
        r@ == s@.subrange(a as int, b as int),
{
    let mut r: Vec<u8> = Vec::new();
    let mut k: usize = a;
    while k < b
        invariant
            a <= k <= b <= s@.len(),
            r@ == s@.subrange(a as int, k as int),
        decreases b - k,
    {
        r.push(s[k]);
        k += 1;
        proof {
            assert(r@ =~= s@.subrange(a as int, k as int));
        }
    }
    r
}

/// The path of a request: its second whitespace-delimited token.
pub fn request_path(req: &[u8]) -> (r: Option<Vec<u8>>)
    ensures
        match r {
            Some(p) => request_path_of(req@) == Some(p@),
            None => request_path_of(req@) is None,
        },
{
    let a = skip_spaces_from(req, 0);
    let b = skip_token_from(req, a);
    let c = skip_spaces_from(req, b);
    if c < req.len() {
        let d = skip_token_from(req, c);
        Some(copy_range(req, c, d))
    } else {
        None
    }
}

/// Whether the prefix stands in `t` at position `j`.
fn has_hello_prefix_at(t: &[u8], j: usize) -> (r: bool)
    requires
        j <= t@.len(),
    ensures
        r == has_hello_prefix(t@.skip(j as int)),
{
    if t.len() - j < 7 {
        return false;
    }
    let r = t[j] == SLASH && t[j + 1] == 0x68 && t[j + 2] == 0x65 && t[j + 3] == 0x6c && t[j + 4]
        == 0x6c && t[j + 5] == 0x6f && t[j + 6] == SLASH;
    proof {
        let w = t@.skip(j as int).take(7);
        let p = hello_prefix();
        if r {
            assert(w =~= p);
        } else if w == p {
            assert(w[0] == p[0] && w[1] == p[1] && w[2] == p[2] && w[3] == p[3]);
            assert(w[4] == p[4] && w[5] == p[5] && w[6] == p[6]);
        }
    }
    r
}

/// Where the name part of a path begins: past every leading repetition of the
/// prefix.
fn strip_hello_end(t: &[u8]) -> (r: usize)
    ensures
        r <= t@.len(),
        t@.skip(r as int) == strip_hello(t@),
{
    let mut j: usize = 0;
    assert(t@.skip(0) =~= t@);
    while has_hello_prefix_at(t, j)
        invariant
            j <= t@.len(),
            strip_hello(t@.skip(j as int)) == strip_hello(t@),
        decreases t@.len() - j,
    {
        assert(hello_prefix().len() == 7);
        assert(j + 7 <= t.len());
        assert(t@.skip(j as int).skip(7) =~= t@.skip(j + 7));
        j += 7;
    }
    j
}

/// The bytes of a string.
fn bytes_of(s: &str) -> (r: Vec<u8>)
    ensures
        r@ == s.spec_bytes(),
{
    let b = s.as_bytes();
    copy_range(b, 0, b.len())
}

/// The name a request asks to be greeted by.
pub fn greeting_name(req: &[u8]) -> (r: Vec<u8>)
    ensures
        r@ == greeting_name_of(req@),
{
    let found = request_path(req);
    if let Some(path) = found {
        let path = path.as_slice();
        assert(request_path_of(req@) == Some(path@));
        if has_hello_prefix_at(path, 0) {
            assert(path@.skip(0) =~= path@);
            let start = strip_hello_end(path);
            let rest = copy_range(path, start, path.len());
            assert(rest@ =~= strip_hello(path@));
            let end = segment_end_from(rest.as_slice(), 0);
            if end > 0 {
                let seg = copy_range(rest.as_slice(), 0, end);
                assert(seg@ =~= first_segment(strip_hello(path@)));
                return seg;
            }
        }
    }
    bytes_of("world")
}

/// The decimal digits of `n`, most significant first, without leading zeros.
pub open spec fn decimal(n: nat) -> Seq<u8>
    decreases n,
{
    if n < 10 {
        seq![(0x30 + n) as u8]
    } else {
        decimal(n / 10).push((0x30 + n % 10) as u8)
    }
}

/// Appends the decimal digits of `n` to `out`.
fn push_decimal(out: &mut Vec<u8>, n: usize)
    ensures
        final(out)@ == old(out)@ + decimal(n as nat),
    decreases n,
{
    if n >= 10 {
        push_decimal(out, n / 10);
    }
    out.push((0x30 + n % 10) as u8);
    assert(out@ =~= old(out)@ + decimal(n as nat));
}

/// Appends `s` to `out`.
fn push_all(out: &mut Vec<u8>, s: &[u8])
    ensures
        final(out)@ == old(out)@ + s@,
{
    let mut k: usize = 0;
    while k < s.len()
        invariant
            k <= s@.len(),
            out@ == old(out)@ + s@.take(k as int),
        decreases s@.len() - k,
    {
        out.push(s[k]);
        k += 1;
        assert(out@ =~= old(out)@ + s@.take(k as int));
    }
    assert(s@.take(s@.len() as int) =~= s@);
}

/// The JSON body that greets `name`: `{"message":"Hello, <name>!"}`.
pub open spec fn response_body_of(name: Seq<u8>) -> Seq<u8> {
    "{\"message\":\"Hello, ".spec_bytes() + name + "!\"}".spec_bytes()
}

/// The full response that greets `name`: a success status line, a JSON content
/// type, the body's length in bytes, a blank line and the body.
pub open spec fn response_of(name: Seq<u8>) -> Seq<u8> {
    let body = response_body_of(name);
    "HTTP/1.1 200 OK\r\nContent-Type: application/json\r\nContent-Length: ".spec_bytes() + decimal(
        body.len(),
    ) + "\r\n\r\n".spec_bytes() + body
}

/// The response owed to the request `req`.
pub open spec fn reply_of(req: Seq<u8>) -> Seq<u8> {
    response_of(greeting_name_of(req))
}

/// Builds the JSON body that greets `name`.
pub fn response_body(name: &[u8]) -> (r: Vec<u8>)
    ensures
        r@ == response_body_of(name@),
{
    let mut out: Vec<u8> = Vec::new();
    push_all(&mut out, "{\"message\":\"Hello, ".as_bytes());
    push_all(&mut out, name);
    push_all(&mut out, "!\"}".as_bytes());
    assert(out@ =~= response_body_of(name@));
    out
}

/// Builds the full response that greets `name`.
pub fn response(name: &[u8]) -> (r: Vec<u8>)
    ensures
        r@ == response_of(name@),
{
    let body = response_body(name);
    let mut out: Vec<u8> = Vec::new();
    push_all(&mut out, "HTTP/1.1 200 OK\r\nContent-Type: application/json\r\nContent-Length: ".as_bytes());
    push_decimal(&mut out, body.len());
    push_all(&mut out, "\r\n\r\n".as_bytes());
    push_all(&mut out, body.as_slice());
    assert(out@ =~= response_of(name@));
    out
}

/// Answers one request: greets the name it carries, or the default.
pub fn reply(req: &[u8]) -> (r: Vec<u8>)
    ensures
        r@ == reply_of(req@),
{
    let name = greeting_name(req);
    response(name.as_slice())
}

} // verus!
