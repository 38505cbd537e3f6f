//! Splitting an HTTP transport address (`host:port`, `http://host:port`, `port`)
//! into the host to bind and the port to listen on.
use vstd::prelude::*;

use crate::text::{
    chars_of, decimal, has_char, is_digit, lemma_decimal, lemma_parse_decimal_u16,
    parse_u16_range, parse_u16_spec, string_of_range,
};

verus! {

// ---------------------------------------------------------------------------
// Specifications
// ---------------------------------------------------------------------------

/// `http://`
pub open spec fn http_scheme() -> Seq<char> {
    seq!['h', 't', 't', 'p', ':', '/', '/']
}

/// `https://`
pub open spec fn https_scheme() -> Seq<char> {
    seq!['h', 't', 't', 'p', 's', ':', '/', '/']
}

/// The host used when the address names only a port: `0.0.0.0`.
pub open spec fn unspecified_host() -> Seq<char> {
    seq!['0', '.', '0', '.', '0', '.', '0']
}

/// The port used when the address holds no valid port number.
pub open spec fn default_port() -> u16 {
    8080
}

/// `s` begins with `p`.
pub open spec fn starts_with(s: Seq<char>, p: Seq<char>) -> bool {
    p.len() <= s.len() && s.take(p.len() as int) == p
}

/// `s` with every leading repetition of `p` removed (`str::trim_start_matches`).
pub open spec fn trim_start_all(s: Seq<char>, p: Seq<char>) -> Seq<char>
    decreases s.len(),
{
    if p.len() > 0 && starts_with(s, p) {
        trim_start_all(s.skip(p.len() as int), p)
    } else {
        s
    }
}

/// The position of the first `:` in `s`, or `s.len()` when there is none.
pub open spec fn colon_index(s: Seq<char>) -> nat
    decreases s.len(),
{
    if s.len() == 0 {
        0
    } else if s[0] == ':' {
        0
    } else {
        1 + colon_index(s.drop_first())
    }
}

/// The port that a port text gives: its value when it parses as a `u16`,
/// the default port otherwise.
pub open spec fn port_or_default(s: Seq<char>) -> u16 {
    match parse_u16_spec(s) {
        Some(p) => p,
        None => default_port(),
    }
}

/// The address with its leading `http://` and then `https://` prefixes removed.
pub open spec fn cleaned_address(a: Seq<char>) -> Seq<char> {
    trim_start_all(trim_start_all(a, http_scheme()), https_scheme())
}

/// The `(host, port)` pair that an address denotes: with a `:`, the text before
/// the first `:` is the host and the text up to the next `:` is the port; without
/// one, the whole text is the port and the host is `0.0.0.0`.
pub open spec fn spec_parse_http_address(a: Seq<char>) -> (Seq<char>, u16) {
    let cleaned = cleaned_address(a);
    let k = colon_index(cleaned);
    if k < cleaned.len() {
        let rest = cleaned.skip(k + 1 as int);
        (cleaned.take(k as int), port_or_default(rest.take(colon_index(rest) as int)))
    } else {
        (unspecified_host(), port_or_default(cleaned))
    }
}

/// `host:port`, with the port in decimal.
pub open spec fn host_port(host: Seq<char>, port: u16) -> Seq<char> {
    host + seq![':'] + decimal(port as nat)
}

// ---------------------------------------------------------------------------
// Lemmas
// ---------------------------------------------------------------------------

proof fn lemma_colon_index(s: Seq<char>)
    ensures
        colon_index(s) <= s.len(),
        colon_index(s) < s.len() ==> s[colon_index(s) as int] == ':',
        forall|j: int| 0 <= j < colon_index(s) ==> s[j] != ':',
    decreases s.len(),
{
    if s.len() > 0 && s[0] != ':' {
        lemma_colon_index(s.drop_first());
        assert forall|j: int| 0 <= j < colon_index(s) implies s[j] != ':' by {
            if j > 0 {
                assert(s[j] == s.drop_first()[j - 1]);
            }
        }
    }
}

/// The first `:` is found at `k` when `s[k]` is one and none comes before it.
proof fn lemma_colon_at(s: Seq<char>, k: int)
    requires
        0 <= k <= s.len(),
        k < s.len() ==> s[k] == ':',
        forall|j: int| 0 <= j < k ==> s[j] != ':',
    ensures
        colon_index(s) == k,
    decreases s.len(),
{
    if s.len() > 0 && k > 0 {
        assert forall|j: int| 0 <= j < k - 1 implies s.drop_first()[j] != ':' by {
            assert(s.drop_first()[j] == s[j + 1]);
        }
        lemma_colon_at(s.drop_first(), k - 1);
    }
}

proof fn lemma_no_trim(s: Seq<char>, p: Seq<char>)
    requires
        !starts_with(s, p),
    ensures
        trim_start_all(s, p) == s,
{
}

/// An address `host:port` whose host holds no `:` starts with neither scheme.
proof fn lemma_host_port_has_no_scheme(host: Seq<char>, port: u16)
    requires
        !has_char(host, ':'),
    ensures
        !starts_with(host_port(host, port), http_scheme()),
        !starts_with(host_port(host, port), https_scheme()),
{
    let a = host_port(host, port);
    let d = decimal(port as nat);
    lemma_decimal(port as nat);
    let h = host.len() as int;
    assert(a[h] == ':');
    assert(a[h + 1] == d[0]);
    assert(is_digit(d[0]));
    assert forall|j: int| 0 <= j < h implies a[j] != ':' by {
        assert(a[j] == host[j]);
        if host[j] == ':' {
            assert(has_char(host, ':'));
        }
    }
    if starts_with(a, http_scheme()) {
        assert(a[4] == http_scheme()[4]);
        assert(h == 4);
        assert(a[5] == http_scheme()[5]);
    }
    if starts_with(a, https_scheme()) {
        assert(a[5] == https_scheme()[5]);
        assert(h == 5);
        assert(a[6] == https_scheme()[6]);
    }
}

/// How `host:port` splits, once it is known to carry no scheme.
proof fn lemma_split_host_port(host: Seq<char>, port: u16)
    requires
        !has_char(host, ':'),
    ensures
        ({
            let a = host_port(host, port);
            let k = colon_index(a);
            let rest = a.skip(k + 1 as int);
            &&& k == host.len()
            &&& k < a.len()
            &&& a.take(k as int) == host
            &&& port_or_default(rest.take(colon_index(rest) as int)) == port
        }),
{
    let a = host_port(host, port);
    let d = decimal(port as nat);
    lemma_decimal(port as nat);
    let h = host.len() as int;
    assert forall|j: int| 0 <= j < h implies a[j] != ':' by {
        assert(a[j] == host[j]);
        if host[j] == ':' {
            assert(has_char(host, ':'));
        }
    }
    lemma_colon_at(a, h);
    assert(a.take(h) =~= host);
    let rest = a.skip(h + 1);
    assert(rest =~= d);
    assert forall|j: int| 0 <= j < d.len() implies d[j] != ':' by {
        assert(is_digit(d[j]));
    }
    lemma_colon_at(d, d.len() as int);
    assert(d.take(d.len() as int) =~= d);
    lemma_parse_decimal_u16(port);
}

// ---------------------------------------------------------------------------
// Laws
// ---------------------------------------------------------------------------

/// Writing a host without `:` and a port as `host:port` and parsing the result
/// gives back that host and that port.
pub proof fn law_parse_host_port(host: Seq<char>, port: u16)
    requires
        !has_char(host, ':'),
    ensures
        spec_parse_http_address(host_port(host, port)) == (host, port),
{
    let a = host_port(host, port);
    lemma_host_port_has_no_scheme(host, port);
    lemma_no_trim(a, http_scheme());
    lemma_no_trim(a, https_scheme());
    lemma_split_host_port(host, port);
}

/// Writing a host without `:` and a port as `http://host:port` and parsing the
/// result gives back that host and that port.
pub proof fn law_parse_http_url(host: Seq<char>, port: u16)
    requires
        !has_char(host, ':'),
    ensures
        spec_parse_http_address(http_scheme() + host_port(host, port)) == (host, port),
{
    let a = host_port(host, port);
    let u = http_scheme() + a;
    assert(u.take(7) =~= http_scheme());
    assert(u.skip(7) =~= a);
    lemma_host_port_has_no_scheme(host, port);
    lemma_no_trim(a, http_scheme());
    assert(trim_start_all(u, http_scheme()) == a);
    lemma_no_trim(a, https_scheme());
    lemma_split_host_port(host, port);
}

/// A bare port number parses to that port on the unspecified host `0.0.0.0`.
pub proof fn law_parse_port_only(port: u16)
    ensures
        spec_parse_http_address(decimal(port as nat)) == (unspecified_host(), port),
{
    let d = decimal(port as nat);
    lemma_decimal(port as nat);
    assert(is_digit(d[0]));
    if starts_with(d, http_scheme()) {
        assert(d[0] == http_scheme()[0]);
    }
    if starts_with(d, https_scheme()) {
        assert(d[0] == https_scheme()[0]);
    }
    assert forall|j: int| 0 <= j < d.len() implies d[j] != ':' by {
        assert(is_digit(d[j]));
    }
    lemma_colon_at(d, d.len() as int);
    lemma_parse_decimal_u16(port);
}

// ---------------------------------------------------------------------------
// Executable code
// ---------------------------------------------------------------------------

/// `v[i..]` begins with `p`.
fn starts_with_at(v: &Vec<char>, i: usize, p: &Vec<char>) -> (b: bool)
    requires
        i <= v@.len(),
    ensures
        b == starts_with(v@.skip(i as int), p@),
{
    let n = v.len();
    let m = p.len();
    if n - i < m {
        return false;
    }
    let mut j: usize = 0;
    while j < m
        invariant
            i <= n == v@.len(),
            m == p@.len(),
            i + m <= n,
            j <= m,
            forall|t: int| 0 <= t < j ==> v@[i + t] == p@[t],
        decreases m - j,
    {
        if v[i + j] != p[j] {
            assert(v@.skip(i as int).take(m as int)[j as int] != p@[j as int]);
            return false;
        }
        j = j + 1;
    }
    assert(v@.skip(i as int).take(m as int) =~= p@);
    true
}

/// Skips every leading repetition of `p` in `v[start..]`; the result is where the
/// remaining text begins.
fn skip_all(v: &Vec<char>, start: usize, p: &Vec<char>) -> (r: usize)
    requires
        start <= v@.len(),
        p@.len() > 0,
    ensures
        start <= r <= v@.len(),
        v@.skip(r as int) == trim_start_all(v@.skip(start as int), p@),
{
    let mut i = start;
    loop
        invariant
            start <= i <= v@.len(),
            p@.len() > 0,
            trim_start_all(v@.skip(i as int), p@) == trim_start_all(v@.skip(start as int), p@),
        ensures
            start <= i <= v@.len(),
            v@.skip(i as int) == trim_start_all(v@.skip(start as int), p@),
        decreases v@.len() - i,
    {
        let more = starts_with_at(v, i, p);
        if !more {
            break;
        }
        let n = v.len();
        let m = p.len();
        assert(m <= v@.skip(i as int).len());
        assert(i + m <= n);
        assert(v@.skip(i as int).skip(m as int) =~= v@.skip(i + m));
        i = i + m;
    }
    i
}

/// The position of the first `:` in `v[lo..hi]`, or `hi` when there is none.
fn find_colon(v: &Vec<char>, lo: usize, hi: usize) -> (r: usize)
    requires
        lo <= hi <= v@.len(),
    ensures
        r == lo + colon_index(v@.subrange(lo as int, hi as int)),
        r <= hi,
{
    let mut i = lo;
    while i < hi && v[i] != ':'
        invariant
            lo <= i <= hi <= v@.len(),
            colon_index(v@.subrange(lo as int, hi as int)) == (i - lo) + colon_index(
                v@.subrange(i as int, hi as int),
            ),
        decreases hi - i,
    {
        assert(v@.subrange(i as int, hi as int).drop_first() =~= v@.subrange(i + 1, hi as int));
        i = i + 1;
    }
    proof {
        lemma_colon_index(v@.subrange(i as int, hi as int));
    }
    i
}

/// Splits an HTTP transport address into the host to bind and the port.
///
/// Leading `http://` and then `https://` prefixes are dropped. With a `:`, the
/// text before the first `:` is the host and the text after it (up to a second
/// `:`) the port; without one, the whole text is the port and the host is
/// `0.0.0.0`. A port text that is not a `u16` gives port 8080.
pub fn parse_http_address(address: &str) -> (r: (String, u16))
    ensures
        (r.0@, r.1) == spec_parse_http_address(address@),
{
    let v = chars_of(address);
    let http: Vec<char> = vec!['h', 't', 't', 'p', ':', '/', '/'];
    let https: Vec<char> = vec!['h', 't', 't', 'p', 's', ':', '/', '/'];
    assert(http@ =~= http_scheme());
    assert(https@ =~= https_scheme());
    let s1 = skip_all(&v, 0, &http);
    assert(v@.skip(0) =~= v@);
    let start = skip_all(&v, s1, &https);
    let ghost cleaned = cleaned_address(address@);
    assert(v@.skip(start as int) == cleaned);
    let n = v.len();
    let k = find_colon(&v, start, n);
    assert(v@.subrange(start as int, n as int) =~= cleaned);
    if k < n {
        let host = string_of_range(&v, start, k);
        assert(v@.subrange(start as int, k as int) =~= cleaned.take(colon_index(cleaned) as int));
        let e = find_colon(&v, k + 1, n);
        let ghost rest = cleaned.skip(colon_index(cleaned) + 1 as int);
        assert(v@.subrange(k + 1, n as int) =~= rest);
        assert(v@.subrange(k + 1, e as int) =~= rest.take(colon_index(rest) as int));
        let port = match parse_u16_range(&v, k + 1, e) {
            Some(p) => p,
            None => 8080,
        };
        (host, port)
    } else {
        let port = match parse_u16_range(&v, start, n) {
            Some(p) => p,
            None => 8080,
        };
        let any: Vec<char> = vec!['0', '.', '0', '.', '0', '.', '0'];
        let host = string_of_range(&any, 0, 7);
        assert(any@.subrange(0, 7) =~= unspecified_host());
        (host, port)
    }
}

} // verus!
