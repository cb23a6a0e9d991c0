//! Input validation: URL safety checks against private and loopback
//! addresses and restricted ports, difficulty levels, and relative image
//! URL resolution.

use vstd::prelude::*;

use crate::text::{
    all_digits, digit, digits_val, is_digit, split_char, split_from, str_eq, subrange_chars,
    to_chars, trim_end_char, trim_end_char_exec, trim_start_char, trim_start_char_exec,
    spec_contains, find_sub, contains_sub,
};
use crate::Error;

verus! {

/// What url::Url::parse yields of a URL string: its scheme, host, port and
/// path, when it parses at all; a function of the characters alone.
pub uninterp spec fn url_parse_of(s: Seq<char>) -> Option<
    (Seq<char>, Option<Seq<char>>, Option<u16>, Seq<char>),
>;

/// The scheme, host, port and path of a parsed URL.
pub struct UrlParts {
    pub scheme: String,
    pub host: Option<String>,
    pub port: Option<u16>,
    pub path: String,
}

/// Relies on url::Url::parse and its scheme, host_str, port and path
/// accessors: parsing depends on the input characters alone; a bracketed
/// IPv6 host is returned with its brackets.
#[verifier::external_body]
pub(crate) fn parse_url_parts(s: &str) -> (r: Option<UrlParts>)
    ensures
        r is Some <==> url_parse_of(s@) is Some,
        r is Some ==> {
            let p = r->Some_0;
            let v = url_parse_of(s@)->Some_0;
            &&& p.scheme@ == v.0
            &&& (p.host is Some <==> v.1 is Some)
            &&& (p.host is Some ==> p.host->Some_0@ == v.1->Some_0)
            &&& p.port == v.2
            &&& p.path@ == v.3
        },
{
    match url::Url::parse(s) {
        Ok(u) => Some(
            UrlParts {
                scheme: u.scheme().to_string(),
                host: u.host_str().map(|h| h.to_string()),
                port: u.port(),
                path: u.path().to_string(),
            },
        ),
        Err(_) => None,
    }
}

/// What resolving a reference against a base URL yields, when both the base
/// parses and the join succeeds; a function of the two strings alone.
pub uninterp spec fn url_join_of(base: Seq<char>, rel: Seq<char>) -> Option<Seq<char>>;

/// Relies on url::Url::parse and Url::join: resolution of a reference
/// against a base depends on the two strings alone.
#[verifier::external_body]
pub(crate) fn url_join(base: &str, rel: &str) -> (r: Option<String>)
    ensures
        r is Some <==> url_join_of(base@, rel@) is Some,
        r is Some ==> r->Some_0@ == url_join_of(base@, rel@)->Some_0,
{
    match url::Url::parse(base) {
        Ok(b) => match b.join(rel) {
            Ok(u) => Some(String::from(u)),
            Err(_) => None,
        },
        Err(_) => None,
    }
}

/// An image reference resolved against the URL of the file it came with:
/// kept as-is when already a complete URL, resolved relative to the base
/// otherwise.
pub open spec fn spec_resolve_image_url(img: Seq<char>, base: Seq<char>) -> Option<Seq<char>> {
    if url_parse_of(img) is Some {
        Option::Some(img)
    } else {
        url_join_of(base, img)
    }
}

/// Resolve an image reference against a base URL; an absolute reference is
/// returned unchanged.
pub fn resolve_image_url(image_url: &str, base_url: &str) -> (r: Option<String>)
    ensures
        r is Some <==> spec_resolve_image_url(image_url@, base_url@) is Some,
        r is Some ==> r->Some_0@ == spec_resolve_image_url(image_url@, base_url@)->Some_0,
{
    if parse_url_parts(image_url).is_some() {
        Some(String::from_str(image_url))
    } else {
        url_join(base_url, image_url)
    }
}

/// A valid dotted-decimal octet: one to three digits, no leading zero, at
/// most 255.
pub open spec fn valid_v4_octet(s: Seq<char>) -> bool {
    &&& 1 <= s.len() <= 3
    &&& all_digits(s)
    &&& (s.len() > 1 ==> s[0] != '0')
    &&& digits_val(s) <= 255
}

/// The four octets of a dotted-decimal IPv4 address, when the string is
/// one, under the same grammar the standard library accepts.
pub open spec fn spec_parse_ipv4(s: Seq<char>) -> Option<(u8, u8, u8, u8)> {
    let parts = split_from(s, '.', 0);
    if parts.len() == 4 && valid_v4_octet(parts[0]) && valid_v4_octet(parts[1]) && valid_v4_octet(
        parts[2],
    ) && valid_v4_octet(parts[3]) {
        Option::Some(
            (
                digits_val(parts[0]) as u8,
                digits_val(parts[1]) as u8,
                digits_val(parts[2]) as u8,
                digits_val(parts[3]) as u8,
            ),
        )
    } else {
        Option::None
    }
}

/// Parse one dotted-decimal octet.
fn parse_v4_octet(s: &Vec<char>) -> (r: Option<u8>)
    ensures
        r is Some <==> valid_v4_octet(s@),
        r is Some ==> r->Some_0 == digits_val(s@),
{
    if s.len() == 0 || s.len() > 3 {
        return None;
    }
    if s.len() > 1 && s[0] == '0' {
        return None;
    }
    let mut val: u32 = 0;
    let mut i: usize = 0;
    while i < s.len()
        invariant
            0 <= i <= s@.len(),
            s@.len() <= 3,
            all_digits(s@.take(i as int)),
            val == digits_val(s@.take(i as int)),
            i == 0 ==> val == 0,
            i == 1 ==> val <= 9,
            i == 2 ==> val <= 99,
            i >= 3 ==> val <= 999,
        decreases s@.len() - i,
    {
        let c = s[i];
        if !digit(c) {
            assert(!all_digits(s@)) by {
                assert(!is_digit(s@[i as int]));
            }
            return None;
        }
        let d: u32 = c as u32 - '0' as u32;
        assert(d <= 9);
        val = val * 10 + d;
        assert(s@.take(i + 1int).take(i as int) =~= s@.take(i as int));
        i = i + 1;
    }
    assert(s@.take(s@.len() as int) =~= s@);
    if val > 255 {
        return None;
    }
    Some(val as u8)
}

/// Parse a dotted-decimal IPv4 address.
pub fn parse_ipv4(s: &Vec<char>) -> (r: Option<(u8, u8, u8, u8)>)
    ensures
        r == spec_parse_ipv4(s@),
{
    let parts = split_char(s, '.');
    if parts.len() != 4 {
        return None;
    }
    let a = parse_v4_octet(&parts[0]);
    let b = parse_v4_octet(&parts[1]);
    let c = parse_v4_octet(&parts[2]);
    let d = parse_v4_octet(&parts[3]);
    match (a, b, c, d) {
        (Some(a), Some(b), Some(c), Some(d)) => Some((a, b, c, d)),
        _ => None,
    }
}

/// A valid IPv6 group: one to four hex digits.
pub open spec fn is_hex_digit(c: char) -> bool {
    is_digit(c) || ('a' <= c && c <= 'f') || ('A' <= c && c <= 'F')
}

pub open spec fn hex_val(c: char) -> int {
    if is_digit(c) {
        c as int - '0' as int
    } else if 'a' <= c && c <= 'f' {
        c as int - 'a' as int + 10
    } else {
        c as int - 'A' as int + 10
    }
}

pub open spec fn all_hex(s: Seq<char>) -> bool {
    forall|i: int| 0 <= i < s.len() ==> is_hex_digit(#[trigger] s[i])
}

/// The value of a run of hex digits, read left to right.
pub open spec fn hex_group_val(s: Seq<char>) -> int
    decreases s.len(),
{
    if s.len() == 0 {
        0
    } else {
        hex_group_val(s.take(s.len() - 1)) * 16 + hex_val(s[s.len() - 1])
    }
}

pub open spec fn valid_hex_group(s: Seq<char>) -> bool {
    1 <= s.len() <= 4 && all_hex(s)
}

/// The values of a list of hex groups, in order.
pub open spec fn groups_vals(parts: Seq<Seq<char>>) -> Seq<u16>
    decreases parts.len(),
{
    if parts.len() == 0 {
        Seq::<u16>::empty()
    } else {
        groups_vals(parts.drop_last()).push(hex_group_val(parts.last()) as u16)
    }
}

/// The group values of a colon-separated run of hex groups; an empty run
/// has no groups.
pub open spec fn groups_of(piece: Seq<char>) -> Option<Seq<u16>> {
    if piece.len() == 0 {
        Option::Some(Seq::<u16>::empty())
    } else {
        let parts = split_from(piece, ':', 0);
        if forall|i: int| 0 <= i < parts.len() ==> valid_hex_group(#[trigger] parts[i]) {
            Option::Some(groups_vals(parts))
        } else {
            Option::None
        }
    }
}

/// The eight segments of an IPv6 address written as hex groups with at most
/// one zero-compressing double colon. (Addresses with an embedded dotted
/// IPv4 tail are not recognized and are treated as unparsed hosts.)
pub open spec fn spec_parse_ipv6(s: Seq<char>) -> Option<Seq<u16>> {
    match find_at(s, seq![':', ':'], 0) {
        Option::None => match groups_of(s) {
            Option::Some(g) => if g.len() == 8 {
                Option::Some(g)
            } else {
                Option::None
            },
            Option::None => Option::None,
        },
        Option::Some(i) => {
            let left = s.take(i);
            let right = s.skip(i + 2);
            if spec_contains(right, seq![':', ':']) {
                Option::None
            } else {
                match (groups_of(left), groups_of(right)) {
                    (Option::Some(l), Option::Some(r)) => if l.len() + r.len() <= 7 {
                        Option::Some(l + Seq::new((8 - l.len() - r.len()) as nat, |k: int| 0u16) + r)
                    } else {
                        Option::None
                    },
                    _ => Option::None,
                }
            }
        },
    }
}

use crate::text::find_at;

/// Sixteen to the `n`th power.
pub open spec fn pow16(n: int) -> int
    decreases n,
{
    if n <= 0 {
        1
    } else {
        16 * pow16(n - 1)
    }
}

/// Parse one hex group.
fn parse_hex_group(s: &Vec<char>) -> (r: Option<u16>)
    ensures
        r is Some <==> valid_hex_group(s@),
        r is Some ==> r->Some_0 == hex_group_val(s@),
{
    if s.len() == 0 || s.len() > 4 {
        return None;
    }
    let mut val: u32 = 0;
    let mut i: usize = 0;
    while i < s.len()
        invariant
            0 <= i <= s@.len(),
            s@.len() <= 4,
            all_hex(s@.take(i as int)),
            val == hex_group_val(s@.take(i as int)),
            val < pow16(i as int),
        decreases s@.len() - i,
    {
        let c = s[i];
        let d: u32 = if digit(c) {
            c as u32 - '0' as u32
        } else if 'a' <= c && c <= 'f' {
            c as u32 - 'a' as u32 + 10
        } else if 'A' <= c && c <= 'F' {
            c as u32 - 'A' as u32 + 10
        } else {
            assert(!all_hex(s@)) by {
                assert(!is_hex_digit(s@[i as int]));
            }
            return None;
        };
        assert(d == hex_val(s@[i as int]) && d <= 15);
        proof {
            assert(s@.take(i + 1int).drop_last() =~= s@.take(i as int));
            assert(s@.take(i + 1int).take(i as int) =~= s@.take(i as int));
            assert(pow16(i + 1int) == 16 * pow16(i as int));
            assert(val * 16 + d < pow16(i + 1int)) by (nonlinear_arith)
                requires
                    val < pow16(i as int),
                    d <= 15,
                    pow16(i + 1int) == 16 * pow16(i as int),
                    val >= 0,
            ;
        }
        proof {
            lemma_pow16_val();
            lemma_pow16_mono(i + 1int, 4int);
        }
        val = val * 16 + d;
        i = i + 1;
    }
    assert(s@.take(s@.len() as int) =~= s@);
    proof {
        lemma_pow16_val();
        lemma_pow16_mono(s@.len() as int, 4int);
    }
    Some(val as u16)
}

proof fn lemma_pow16_val()
    ensures
        pow16(4int) == 65536,
{
    assert(pow16(0int) == 1);
    assert(pow16(1int) == 16);
    assert(pow16(2int) == 256);
    assert(pow16(3int) == 4096);
    assert(pow16(4int) == 65536);
}

proof fn lemma_pow16_mono(a: int, b: int)
    requires
        a <= b,
    ensures
        pow16(a) <= pow16(b),
        pow16(a) >= 1,
    decreases b,
{
    if b > 0 {
        if a == b {
            lemma_pow16_mono(a - 1, b - 1);
        } else {
            lemma_pow16_mono(a, b - 1);
        }
    }
}

/// Parse the groups of a colon-separated piece of an IPv6 address.
fn parse_groups(piece: &Vec<char>) -> (r: Option<Vec<u16>>)
    ensures
        r is Some <==> groups_of(piece@) is Some,
        r is Some ==> r->Some_0@ == groups_of(piece@)->Some_0,
{
    let mut out: Vec<u16> = Vec::new();
    if piece.len() == 0 {
        assert(out@ =~= Seq::<u16>::empty());
        return Some(out);
    }
    let parts = split_char(piece, ':');
    let ghost specparts = split_from(piece@, ':', 0);
    let mut i: usize = 0;
    while i < parts.len()
        invariant
            0 <= i <= parts@.len(),
            piece@.len() > 0,
            specparts == split_from(piece@, ':', 0),
            parts@.len() == specparts.len(),
            forall|k: int| 0 <= k < parts@.len() ==> #[trigger] parts@[k]@ == specparts[k],
            forall|k: int| 0 <= k < i ==> valid_hex_group(#[trigger] specparts[k]),
            out@ == groups_vals(specparts.take(i as int)),
        decreases parts@.len() - i,
    {
        match parse_hex_group(&parts[i]) {
            Some(v) => {
                out.push(v);
                proof {
                    assert(specparts.take(i + 1int).drop_last() =~= specparts.take(i as int));
                    assert(specparts.take(i + 1int).last() == specparts[i as int]);
                    assert(v == hex_group_val(specparts[i as int]) as u16);
                }
            },
            None => {
                proof {
                    assert(0 <= i < specparts.len());
                    assert(parts@[i as int]@ == specparts[i as int]);
                    assert(!valid_hex_group(specparts[i as int]));
                    assert(specparts == split_from(piece@, ':', 0));
                    assert(groups_of(piece@) is None);
                }
                return None;
            },
        }
        i = i + 1;
    }
    assert(specparts.take(specparts.len() as int) =~= specparts);
    Some(out)
}

/// Parse an IPv6 address written as hex groups with at most one double
/// colon.
pub fn parse_ipv6(s: &Vec<char>) -> (r: Option<Vec<u16>>)
    ensures
        r is Some <==> spec_parse_ipv6(s@) is Some,
        r is Some ==> r->Some_0@ == spec_parse_ipv6(s@)->Some_0,
{
    let mut dc: Vec<char> = Vec::new();
    dc.push(':');
    dc.push(':');
    assert(dc@ =~= seq![':', ':']);
    match find_sub(s, &dc, 0) {
        None => {
            match parse_groups(s) {
                Some(g) => {
                    if g.len() == 8 {
                        Some(g)
                    } else {
                        None
                    }
                },
                None => None,
            }
        },
        Some(i) => {
            let n = s.len();
            assert(i + 2 <= s@.len()) by {
                crate::text::lemma_find_at_props(s@, seq![':', ':'], 0);
            }
            let left = subrange_chars(s, 0, i);
            let right = subrange_chars(s, i + 2, s.len());
            assert(left@ =~= s@.take(i as int));
            assert(right@ =~= s@.skip(i + 2int));
            if contains_sub(&right, &dc) {
                return None;
            }
            let lg = parse_groups(&left);
            let rg = parse_groups(&right);
            match (lg, rg) {
                (Some(l), Some(rt)) => {
                    if l.len() <= 7 && rt.len() <= 7 - l.len() {
                        let ghost lv = groups_of(left@)->Some_0;
                        let ghost rv = groups_of(right@)->Some_0;
                        let mut segs = l;
                        let pad = 8 - segs.len() - rt.len();
                        let mut k: usize = 0;
                        while k < pad
                            invariant
                                0 <= k <= pad,
                                pad == 8 - lv.len() - rv.len(),
                                segs@ == lv + Seq::new(k as nat, |q: int| 0u16),
                            decreases pad - k,
                        {
                            segs.push(0u16);
                            assert(segs@ =~= lv + Seq::new((k + 1) as nat, |q: int| 0u16));
                            k = k + 1;
                        }
                        let mut j: usize = 0;
                        while j < rt.len()
                            invariant
                                0 <= j <= rt@.len(),
                                rt@ == rv,
                                pad == 8 - lv.len() - rv.len(),
                                segs@ == lv + Seq::new(pad as nat, |q: int| 0u16) + rv.take(
                                    j as int,
                                ),
                            decreases rt@.len() - j,
                        {
                            segs.push(rt[j]);
                            assert(segs@ =~= lv + Seq::new(pad as nat, |q: int| 0u16) + rv.take(
                                j + 1int,
                            ));
                            j = j + 1;
                        }
                        assert(rv.take(rv.len() as int) =~= rv);
                        Some(segs)
                    } else {
                        None
                    }
                },
                _ => None,
            }
        },
    }
}

/// The private, loopback, link-local and unspecified IPv4 ranges this crate
/// refuses to fetch from.
pub open spec fn v4_blocked(a: u8, b: u8, c: u8, d: u8) -> bool {
    ||| a == 127
    ||| (a == 0 && b == 0 && c == 0 && d == 0)
    ||| a == 10
    ||| (a == 172 && 16 <= b <= 31)
    ||| (a == 192 && b == 168)
    ||| (a == 169 && b == 254)
}

/// The loopback, unspecified, link-local and unique-local IPv6 segments
/// this crate refuses to fetch from.
pub open spec fn v6_blocked(segs: Seq<u16>) -> bool
    recommends
        segs.len() == 8,
{
    ||| (forall|i: int| 0 <= i < 7 ==> #[trigger] segs[i] == 0) && segs[7] == 1
    ||| (forall|i: int| 0 <= i < 8 ==> #[trigger] segs[i] == 0)
    ||| (0xfe80 <= segs[0] && segs[0] <= 0xfebf)
    ||| (0xfc00 <= segs[0] && segs[0] <= 0xfdff)
}

/// Whether the host, read as an IP address where possible (brackets
/// stripped), avoids every blocked range. A host that is not an IP address
/// passes.
pub open spec fn spec_host_ip_ok(h: Seq<char>) -> bool {
    let stripped = trim_end_char(trim_start_char(h, '['), ']');
    match spec_parse_ipv4(stripped) {
        Option::Some(o) => !v4_blocked(o.0, o.1, o.2, o.3),
        Option::None => match spec_parse_ipv6(stripped) {
            Option::Some(g) => !v6_blocked(g),
            Option::None => true,
        },
    }
}

/// A port this crate refuses to fetch from.
pub open spec fn spec_blocked_port(p: u16) -> bool {
    p == 22 || p == 23 || p == 25 || p == 3306 || p == 5432 || p == 6379 || p == 27017
}

pub fn is_blocked_port(p: u16) -> (r: bool)
    ensures
        r == spec_blocked_port(p),
{
    p == 22 || p == 23 || p == 25 || p == 3306 || p == 5432 || p == 6379 || p == 27017
}

/// A URL this crate will fetch: it parses, uses http or https, has a host
/// that is neither a localhost name nor a blocked IP address, and names no
/// blocked port.
pub open spec fn spec_url_ok(s: Seq<char>) -> bool {
    match url_parse_of(s) {
        Option::None => false,
        Option::Some(v) => {
            &&& (v.0 == "http"@ || v.0 == "https"@)
            &&& v.1 is Some
            &&& v.1->Some_0 != "localhost"@
            &&& v.1->Some_0 != "127.0.0.1"@
            &&& v.1->Some_0 != "0.0.0.0"@
            &&& spec_host_ip_ok(v.1->Some_0)
            &&& (v.2 is Some ==> !spec_blocked_port(v.2->Some_0))
        },
    }
}

/// Validate that a URL is safe to fetch: http or https only, no localhost,
/// loopback, unspecified, private or link-local target, no blocked port.
pub fn validate_url(url_str: &str) -> (r: Result<UrlParts, Error>)
    ensures
        r is Ok <==> spec_url_ok(url_str@),
        r is Ok ==> {
            let p = r->Ok_0;
            let v = url_parse_of(url_str@)->Some_0;
            &&& p.scheme@ == v.0
            &&& (p.host is Some <==> v.1 is Some)
            &&& (p.host is Some ==> p.host->Some_0@ == v.1->Some_0)
            &&& p.port == v.2
            &&& p.path@ == v.3
        },
        r is Err ==> (r->Err_0 is InvalidUrl <==> url_parse_of(url_str@) is None),
        r is Err && url_parse_of(url_str@) is Some ==> r->Err_0 is Validation,
{
    let parsed = parse_url_parts(url_str);
    let p = match parsed {
        Some(p) => p,
        None => {
            return Err(Error::InvalidUrl(String::from_str("relative URL without a base")));
        },
    };
    if !(str_eq(p.scheme.as_str(), "http") || str_eq(p.scheme.as_str(), "https")) {
        return Err(Error::Validation(String::from_str("URL must use http or https scheme")));
    }
    let host = match &p.host {
        Some(h) => h,
        None => {
            return Err(Error::Validation(String::from_str("URL must have a valid host")));
        },
    };
    if str_eq(host.as_str(), "localhost") || str_eq(host.as_str(), "127.0.0.1") || str_eq(
        host.as_str(),
        "0.0.0.0",
    ) {
        return Err(Error::Validation(String::from_str("Localhost URLs are not allowed")));
    }
    let hc = to_chars(host.as_str());
    let no_open = trim_start_char_exec(&hc, '[');
    let stripped = trim_end_char_exec(&no_open, ']');
    match parse_ipv4(&stripped) {
        Some((a, b, c, d)) => {
            if a == 127 {
                return Err(
                    Error::Validation(String::from_str("Loopback addresses are not allowed")),
                );
            }
            if a == 0 && b == 0 && c == 0 && d == 0 {
                return Err(
                    Error::Validation(String::from_str("Unspecified addresses are not allowed")),
                );
            }
            if a == 10 || (a == 172 && 16 <= b && b <= 31) || (a == 192 && b == 168) || (a == 169
                && b == 254) {
                return Err(
                    Error::Validation(String::from_str("Private IP addresses are not allowed")),
                );
            }
        },
        None => {
            match parse_ipv6(&stripped) {
                Some(segs) => {
                    let mut all_zero_7: bool = true;
                    let mut q: usize = 0;
                    while q < 7
                        invariant
                            0 <= q <= 7,
                            segs@.len() == 8,
                            all_zero_7 == (forall|i: int| 0 <= i < q ==> #[trigger] segs@[i] == 0),
                        decreases 7 - q,
                    {
                        if segs[q] != 0 {
                            all_zero_7 = false;
                        }
                        q = q + 1;
                    }
                    if all_zero_7 && segs[7] == 1 {
                        return Err(
                            Error::Validation(
                                String::from_str("Loopback addresses are not allowed"),
                            ),
                        );
                    }
                    if all_zero_7 && segs[7] == 0 {
                        return Err(
                            Error::Validation(
                                String::from_str("Unspecified addresses are not allowed"),
                            ),
                        );
                    }
                    let s0 = segs[0];
                    if (0xfe80 <= s0 && s0 <= 0xfebf) || (0xfc00 <= s0 && s0 <= 0xfdff) {
                        return Err(
                            Error::Validation(
                                String::from_str("Private IP addresses are not allowed"),
                            ),
                        );
                    }
                    assert(!v6_blocked(segs@));
                },
                None => {},
            }
        },
    }
    if let Some(port) = p.port {
        if is_blocked_port(port) {
            return Err(
                Error::Validation(String::from_str("Port is not allowed for security reasons")),
            );
        }
    }
    Ok(p)
}

/// Accept only the three difficulty levels.
pub fn validate_difficulty(difficulty: &str) -> (r: Result<(), Error>)
    ensures
        r is Ok <==> (difficulty@ == "easy"@ || difficulty@ == "medium"@ || difficulty@
            == "hard"@),
        r is Err ==> r->Err_0 is Validation,
{
    if str_eq(difficulty, "easy") || str_eq(difficulty, "medium") || str_eq(difficulty, "hard") {
        Ok(())
    } else {
        Err(Error::Validation(String::from_str("Invalid difficulty level")))
    }
}


/// Reject an output directory path that attempts traversal: any occurrence
/// of a double dot refuses the path. Resolving links is left to the caller
/// at the file-system edge.
pub fn validate_output_dir(dir: &str) -> (r: Result<String, Error>)
    ensures
        r is Ok <==> !spec_contains(dir@, seq!['.', '.']),
        r is Ok ==> r->Ok_0@ == dir@,
        r is Err ==> r->Err_0 is Validation,
{
    let cs = to_chars(dir);
    let mut dots: Vec<char> = Vec::new();
    dots.push('.');
    dots.push('.');
    assert(dots@ =~= seq!['.', '.']);
    if contains_sub(&cs, &dots) {
        return Err(Error::Validation(String::from_str("Path traversal not allowed")));
    }
    Ok(crate::text::from_chars(&cs))
}

} // verus!
