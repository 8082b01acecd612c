//! Origin keys: which room a connecting address belongs to.

use vstd::prelude::*;
use vstd::string::*;

verus! {

/// The room key shared by every private, loopback, link-local and carrier-NAT address.
pub const LOCAL_ORIGIN: &'static str = "local";

/// `s` begins with `p`.
pub open spec fn starts_with(s: Seq<char>, p: Seq<char>) -> bool {
    p.len() <= s.len() && s.subrange(0, p.len() as int) == p
}

/// The index of the first `c` in `s` at or after `i`, or `s.len()` when there is none.
pub open spec fn next_index_of(s: Seq<char>, c: char, i: int) -> int
    decreases s.len() - i,
{
    if i < 0 || i >= s.len() {
        s.len() as int
    } else if s[i] == c {
        i
    } else {
        next_index_of(s, c, i + 1)
    }
}

/// The dot-separated field of `s` that begins at `start`.
pub open spec fn field_from(s: Seq<char>, start: int) -> Seq<char> {
    s.subrange(start, next_index_of(s, '.', start))
}

/// A decimal digit.
pub open spec fn is_digit(c: char) -> bool {
    '0' <= c && c <= '9'
}

/// The value of a string of decimal digits.
pub open spec fn digits_value(s: Seq<char>) -> nat
    decreases s.len(),
{
    if s.len() == 0 {
        0
    } else {
        digits_value(s.drop_last()) * 10 + ((s.last() as nat) - ('0' as nat)) as nat
    }
}

/// `s` without one leading `+` sign.
pub open spec fn unsigned_part(s: Seq<char>) -> Seq<char> {
    if s.len() > 0 && s[0] == '+' { s.drop_first() } else { s }
}

/// Every character of `d` is a decimal digit.
pub open spec fn all_digits(d: Seq<char>) -> bool {
    forall|i: int| 0 <= i < d.len() ==> is_digit(#[trigger] d[i])
}

/// What parsing `s` as a `u8` gives: an optional `+`, then one or more digits whose
/// value is at most 255.
pub open spec fn parsed_u8(s: Seq<char>) -> Option<nat> {
    let d = unsigned_part(s);
    if d.len() > 0 && all_digits(d) && digits_value(d) <= 255 {
        Some(digits_value(d))
    } else {
        None
    }
}

/// The second dot-separated field after a four-character prefix parses as a byte in `lo..=hi`.
pub open spec fn second_octet_in(s: Seq<char>, lo: nat, hi: nat) -> bool {
    match parsed_u8(field_from(s, 4)) {
        Some(n) => lo <= n <= hi,
        None => false,
    }
}

/// Private (RFC 1918), loopback (127.0.0.0/8, ::1), link-local (169.254.0.0/16,
/// fe80::/10), carrier-NAT (100.64.0.0/10) and IPv6 unique-local (fc00::/7) addresses,
/// recognised by their text.
pub open spec fn is_private_addr(s: Seq<char>) -> bool {
    ||| starts_with(s, "127."@)
    ||| starts_with(s, "10."@)
    ||| starts_with(s, "192.168."@)
    ||| starts_with(s, "169.254."@)
    ||| (starts_with(s, "172."@) && second_octet_in(s, 16, 31))
    ||| (starts_with(s, "100."@) && second_octet_in(s, 64, 127))
    ||| s == "::1"@
    ||| starts_with(s, "fc"@)
    ||| starts_with(s, "fd"@)
    ||| starts_with(s, "fe8"@)
    ||| starts_with(s, "fe9"@)
    ||| starts_with(s, "fea"@)
    ||| starts_with(s, "feb"@)
}

/// Whether `s` begins with `p`.
pub fn has_prefix(s: &str, p: &str) -> (r: bool)
    ensures
        r == starts_with(s@, p@),
{
    let n = s.unicode_len();
    let m = p.unicode_len();
    if m > n {
        return false;
    }
    let mut i: usize = 0;
    while i < m
        invariant
            n == s@.len(),
            m == p@.len(),
            m <= n,
            0 <= i <= m,
            forall|j: int| 0 <= j < i ==> s@[j] == p@[j],
        decreases m - i,
    {
        if s.get_char(i) != p.get_char(i) {
            assert(s@.subrange(0, m as int)[i as int] != p@[i as int]);
            return false;
        }
        i = i + 1;
    }
    assert(s@.subrange(0, m as int) =~= p@);
    true
}

/// Whether `s` and `p` hold the same text.
pub fn same_text(s: &str, p: &str) -> (r: bool)
    ensures
        r == (s@ == p@),
{
    let r = s.unicode_len() == p.unicode_len() && has_prefix(s, p);
    proof {
        if s@.len() == p@.len() && starts_with(s@, p@) {
            assert(s@ =~= s@.subrange(0, p@.len() as int));
        }
        if s@ == p@ {
            assert(s@.subrange(0, p@.len() as int) =~= p@);
        }
    }
    r
}

/// The index of the first `c` in `s` at or after `start`, or the length of `s`.
fn find_from(s: &str, c: char, start: usize) -> (r: usize)
    requires
        start <= s@.len(),
    ensures
        r == next_index_of(s@, c, start as int),
        start <= r <= s@.len(),
        forall|j: int| start <= j < r ==> s@[j] != c,
{
    let n = s.unicode_len();
    let mut i = start;
    while i < n
        invariant
            n == s@.len(),
            start <= i <= n,
            next_index_of(s@, c, start as int) == next_index_of(s@, c, i as int),
            forall|j: int| start <= j < i ==> s@[j] != c,
        decreases n - i,
    {
        if s.get_char(i) == c {
            return i;
        }
        i = i + 1;
    }
    i
}

proof fn lemma_digits_value_push(s: Seq<char>, c: char)
    ensures
        digits_value(s.push(c)) == digits_value(s) * 10 + ((c as nat) - ('0' as nat)) as nat,
{
    assert(s.push(c).drop_last() =~= s);
}

/// Parses `s` as `str::parse::<u8>` does.
pub fn parse_u8(s: &str) -> (r: Option<u8>)
    ensures
        r is Some ==> parsed_u8(s@) == Some(r->Some_0 as nat),
        r is None ==> parsed_u8(s@) is None,
{
    let n = s.unicode_len();
    let start: usize = if n > 0 && s.get_char(0) == '+' { 1 } else { 0 };
    let ghost d = unsigned_part(s@);
    assert(d =~= s@.subrange(start as int, n as int));
    if start == n {
        return None;
    }
    let mut acc: u32 = 0;
    let mut i = start;
    while i < n
        invariant
            n == s@.len(),
            start < n,
            start <= i <= n,
            d =~= s@.subrange(start as int, n as int),
            d == unsigned_part(s@),
            forall|j: int| start <= j < i ==> is_digit(#[trigger] s@[j]),
            acc as nat == digits_value(s@.subrange(start as int, i as int)),
            acc <= 255,
        decreases n - i,
    {
        let c = s.get_char(i);
        if !('0' <= c && c <= '9') {
            assert(!is_digit(d[i - start]));
            assert(!(forall|k: int| 0 <= k < d.len() ==> is_digit(#[trigger] d[k])));
            assert(!all_digits(d));
            return None;
        }
        let ghost before = s@.subrange(start as int, i as int);
        proof {
            assert(s@.subrange(start as int, i + 1) =~= before.push(c));
            lemma_digits_value_push(before, c);
        }
        let v = acc * 10 + (c as u32 - 48);
        if v > 255 {
            proof {
                assert(d.subrange(0, i + 1 - start) =~= s@.subrange(start as int, i + 1));
                lemma_digits_prefix_bound(d, (i + 1 - start) as int);
            }
            return None;
        }
        acc = v;
        i = i + 1;
    }
    assert(s@.subrange(start as int, n as int) =~= d);
    assert forall|k: int| 0 <= k < d.len() implies is_digit(#[trigger] d[k]) by {
        assert(d[k] == s@[k + start]);
    }
    Some(acc as u8)
}

/// Once a prefix of digits is worth more than 255, so is the whole string.
proof fn lemma_digits_prefix_bound(d: Seq<char>, k: int)
    requires
        0 < k <= d.len(),
        digits_value(d.subrange(0, k)) > 255,
    ensures
        digits_value(d) > 255,
    decreases d.len() - k,
{
    if k < d.len() {
        assert(d.subrange(0, k + 1) =~= d.subrange(0, k).push(d[k]));
        lemma_digits_value_push(d.subrange(0, k), d[k]);
        lemma_digits_prefix_bound(d, k + 1);
    } else {
        assert(d.subrange(0, k) =~= d);
    }
}

fn second_octet_between(s: &str, lo: u8, hi: u8) -> (r: bool)
    requires
        s@.len() >= 4,
    ensures
        r == second_octet_in(s@, lo as nat, hi as nat),
{
    let end = find_from(s, '.', 4);
    let field = s.substring_char(4, end);
    match parse_u8(field) {
        Some(n) => lo <= n && n <= hi,
        None => false,
    }
}

/// Whether `ip` is a private, loopback, link-local or carrier-NAT address.
pub fn is_private_ip(ip: &str) -> (r: bool)
    ensures
        r == is_private_addr(ip@),
{
    proof {
        reveal_strlit("172.");
        reveal_strlit("100.");
    }
    if has_prefix(ip, "127.") {
        return true;
    }
    if has_prefix(ip, "10.") || has_prefix(ip, "192.168.") || has_prefix(ip, "169.254.") {
        return true;
    }
    if has_prefix(ip, "172.") && second_octet_between(ip, 16, 31) {
        return true;
    }
    if has_prefix(ip, "100.") && second_octet_between(ip, 64, 127) {
        return true;
    }
    if same_text(ip, "::1") {
        return true;
    }
    has_prefix(ip, "fc") || has_prefix(ip, "fd") || has_prefix(ip, "fe8") || has_prefix(ip, "fe9")
        || has_prefix(ip, "fea") || has_prefix(ip, "feb")
}

/// The room key of an address: the shared local key for private addresses, else the
/// address itself.
pub open spec fn origin_key_of(ip: Seq<char>) -> Seq<char> {
    if is_private_addr(ip) { LOCAL_ORIGIN@ } else { ip }
}

/// The room key for a client address.
pub fn origin_key(ip: &str) -> (r: String)
    ensures
        r@ == origin_key_of(ip@),
{
    if is_private_ip(ip) {
        LOCAL_ORIGIN.to_owned()
    } else {
        ip.to_owned()
    }
}

/// `t` is a contiguous part of `s`.
pub open spec fn is_infix(t: Seq<char>, s: Seq<char>) -> bool {
    exists|i: int, j: int| 0 <= i <= j <= s.len() && t == s.subrange(i, j)
}

/// What `str::trim` gives for `s`.
pub uninterp spec fn trimmed(s: Seq<char>) -> Seq<char>;

/// Relies on `str::trim`: `s` without leading and trailing white space, which is a
/// contiguous part of `s`.
#[verifier::external_body]
fn trim_text(s: &str) -> (r: String)
    ensures
        r@ == trimmed(s@),
        is_infix(r@, s@),
{
    s.trim().to_owned()
}

/// The first comma-separated entry of a forwarding header, as it is read there.
pub open spec fn first_forwarded_of(header: Seq<char>) -> Seq<char> {
    trimmed(header.subrange(0, next_index_of(header, ',', 0)))
}

/// The client address named first in a forwarding header.
pub fn first_forwarded(header: &str) -> (r: String)
    ensures
        r@ == first_forwarded_of(header@),
{
    let end = find_from(header, ',', 0);
    trim_text(header.substring_char(0, end))
}

/// The room key of a connection: from the forwarding header's first address when the
/// header is present, else from the transport's peer address.
pub fn effective_origin(forwarded: Option<&str>, peer_ip: &str) -> (r: String)
    ensures
        r@ == origin_key_of(
            match forwarded {
                Some(h) => first_forwarded_of(h@),
                None => peer_ip@,
            },
        ),
{
    match forwarded {
        Some(h) => {
            let first = first_forwarded(h);
            origin_key(first.as_str())
        },
        None => origin_key(peer_ip),
    }
}

} // verus!
