//! Internet addresses and which of them are public.

use crate::text::{decimal, ends_with, join5, join3, same_text, to_lower, chars_of, string_of};
use vstd::prelude::*;

verus! {

/// An internet address as the number that its bits spell.
#[derive(Clone, Copy, Debug, PartialEq, Eq, Hash, Structural)]
pub enum IpAddress {
    V4(u32),
    V6(u128),
}

/// Octet `index` of an IPv4 address, counted from the left.
pub open spec fn octet(address: u32, index: int) -> int {
    if index == 0 {
        address as int / 0x100_0000
    } else if index == 1 {
        (address as int / 0x1_0000) % 256
    } else if index == 2 {
        (address as int / 0x100) % 256
    } else {
        address as int % 256
    }
}

/// The address `a.b.c.d`.
pub fn ipv4(a: u8, b: u8, c: u8, d: u8) -> (address: u32)
    ensures
        octet(address, 0) == a,
        octet(address, 1) == b,
        octet(address, 2) == c,
        octet(address, 3) == d,
{
    let top: u32 = a as u32 * 256 + b as u32;
    let front: u32 = top * 256 + c as u32;
    let address: u32 = front * 256 + d as u32;
    proof {
        lemma_cut(front as int, d as int);
        lemma_cut(top as int, c as int);
        lemma_cut(a as int, b as int);
        lemma_cut_twice(address as int);
        lemma_cut_twice(front as int);
        assert(address as int / 0x1_0000 == top);
        assert(front as int / 0x1_0000 == a);
        assert(address as int / 0x100_0000 == (address as int / 0x100) / 0x1_0000);
    }
    address
}

proof fn lemma_cut(front: int, last: int)
    requires
        0 <= last < 256,
        0 <= front,
    ensures
        (front * 256 + last) / 256 == front,
        (front * 256 + last) % 256 == last,
{
}

proof fn lemma_cut_twice(value: int)
    requires
        0 <= value,
    ensures
        value / 0x1_0000 == (value / 0x100) / 0x100,
{
}

/// Ranges of IPv4 that are local, reserved, for documentation, for
/// benchmarking or for multicast.
pub open spec fn reserved_ipv4(address: u32) -> bool {
    let a = octet(address, 0);
    let b = octet(address, 1);
    let c = octet(address, 2);
    ||| a == 0
    ||| a == 10
    ||| a == 127
    ||| a == 100 && 64 <= b <= 127
    ||| a == 169 && b == 254
    ||| a == 172 && 16 <= b <= 31
    ||| a == 192 && b == 0 && c == 0
    ||| a == 192 && b == 0 && c == 2
    ||| a == 192 && b == 88 && c == 99
    ||| a == 192 && b == 168
    ||| a == 198 && (b == 18 || b == 19)
    ||| a == 198 && b == 51 && c == 100
    ||| a == 203 && b == 0 && c == 113
    ||| a >= 224
}

/// Sixteen-bit group `index` (0 or 1) of an IPv6 address, from the left.
pub open spec fn group(address: u128, index: int) -> int {
    if index == 0 {
        address as int / 0x1_0000_0000_0000_0000_0000_0000_0000
    } else {
        (address as int / 0x1_0000_0000_0000_0000_0000_0000) % 0x1_0000
    }
}

/// The IPv4 address inside `::ffff:a.b.c.d`.
pub open spec fn mapped_ipv4(address: u128) -> Option<u32> {
    if address as int / 0x1_0000_0000 == 0xffff {
        Some((address as int % 0x1_0000_0000) as u32)
    } else {
        None
    }
}

/// Whether an address is fit for direct access over the public internet.
pub open spec fn is_public(address: IpAddress) -> bool {
    match address {
        IpAddress::V4(address) => !reserved_ipv4(address),
        IpAddress::V6(address) => match mapped_ipv4(address) {
            Some(mapped) => !reserved_ipv4(mapped),
            None => {
                let a = group(address, 0);
                let b = group(address, 1);
                // Global unicast: the top three bits are 001.
                &&& 0x2000 <= a < 0x4000
                // Protocol assignments, 2001::/23.
                &&& !(a == 0x2001 && b < 0x200)
                // Documentation, 2001:db8::/32 and 3fff::/20.
                &&& !(a == 0x2001 && b == 0xdb8)
                &&& !(a == 0x3fff && b < 0x1000)
                // The deprecated 6to4 transition, 2002::/16.
                &&& a != 0x2002
            },
        },
    }
}

fn is_public_ipv4(address: u32) -> (public: bool)
    ensures
        public == !reserved_ipv4(address),
{
    let a: u32 = address / 0x100_0000;
    let b: u32 = (address / 0x1_0000) % 256;
    let c: u32 = (address / 0x100) % 256;
    !(a == 0 || a == 10 || a == 127 || (a == 100 && 64 <= b && b <= 127) || (a == 169 && b == 254)
        || (a == 172 && 16 <= b && b <= 31) || (a == 192 && b == 0 && c == 0) || (a == 192 && b == 0
        && c == 2) || (a == 192 && b == 88 && c == 99) || (a == 192 && b == 168) || (a == 198 && (b
        == 18 || b == 19)) || (a == 198 && b == 51 && c == 100) || (a == 203 && b == 0 && c == 113)
        || a >= 224)
}

fn is_public_ipv6(address: u128) -> (public: bool)
    ensures
        public == is_public(IpAddress::V6(address)),
{
    if address / 0x1_0000_0000 == 0xffff {
        return is_public_ipv4((address % 0x1_0000_0000) as u32);
    }
    let a: u128 = address / 0x1_0000_0000_0000_0000_0000_0000_0000;
    let b: u128 = (address / 0x1_0000_0000_0000_0000_0000_0000) % 0x1_0000;
    let global_unicast = 0x2000 <= a && a < 0x4000;
    let protocol_assignments = a == 0x2001 && b < 0x200;
    let documentation = (a == 0x2001 && b == 0xdb8) || (a == 0x3fff && b < 0x1000);
    let six_to_four = a == 0x2002;
    global_unicast && !protocol_assignments && !documentation && !six_to_four
}

/// Whether an address is fit for direct access over the public internet.
pub fn is_public_ip(address: IpAddress) -> (public: bool)
    ensures
        public == is_public(address),
{
    match address {
        IpAddress::V4(address) => is_public_ipv4(address),
        IpAddress::V6(address) => is_public_ipv6(address),
    }
}

/// The IPv4 order comes before the IPv6 order; within each, by number.
pub open spec fn address_before(a: IpAddress, b: IpAddress) -> bool {
    match (a, b) {
        (IpAddress::V4(a), IpAddress::V4(b)) => a < b,
        (IpAddress::V4(_), IpAddress::V6(_)) => true,
        (IpAddress::V6(_), IpAddress::V4(_)) => false,
        (IpAddress::V6(a), IpAddress::V6(b)) => a < b,
    }
}

/// Whether one address comes before another.
pub fn comes_before(a: IpAddress, b: IpAddress) -> (before: bool)
    ensures
        before == address_before(a, b),
{
    match (a, b) {
        (IpAddress::V4(a), IpAddress::V4(b)) => a < b,
        (IpAddress::V4(_), IpAddress::V6(_)) => true,
        (IpAddress::V6(_), IpAddress::V4(_)) => false,
        (IpAddress::V6(a), IpAddress::V6(b)) => a < b,
    }
}

/// Ascending, no address twice.
pub open spec fn ascending(addresses: Seq<IpAddress>) -> bool {
    forall|i: int, j: int|
        0 <= i < j < addresses.len() ==> address_before(
            #[trigger] addresses[i],
            #[trigger] addresses[j],
        )
}

/// The two lists hold the same addresses.
pub open spec fn same_members(a: Seq<IpAddress>, b: Seq<IpAddress>) -> bool {
    forall|address: IpAddress| #[trigger] a.contains(address) <==> b.contains(address)
}

/// Puts an address in its place, unless it is there.
fn insert_address(addresses: &mut Vec<IpAddress>, address: IpAddress)
    requires
        ascending(old(addresses)@),
    ensures
        ascending(final(addresses)@),
        same_members(final(addresses)@, old(addresses)@.push(address)),
        old(addresses)@.len() <= final(addresses)@.len() <= old(addresses)@.len() + 1,
{
    let ghost start = addresses@;
    let mut at: usize = 0;
    while at < addresses.len() && comes_before(addresses[at], address)
        invariant
            at <= addresses@.len(),
            addresses@ == start,
            forall|i: int| 0 <= i < at ==> address_before(#[trigger] addresses@[i], address),
        decreases addresses@.len() - at,
    {
        at += 1;
    }
    proof {
        assert(start.push(address)[start.len() as int] == address);
        assert forall|x: IpAddress| #[trigger] start.contains(x) implies start.push(
            address,
        ).contains(x) by {
            let i = choose|i: int| 0 <= i < start.len() && start[i] == x;
            assert(start.push(address)[i] == x);
        }
        assert forall|x: IpAddress| #[trigger] start.push(address).contains(x) implies x == address
            || start.contains(x) by {
            let i = choose|i: int| 0 <= i < start.push(address).len() && start.push(address)[i] == x;
            assert(i < start.len() ==> start[i] == x);
        }
    }
    if at < addresses.len() && addresses[at] == address {
        assert(start.contains(address));
        return;
    }
    addresses.insert(at, address);
    proof {
        let grown = addresses@;
        assert(grown == start.insert(at as int, address));
        assert(grown[at as int] == address);
        assert forall|x: IpAddress| #[trigger] grown.contains(x) <==> start.push(address).contains(
            x,
        ) by {
            if grown.contains(x) {
                let i = choose|i: int| 0 <= i < grown.len() && grown[i] == x;
                if i < at {
                    assert(start[i] == x);
                } else if i > at {
                    assert(start[i - 1] == x);
                }
            }
            if start.contains(x) {
                let i = choose|i: int| 0 <= i < start.len() && start[i] == x;
                assert(grown[if i < at { i } else { i + 1 }] == x);
            }
        }
    }
}

/// Sorts addresses and drops what occurs twice.
pub fn sort_addresses(addresses: &Vec<IpAddress>) -> (sorted: Vec<IpAddress>)
    ensures
        ascending(sorted@),
        same_members(sorted@, addresses@),
        sorted@.len() <= addresses@.len(),
        addresses@.len() > 0 ==> sorted@.len() > 0,
{
    let mut sorted: Vec<IpAddress> = Vec::new();
    let mut i: usize = 0;
    assert(same_members(sorted@, addresses@.take(0)));
    while i < addresses.len()
        invariant
            i <= addresses@.len(),
            ascending(sorted@),
            same_members(sorted@, addresses@.take(i as int)),
            sorted@.len() <= i,
        decreases addresses@.len() - i,
    {
        let ghost before = sorted@;
        insert_address(&mut sorted, addresses[i]);
        proof {
            let prefix = addresses@.take(i as int);
            let longer = addresses@.take(i + 1);
            let address = addresses@[i as int];
            assert(longer =~= prefix.push(address));
            assert forall|x: IpAddress| #[trigger] sorted@.contains(x) <==> longer.contains(x) by {
                assert(before.contains(x) <==> prefix.contains(x));
                assert(before.push(address).contains(x) <==> prefix.push(address).contains(x)) by {
                    lemma_push_contains(before, address, x);
                    lemma_push_contains(prefix, address, x);
                }
            }
        }
        i += 1;
    }
    assert(addresses@.take(addresses@.len() as int) =~= addresses@);
    proof {
        if addresses@.len() > 0 {
            assert(addresses@.contains(addresses@[0]));
            assert(sorted@.contains(addresses@[0]));
        }
    }
    sorted
}

proof fn lemma_push_contains(s: Seq<IpAddress>, address: IpAddress, x: IpAddress)
    ensures
        s.push(address).contains(x) <==> s.contains(x) || x == address,
{
    let pushed = s.push(address);
    assert(pushed[s.len() as int] == address);
    if s.contains(x) {
        let i = choose|i: int| 0 <= i < s.len() && s[i] == x;
        assert(pushed[i] == x);
    }
    if pushed.contains(x) {
        let i = choose|i: int| 0 <= i < pushed.len() && pushed[i] == x;
        assert(i < s.len() ==> s[i] == x);
    }
}

/// A text without the dots behind.
pub open spec fn without_trailing_dots(text: Seq<char>) -> Seq<char>
    decreases text.len(),
{
    if text.len() > 0 && text.last() == '.' {
        without_trailing_dots(text.drop_last())
    } else {
        text
    }
}

/// Takes the dots behind off a text.
pub fn trim_trailing_dots(text: &str) -> (trimmed: String)
    ensures
        trimmed@ == without_trailing_dots(text@),
{
    let chars = chars_of(text);
    let mut to: usize = chars.len();
    assert(chars@.subrange(0, to as int) =~= chars@);
    while to > 0 && chars[to - 1] == '.'
        invariant
            to <= chars@.len(),
            without_trailing_dots(chars@) == without_trailing_dots(chars@.subrange(0, to as int)),
        decreases to,
    {
        assert(chars@.subrange(0, to as int).drop_last() =~= chars@.subrange(0, to - 1));
        assert(chars@.subrange(0, to as int).last() == chars@[to - 1]);
        to -= 1;
    }
    proof {
        if to > 0 {
            assert(chars@.subrange(0, to as int).last() == chars@[to - 1]);
        }
    }
    string_of(&chars, 0, to)
}

/// Names that mean the machine itself: `localhost` and everything under it.
pub open spec fn localhost_name(host: Seq<char>) -> bool {
    let name = crate::text::lower_text(without_trailing_dots(host));
    name == "localhost"@ || crate::text::has_suffix(name, ".localhost"@)
}

/// Whether a name means the machine itself.
pub fn is_localhost_name(host: &str) -> (local: bool)
    ensures
        local == localhost_name(host@),
{
    let name = to_lower(trim_trailing_dots(host).as_str());
    same_text(name.as_str(), "localhost") || ends_with(name.as_str(), ".localhost")
}

/// An IPv4 address in dotted decimal.
pub open spec fn ipv4_text(address: u32) -> Seq<char> {
    crate::text::decimal_text(octet(address, 0) as nat) + "."@ + crate::text::decimal_text(
        octet(address, 1) as nat,
    ) + "."@ + crate::text::decimal_text(octet(address, 2) as nat) + "."@
        + crate::text::decimal_text(octet(address, 3) as nat)
}

/// Writes an IPv4 address in dotted decimal.
fn write_ipv4(address: u32) -> (text: String)
    ensures
        text@ == ipv4_text(address),
{
    let a = decimal((address / 0x100_0000) as u64);
    let b = decimal(((address / 0x1_0000) % 256) as u64);
    let c = decimal(((address / 0x100) % 256) as u64);
    let d = decimal((address % 256) as u64);
    let front = join5(a.as_str(), ".", b.as_str(), ".", c.as_str());
    join3(front.as_str(), ".", d.as_str())
}

/// What `Display` of std's IPv6 address writes for the address of this number.
pub uninterp spec fn ipv6_text(address: u128) -> Seq<char>;

/// What parsing a text as std's IPv6 address gives, as a number.
pub uninterp spec fn ipv6_value(text: Seq<char>) -> Option<u128>;

/// `FromStr` of std's IPv4 address accepts exactly the dotted decimal form
/// without leading zeros.
#[verifier::external_body]
fn parse_ipv4(text: &str) -> (address: Option<u32>)
    ensures
        match address {
            Some(address) => text@ == ipv4_text(address),
            None => forall|other: u32| text@ != #[trigger] ipv4_text(other),
        },
{
    match text.parse().map(url::Host::<String>::Ipv4) {
        Ok(url::Host::Ipv4(address)) => Some(address.into()),
        _ => None,
    }
}

/// `FromStr` of std's IPv6 address: a function of the text, named
/// [`ipv6_value`].
#[verifier::external_body]
fn parse_ipv6(text: &str) -> (address: Option<u128>)
    ensures
        address == ipv6_value(text@),
{
    match text.parse().map(url::Host::<String>::Ipv6) {
        Ok(url::Host::Ipv6(address)) => Some(address.into()),
        _ => None,
    }
}

/// `Display` of std's IPv6 address: a function of the address, named
/// [`ipv6_text`].
#[verifier::external_body]
fn write_ipv6(address: u128) -> (text: String)
    ensures
        text@ == ipv6_text(address),
{
    match url::Host::<String>::Ipv6(address.into()) {
        url::Host::Ipv6(address) => address.to_string(),
        other => other.to_string(),
    }
}

/// An address in its usual form.
pub open spec fn address_text(address: IpAddress) -> Seq<char> {
    match address {
        IpAddress::V4(address) => ipv4_text(address),
        IpAddress::V6(address) => ipv6_text(address),
    }
}

/// Writes an address in its usual form.
pub fn write_address(address: IpAddress) -> (text: String)
    ensures
        text@ == address_text(address),
{
    match address {
        IpAddress::V4(address) => write_ipv4(address),
        IpAddress::V6(address) => write_ipv6(address),
    }
}

/// The address that a text is the literal of.
pub open spec fn literal_of(text: Seq<char>, address: IpAddress) -> bool {
    match address {
        IpAddress::V4(address) => text == ipv4_text(address),
        IpAddress::V6(address) => ipv6_value(text) == Some(address) && forall|other: u32|
            text != #[trigger] ipv4_text(other),
    }
}

/// No address has this text as its literal.
pub open spec fn no_literal(text: Seq<char>) -> bool {
    ipv6_value(text) is None && forall|other: u32| text != #[trigger] ipv4_text(other)
}

/// Reads an address literal, IPv4 before IPv6.
pub fn parse_address(text: &str) -> (address: Option<IpAddress>)
    ensures
        match address {
            Some(address) => literal_of(text@, address),
            None => no_literal(text@),
        },
{
    match parse_ipv4(text) {
        Some(address) => Some(IpAddress::V4(address)),
        None => match parse_ipv6(text) {
            Some(address) => Some(IpAddress::V6(address)),
            None => None,
        },
    }
}

/// A decimal number is made of digits, at least one.
proof fn lemma_decimal_digits(value: nat)
    ensures
        crate::text::decimal_text(value).len() > 0,
        forall|i: int|
            0 <= i < crate::text::decimal_text(value).len() ==> '0' <= #[trigger] crate::text::decimal_text(
                value,
            )[i] <= '9',
    decreases value,
{
    if value >= 10 {
        lemma_decimal_digits(value / 10);
    }
}

/// A decimal number can be read back.
proof fn lemma_decimal_injective(a: nat, b: nat)
    requires
        crate::text::decimal_text(a) == crate::text::decimal_text(b),
    ensures
        a == b,
    decreases a,
{
    let left = crate::text::decimal_text(a);
    let right = crate::text::decimal_text(b);
    lemma_decimal_digits(a / 10);
    lemma_decimal_digits(b / 10);
    assert(left.last() == crate::text::digit(a % 10));
    assert(right.last() == crate::text::digit(b % 10));
    if a < 10 {
        assert(left.len() == 1);
    } else {
        assert(left.drop_last() =~= crate::text::decimal_text(a / 10));
        assert(b >= 10) by {
            if b < 10 {
                assert(right.len() == 1);
            }
        }
        assert(right.drop_last() =~= crate::text::decimal_text(b / 10));
        lemma_decimal_injective(a / 10, b / 10);
    }
}

/// Where two texts are cut by their first dot, the pieces agree.
proof fn lemma_first_dot(a: Seq<char>, c: Seq<char>, b: Seq<char>, d: Seq<char>)
    requires
        a + "."@ + c == b + "."@ + d,
        forall|i: int| 0 <= i < a.len() ==> '0' <= #[trigger] a[i] <= '9',
        forall|i: int| 0 <= i < b.len() ==> '0' <= #[trigger] b[i] <= '9',
    ensures
        a == b,
        c == d,
{
    reveal_strlit(".");
    let left = a + "."@ + c;
    let right = b + "."@ + d;
    assert(left[a.len() as int] == '.');
    assert(right[b.len() as int] == '.');
    if a.len() < b.len() {
        assert(right[a.len() as int] == b[a.len() as int]);
    } else if b.len() < a.len() {
        assert(left[b.len() as int] == a[b.len() as int]);
    }
    assert(a =~= left.take(a.len() as int));
    assert(b =~= right.take(b.len() as int));
    assert(c =~= left.skip(a.len() as int + 1));
    assert(d =~= right.skip(b.len() as int + 1));
}

/// The text is made of digits.
spec fn only_digits(text: Seq<char>) -> bool {
    forall|i: int| 0 <= i < text.len() ==> '0' <= #[trigger] text[i] <= '9'
}

/// Four texts with dots between them.
spec fn four_parts(a: Seq<char>, b: Seq<char>, c: Seq<char>, d: Seq<char>) -> Seq<char> {
    a + "."@ + b + "."@ + c + "."@ + d
}

/// The first of four parts stands before the first dot, and the others after it.
proof fn lemma_parts_nest(a: Seq<char>, b: Seq<char>, c: Seq<char>, d: Seq<char>)
    ensures
        four_parts(a, b, c, d) == a + "."@ + (b + "."@ + (c + "."@ + d)),
{
    assert(four_parts(a, b, c, d) =~= a + "."@ + (b + "."@ + (c + "."@ + d)));
}

/// Four parts can be read back.
proof fn lemma_four_parts(
    a: (Seq<char>, Seq<char>, Seq<char>, Seq<char>),
    b: (Seq<char>, Seq<char>, Seq<char>, Seq<char>),
)
    requires
        four_parts(a.0, a.1, a.2, a.3) == four_parts(b.0, b.1, b.2, b.3),
        only_digits(a.0) && only_digits(a.1) && only_digits(a.2),
        only_digits(b.0) && only_digits(b.1) && only_digits(b.2),
    ensures
        a.0 == b.0 && a.1 == b.1 && a.2 == b.2 && a.3 == b.3,
{
    lemma_parts_nest(a.0, a.1, a.2, a.3);
    lemma_parts_nest(b.0, b.1, b.2, b.3);
    lemma_first_dot(
        a.0,
        a.1 + "."@ + (a.2 + "."@ + a.3),
        b.0,
        b.1 + "."@ + (b.2 + "."@ + b.3),
    );
    lemma_first_dot(a.1, a.2 + "."@ + a.3, b.1, b.2 + "."@ + b.3);
    lemma_first_dot(a.2, a.3, b.2, b.3);
}

/// The octet in decimal.
spec fn octet_text(address: u32, index: int) -> Seq<char> {
    crate::text::decimal_text(octet(address, index) as nat)
}

/// The same text names the same octet.
proof fn lemma_octet_text(a: u32, b: u32, index: int)
    ensures
        only_digits(octet_text(a, index)),
        octet_text(a, index) == octet_text(b, index) ==> octet(a, index) == octet(b, index),
{
    lemma_decimal_digits(octet(a, index) as nat);
    if octet_text(a, index) == octet_text(b, index) {
        lemma_decimal_injective(octet(a, index) as nat, octet(b, index) as nat);
    }
}

/// Dotted decimal begins and ends with a digit, and is made of digits and dots.
pub proof fn lemma_ipv4_characters(address: u32)
    ensures
        ipv4_text(address).len() > 0,
        '0' <= ipv4_text(address)[0] <= '9',
        '0' <= ipv4_text(address).last() <= '9',
        forall|i: int|
            0 <= i < ipv4_text(address).len() ==> ('0' <= #[trigger] ipv4_text(address)[i] <= '9')
                || ipv4_text(address)[i] == '.',
{
    reveal_strlit(".");
    lemma_decimal_digits(octet(address, 0) as nat);
    lemma_decimal_digits(octet(address, 1) as nat);
    lemma_decimal_digits(octet(address, 2) as nat);
    lemma_decimal_digits(octet(address, 3) as nat);
    let front = octet_text(address, 0) + "."@ + octet_text(address, 1);
    let middle = front + "."@ + octet_text(address, 2);
    assert(ipv4_text(address) == middle + "."@ + octet_text(address, 3));
    assert forall|i: int| 0 <= i < front.len() implies ('0' <= #[trigger] front[i] <= '9')
        || front[i] == '.' by {}
    assert forall|i: int| 0 <= i < middle.len() implies ('0' <= #[trigger] middle[i] <= '9')
        || middle[i] == '.' by {
        if i < front.len() {
            assert(middle[i] == front[i]);
        }
    }
    assert forall|i: int| 0 <= i < ipv4_text(address).len() implies ('0'
        <= #[trigger] ipv4_text(address)[i] <= '9') || ipv4_text(address)[i] == '.' by {
        if i < middle.len() {
            assert(ipv4_text(address)[i] == middle[i]);
        }
    }
    assert(ipv4_text(address)[0] == middle[0] && middle[0] == front[0] && front[0] == octet_text(
        address,
        0,
    )[0]);
    assert(ipv4_text(address).last() == octet_text(address, 3).last());
}

/// Dotted decimal can be read back.
proof fn lemma_ipv4_text_injective(a: u32, b: u32)
    requires
        ipv4_text(a) == ipv4_text(b),
    ensures
        a == b,
{
    let left = (octet_text(a, 0), octet_text(a, 1), octet_text(a, 2), octet_text(a, 3));
    let right = (octet_text(b, 0), octet_text(b, 1), octet_text(b, 2), octet_text(b, 3));
    assert(ipv4_text(a) == four_parts(left.0, left.1, left.2, left.3));
    assert(ipv4_text(b) == four_parts(right.0, right.1, right.2, right.3));
    lemma_octet_text(a, b, 0);
    lemma_octet_text(a, b, 1);
    lemma_octet_text(a, b, 2);
    lemma_octet_text(a, b, 3);
    lemma_octet_text(b, a, 0);
    lemma_octet_text(b, a, 1);
    lemma_octet_text(b, a, 2);
    lemma_four_parts(left, right);
    lemma_octets_make_the_address(a);
    lemma_octets_make_the_address(b);
}

proof fn lemma_octets_make_the_address(address: u32)
    ensures
        address == ((octet(address, 0) * 256 + octet(address, 1)) * 256 + octet(address, 2)) * 256
            + octet(address, 3),
{
    let value = address as int;
    lemma_cut_twice(value);
    lemma_cut_twice(value / 0x100);
    assert(value / 0x100_0000 == (value / 0x100) / 0x1_0000);
    assert(value == (value / 0x100) * 256 + value % 256);
    assert(value / 0x100 == (value / 0x1_0000) * 256 + (value / 0x100) % 256);
    assert(value / 0x1_0000 == (value / 0x100_0000) * 256 + (value / 0x1_0000) % 256);
}

/// A text is the literal of at most one address.
pub proof fn law_a_literal_names_one_address(text: Seq<char>, a: IpAddress, b: IpAddress)
    requires
        literal_of(text, a),
        literal_of(text, b),
    ensures
        a == b,
{
    match (a, b) {
        (IpAddress::V4(x), IpAddress::V4(y)) => {
            lemma_ipv4_text_injective(x, y);
        },
        (IpAddress::V4(x), IpAddress::V6(_)) => {
            assert(text == ipv4_text(x));
        },
        (IpAddress::V6(_), IpAddress::V4(y)) => {
            assert(text == ipv4_text(y));
        },
        (IpAddress::V6(_), IpAddress::V6(_)) => {},
    }
}

/// Sorting fixes the result: two ascending lists with the same members are
/// equal.
pub proof fn law_sorted_addresses_are_unique(a: Seq<IpAddress>, b: Seq<IpAddress>)
    requires
        ascending(a),
        ascending(b),
        same_members(a, b),
    ensures
        a == b,
    decreases a.len(),
{
    if a.len() == 0 {
        if b.len() > 0 {
            assert(b.contains(b[0]));
            assert(a.contains(b[0]));
        }
        assert(a =~= b);
    } else {
        assert(a.contains(a.last()));
        assert(b.contains(a.last()));
        let i = choose|i: int| 0 <= i < b.len() && b[i] == a.last();
        assert(b.contains(b.last()));
        assert(a.contains(b.last()));
        let j = choose|j: int| 0 <= j < a.len() && a[j] == b.last();
        assert(a.last() == b.last());
        let shorter_a = a.drop_last();
        let shorter_b = b.drop_last();
        assert forall|x: IpAddress| #[trigger] shorter_a.contains(x) <==> shorter_b.contains(x) by {
            if shorter_a.contains(x) {
                let k = choose|k: int| 0 <= k < shorter_a.len() && shorter_a[k] == x;
                assert(a[k] == x);
                assert(a.contains(x));
                let m = choose|m: int| 0 <= m < b.len() && b[m] == x;
                assert(m < shorter_b.len());
                assert(shorter_b[m] == x);
            }
            if shorter_b.contains(x) {
                let k = choose|k: int| 0 <= k < shorter_b.len() && shorter_b[k] == x;
                assert(b[k] == x);
                assert(b.contains(x));
                assert(a.contains(x));
                let m = choose|m: int| 0 <= m < a.len() && a[m] == x;
                assert(m < shorter_a.len());
                assert(shorter_a[m] == x);
            }
        }
        law_sorted_addresses_are_unique(shorter_a, shorter_b);
        assert(a =~= shorter_a.push(a.last()));
        assert(b =~= shorter_b.push(b.last()));
    }
}

/// The octets of an address are its digits to the base 256, from the left.
pub proof fn law_octets_make_up_the_address(address: u32)
    ensures
        address == ((octet(address, 0) * 256 + octet(address, 1)) * 256 + octet(address, 2)) * 256
            + octet(address, 3),
        0 <= octet(address, 0) < 256,
        0 <= octet(address, 1) < 256,
        0 <= octet(address, 2) < 256,
        0 <= octet(address, 3) < 256,
{
}

/// Which numbers of an address lie in a block, by its octets.
proof fn lemma_blocks(address: int, a: int, b: int, c: int, d: int)
    requires
        0 <= a < 256,
        0 <= b < 256,
        0 <= c < 256,
        0 <= d < 256,
        address == ((a * 256 + b) * 256 + c) * 256 + d,
    ensures
        address < 0x0100_0000 <==> a == 0,
        address >= 0xe000_0000 <==> a >= 224,
        0x0a00_0000 <= address <= 0x0aff_ffff <==> a == 10,
        0x6440_0000 <= address <= 0x647f_ffff <==> a == 100 && 64 <= b <= 127,
        0x7f00_0000 <= address <= 0x7fff_ffff <==> a == 127,
        0xa9fe_0000 <= address <= 0xa9fe_ffff <==> a == 169 && b == 254,
        0xac10_0000 <= address <= 0xac1f_ffff <==> a == 172 && 16 <= b <= 31,
        0xc000_0000 <= address <= 0xc000_00ff <==> a == 192 && b == 0 && c == 0,
        0xc000_0200 <= address <= 0xc000_02ff <==> a == 192 && b == 0 && c == 2,
        0xc058_6300 <= address <= 0xc058_63ff <==> a == 192 && b == 88 && c == 99,
        0xc0a8_0000 <= address <= 0xc0a8_ffff <==> a == 192 && b == 168,
        0xc612_0000 <= address <= 0xc613_ffff <==> a == 198 && 18 <= b <= 19,
        0xc633_6400 <= address <= 0xc633_64ff <==> a == 198 && b == 51 && c == 100,
        0xcb00_7100 <= address <= 0xcb00_71ff <==> a == 203 && b == 0 && c == 113,
{
}

/// An IPv4 address is public if and only if it lies outside of the blocks for this
/// network, private use, shared use, loopback, links, protocols, documentation, relays,
/// benchmarks, multicast and the future.
pub proof fn law_public_ipv4_lies_outside_the_reserved_blocks(address: u32)
    ensures
        is_public(IpAddress::V4(address)) <==> {
            &&& 0x0100_0000 <= address < 0xe000_0000
            &&& !(0x0a00_0000 <= address <= 0x0aff_ffff)
            &&& !(0x6440_0000 <= address <= 0x647f_ffff)
            &&& !(0x7f00_0000 <= address <= 0x7fff_ffff)
            &&& !(0xa9fe_0000 <= address <= 0xa9fe_ffff)
            &&& !(0xac10_0000 <= address <= 0xac1f_ffff)
            &&& !(0xc000_0000 <= address <= 0xc000_00ff)
            &&& !(0xc000_0200 <= address <= 0xc000_02ff)
            &&& !(0xc058_6300 <= address <= 0xc058_63ff)
            &&& !(0xc0a8_0000 <= address <= 0xc0a8_ffff)
            &&& !(0xc612_0000 <= address <= 0xc613_ffff)
            &&& !(0xc633_6400 <= address <= 0xc633_64ff)
            &&& !(0xcb00_7100 <= address <= 0xcb00_71ff)
        },
{
    law_octets_make_up_the_address(address);
    let (a, b, c) = (octet(address, 0), octet(address, 1), octet(address, 2));
    lemma_blocks(address as int, a, b, c, octet(address, 3));
}

/// An IPv6 address that stands for one of IPv4 is public if and only if that is.
pub proof fn law_mapped_addresses_are_those_of_ipv4(mapped: u32)
    ensures
        is_public(IpAddress::V6((0xffff_0000_0000 + mapped) as u128)) <==> is_public(
            IpAddress::V4(mapped),
        ),
{
    let address = (0xffff_0000_0000 + mapped) as u128;
    assert(address as int / 0x1_0000_0000 == 0xffff);
    assert(address as int % 0x1_0000_0000 == mapped);
}

/// The first two groups of an IPv6 address are its upper 32 bits.
proof fn lemma_groups(address: u128)
    ensures
        ({
            let upper = address as int / 0x1_0000_0000_0000_0000_0000_0000;
            &&& group(address, 0) == upper / 0x1_0000
            &&& group(address, 1) == upper % 0x1_0000
        }),
{
    vstd::arithmetic::div_mod::lemma_div_denominator(
        address as int,
        0x1_0000_0000_0000_0000_0000_0000,
        0x1_0000,
    );
}

/// An IPv6 address that does not stand for one of IPv4 is public if and only if it is
/// global unicast and lies outside of the blocks for protocols, documentation and the
/// transition from IPv4.
pub proof fn law_public_ipv6_is_global_unicast(address: u128)
    requires
        !(0xffff_0000_0000 <= address <= 0xffff_ffff_ffff),
    ensures
        is_public(IpAddress::V6(address)) <==> {
            let upper = address as int / 0x1_0000_0000_0000_0000_0000_0000;
            &&& 0x2000_0000 <= upper < 0x4000_0000
            &&& !(0x2001_0000 <= upper < 0x2001_0200)
            &&& upper != 0x2001_0db8
            &&& !(0x2002_0000 <= upper < 0x2003_0000)
            &&& !(0x3fff_0000 <= upper < 0x3fff_1000)
        },
{
    lemma_groups(address);
    assert(address as int / 0x1_0000_0000 != 0xffff);
    assert(mapped_ipv4(address) is None);
}

/// Of two addresses that differ one comes before the other, and IPv4 comes before IPv6.
pub proof fn law_addresses_are_ordered(a: IpAddress, b: IpAddress, c: IpAddress)
    ensures
        address_before(a, b) || address_before(b, a) || a == b,
        !(address_before(a, b) && address_before(b, a)),
        address_before(a, b) && address_before(b, c) ==> address_before(a, c),
        a is V4 && b is V6 ==> address_before(a, b),
        match (a, b) {
            (IpAddress::V4(x), IpAddress::V4(y)) => address_before(a, b) <==> x < y,
            (IpAddress::V6(x), IpAddress::V6(y)) => address_before(a, b) <==> x < y,
            _ => true,
        },
{
}

/// A text without the dots behind is the text but for those dots, and ends with none.
pub proof fn law_only_trailing_dots_are_taken_off(text: Seq<char>)
    ensures
        exists|dots: Seq<char>|
            text == #[trigger] (without_trailing_dots(text) + dots) && forall|i: int|
                0 <= i < dots.len() ==> #[trigger] dots[i] == '.',
        without_trailing_dots(text).len() > 0 ==> without_trailing_dots(text).last() != '.',
    decreases text.len(),
{
    if text.len() > 0 && text.last() == '.' {
        law_only_trailing_dots_are_taken_off(text.drop_last());
        let fewer = choose|dots: Seq<char>|
            text.drop_last() == #[trigger] (without_trailing_dots(text.drop_last()) + dots)
                && forall|i: int| 0 <= i < dots.len() ==> #[trigger] dots[i] == '.';
        let dots = fewer.push('.');
        let inner = without_trailing_dots(text);
        assert(text.drop_last() == inner + fewer);
        assert(text =~= (inner + fewer).push('.'));
        assert((inner + fewer).push('.') =~= inner + dots);
        assert(text =~= without_trailing_dots(text) + dots);
        assert forall|i: int| 0 <= i < dots.len() implies #[trigger] dots[i] == '.' by {
            if i < fewer.len() {
                assert(dots[i] == fewer[i]);
            }
        }
    } else {
        assert(text =~= without_trailing_dots(text) + Seq::<char>::empty());
    }
}

/// A name in lower case without dots behind means the machine itself if and only if it is
/// `localhost` or ends with a dot and that. Dots behind a name, and capitals in it, make
/// no difference.
pub proof fn law_the_machine_is_known_by_its_name(name: Seq<char>)
    ensures
        crate::text::lower_text(name) == name && (name.len() > 0 ==> name.last() != '.') ==> (
        localhost_name(name) <==> name == "localhost"@ || exists|front: Seq<char>|
            name == #[trigger] (front + ".localhost"@)),
        localhost_name(name.push('.')) == localhost_name(name),
        name.len() > 0 && name.last() != '.' ==> localhost_name(crate::text::lower_text(name))
            == localhost_name(name),
{
    assert(name.push('.').drop_last() =~= name);
    crate::text::law_ends_are_parts(name, ".localhost"@);
    if name.len() > 0 && name.last() != '.' {
        let lower = crate::text::lower_text(name);
        crate::text::law_lower_case_is_settled(name, name.len() - 1);
        assert(lower.last() != '.') by {
            let c = name.last();
            assert('A' <= c <= 'Z' ==> lower.last() as u32 == c as u32 + 32);
        }
        assert(without_trailing_dots(lower) == lower);
        assert(without_trailing_dots(name) == name);
    }
}

} // verus!
