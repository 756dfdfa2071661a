//! Network addresses and their text.

use vstd::arithmetic::div_mod::lemma_div_denominator;
use vstd::prelude::*;
use vstd::string::StringExecFns;

use crate::text;

verus! {

/// The TCP port on which every Sonos player answers.
pub const SONOS_PORT: u16 = 1400;

/// An IP address by its numeric value.
#[derive(Clone, Copy, Debug, PartialEq, Eq, PartialOrd, Ord, Hash, Structural)]
pub enum IpAddr {
    V4(u32),
    V6(u128),
}

/// A number in lower-case hexadecimal, without leading zeros.
pub open spec fn hex(n: nat) -> Seq<char>
    decreases n,
{
    if n < 16 {
        seq![crate::ids::hex_char(n)]
    } else {
        hex(n / 16).push(crate::ids::hex_char(n % 16))
    }
}

/// A number in lower-case hexadecimal.
pub fn hex_text(n: u16) -> (s: String)
    ensures
        s@ == hex(n as nat),
    decreases n,
{
    let d: u8 = (n % 16) as u8;
    let c: char = if d < 10 {
        (48 + d) as char
    } else {
        (87 + d) as char
    };
    if n < 16 {
        let mut s = String::new();
        s.push(c);
        assert(s@ =~= seq![crate::ids::hex_char(n as nat)]);
        s
    } else {
        let mut s = hex_text(n / 16);
        s.push(c);
        s
    }
}

/// The dotted decimal text of an IPv4 address.
pub open spec fn v4_words(a: u32) -> Seq<char> {
    text::decimal((a / 0x100_0000) as nat) + "."@ + text::decimal((a / 0x1_0000 % 0x100) as nat)
        + "."@ + text::decimal((a / 0x100 % 0x100) as nat) + "."@ + text::decimal(
        (a % 0x100) as nat,
    )
}

/// The dotted decimal text of an IPv4 address.
pub fn v4_text(a: u32) -> (s: String)
    ensures
        s@ == v4_words(a),
{
    let mut s = text::decimal_text((a / 0x100_0000) as u64);
    s.append(".");
    s.append(text::decimal_text((a / 0x1_0000 % 0x100) as u64).as_str());
    s.append(".");
    s.append(text::decimal_text((a / 0x100 % 0x100) as u64).as_str());
    s.append(".");
    s.append(text::decimal_text((a % 0x100) as u64).as_str());
    s
}

/// The eight 16-bit segments of an IPv6 address.
pub open spec fn segments(v: u128) -> Seq<u16> {
    seq![
        (v / 0x1_0000_0000_0000_0000_0000_0000_0000) as u16,
        (v / 0x1_0000_0000_0000_0000_0000_0000 % 0x1_0000) as u16,
        (v / 0x1_0000_0000_0000_0000_0000 % 0x1_0000) as u16,
        (v / 0x1_0000_0000_0000_0000 % 0x1_0000) as u16,
        (v / 0x1_0000_0000_0000 % 0x1_0000) as u16,
        (v / 0x1_0000_0000 % 0x1_0000) as u16,
        (v / 0x1_0000 % 0x1_0000) as u16,
        (v % 0x1_0000) as u16,
    ]
}

/// The eight 16-bit segments of an IPv6 address.
fn segment_list(v: u128) -> (r: Vec<u16>)
    ensures
        r@ == segments(v),
{
    let mut r: Vec<u16> = Vec::new();
    r.push((v / 0x1_0000_0000_0000_0000_0000_0000_0000) as u16);
    r.push((v / 0x1_0000_0000_0000_0000_0000_0000 % 0x1_0000) as u16);
    r.push((v / 0x1_0000_0000_0000_0000_0000 % 0x1_0000) as u16);
    r.push((v / 0x1_0000_0000_0000_0000 % 0x1_0000) as u16);
    r.push((v / 0x1_0000_0000_0000 % 0x1_0000) as u16);
    r.push((v / 0x1_0000_0000 % 0x1_0000) as u16);
    r.push((v / 0x1_0000 % 0x1_0000) as u16);
    r.push((v % 0x1_0000) as u16);
    assert(r@ =~= segments(v));
    r
}

/// The number of zero segments in a row from position `i` on.
pub open spec fn zero_run(s: Seq<u16>, i: int) -> int
    decreases s.len() - i,
{
    if 0 <= i < s.len() && s[i] == 0 {
        1 + zero_run(s, i + 1)
    } else {
        0
    }
}

/// The position among the first `n` at which the longest row of zero segments
/// begins, the first one where several are equally long.
pub open spec fn longest_run(s: Seq<u16>, n: int) -> int
    decreases n,
{
    if n <= 1 {
        0
    } else {
        let best = longest_run(s, n - 1);
        if zero_run(s, n - 1) > zero_run(s, best) {
            n - 1
        } else {
            best
        }
    }
}

/// Segments in hexadecimal, with colons between them.
pub open spec fn join_segments(s: Seq<u16>) -> Seq<char>
    decreases s.len(),
{
    if s.len() == 0 {
        Seq::empty()
    } else if s.len() == 1 {
        hex(s[0] as nat)
    } else {
        join_segments(s.drop_last()) + ":"@ + hex(s.last() as nat)
    }
}

/// The number of zero segments in a row from position `i` on.
fn count_zeros(s: &Vec<u16>, i: usize) -> (r: usize)
    requires
        i <= s@.len(),
    ensures
        r == zero_run(s@, i as int),
        i + r <= s.len(),
    decreases s@.len() - i,
{
    if i < s.len() && s[i] == 0 {
        1 + count_zeros(s, i + 1)
    } else {
        0
    }
}

/// Segments `from` up to `to` in hexadecimal, with colons between them.
fn join_range(s: &Vec<u16>, from: usize, to: usize) -> (r: String)
    requires
        from <= to <= s@.len(),
    ensures
        r@ == join_segments(s@.subrange(from as int, to as int)),
{
    let mut r = String::new();
    let mut i: usize = from;
    assert(s@.subrange(from as int, from as int) =~= Seq::empty());
    while i < to
        invariant
            from <= i <= to <= s@.len(),
            r@ == join_segments(s@.subrange(from as int, i as int)),
        decreases to - i,
    {
        let ghost done = s@.subrange(from as int, i + 1);
        assert(done.drop_last() =~= s@.subrange(from as int, i as int));
        if i > from {
            r.append(":");
            r.append(hex_text(s[i]).as_str());
        } else {
            r = hex_text(s[i]);
        }
        i = i + 1;
    }
    r
}

/// Whether an IPv6 address is an IPv4 address in disguise.
pub open spec fn v4_mapped(v: u128) -> bool {
    v / 0x1_0000_0000 == 0xffff
}

/// The text of an IPv6 address: the longest row of at least two zero segments
/// is shortened to `::`, and a mapped IPv4 address is shown in dotted decimal.
pub open spec fn v6_words(v: u128) -> Seq<char> {
    let s = segments(v);
    let at = longest_run(s, 8);
    let n = zero_run(s, at);
    if v4_mapped(v) {
        "::ffff:"@ + v4_words((v % 0x1_0000_0000) as u32)
    } else if n > 1 {
        join_segments(s.subrange(0, at)) + "::"@ + join_segments(s.subrange(at + n, 8))
    } else {
        join_segments(s)
    }
}

/// The text of an IPv6 address.
pub fn v6_text(v: u128) -> (r: String)
    ensures
        r@ == v6_words(v),
{
    if v / 0x1_0000_0000 == 0xffff {
        let mut r = "::ffff:".to_owned();
        r.append(v4_text((v % 0x1_0000_0000) as u32).as_str());
        return r;
    }
    let s = segment_list(v);
    let mut best: usize = 0;
    let mut length: usize = count_zeros(&s, 0);
    let mut i: usize = 1;
    while i < 8
        invariant
            s@ == segments(v),
            s@.len() == 8,
            1 <= i <= 8,
            best < 8,
            best == longest_run(s@, i as int),
            length == zero_run(s@, best as int),
            best + length <= 8,
        decreases 8 - i,
    {
        let n = count_zeros(&s, i);
        if n > length {
            best = i;
            length = n;
        }
        i = i + 1;
    }
    if length > 1 {
        let mut r = join_range(&s, 0, best);
        r.append("::");
        r.append(join_range(&s, best + length, 8).as_str());
        r
    } else {
        let r = join_range(&s, 0, 8);
        assert(s@.subrange(0, 8) =~= s@);
        r
    }
}

proof fn lemma_octet_length(n: nat)
    requires
        n < 0x100,
    ensures
        text::decimal(n).len() <= 3,
{
    reveal_with_fuel(vstd::arithmetic::power::pow, 4);
    text::lemma_decimal_length(n, 3);
}

proof fn lemma_v4_length(a: u32)
    ensures
        v4_words(a).len() <= 15,
{
    reveal_strlit(".");
    lemma_octet_length((a / 0x100_0000) as nat);
    lemma_octet_length((a / 0x1_0000 % 0x100) as nat);
    lemma_octet_length((a / 0x100 % 0x100) as nat);
    lemma_octet_length((a % 0x100) as nat);
}

proof fn lemma_join_length(s: Seq<u16>)
    ensures
        join_segments(s).len() <= 5 * s.len(),
    decreases s.len(),
{
    reveal_strlit(":");
    reveal_with_fuel(hex, 4);
    if s.len() > 1 {
        lemma_join_length(s.drop_last());
    }
}

proof fn lemma_run_fits(s: Seq<u16>, i: int)
    requires
        0 <= i <= s.len(),
    ensures
        0 <= zero_run(s, i) <= s.len() - i,
    decreases s.len() - i,
{
    if i < s.len() {
        lemma_run_fits(s, i + 1);
    }
}

proof fn lemma_longest_run_fits(s: Seq<u16>, n: int)
    requires
        0 < n <= s.len(),
    ensures
        0 <= longest_run(s, n) < n,
    decreases n,
{
    if n > 1 {
        lemma_longest_run_fits(s, n - 1);
    }
}

/// The text of an address is short.
pub proof fn lemma_address_length(ip: IpAddr)
    ensures
        ip.words().len() <= 42,
{
    match ip {
        IpAddr::V4(a) => lemma_v4_length(a),
        IpAddr::V6(v) => {
            reveal_strlit("::ffff:");
            reveal_strlit("::");
            lemma_v4_length((v % 0x1_0000_0000) as u32);
            let s = segments(v);
            let at = longest_run(s, 8);
            lemma_longest_run_fits(s, 8);
            lemma_run_fits(s, at);
            lemma_join_length(s);
            lemma_join_length(s.subrange(0, at));
            lemma_join_length(s.subrange(at + zero_run(s, at), 8));
        },
    }
}

impl IpAddr {
    /// The text of the address.
    pub open spec fn words(self) -> Seq<char> {
        match self {
            IpAddr::V4(a) => v4_words(a),
            IpAddr::V6(v) => v6_words(v),
        }
    }

    /// Whether this is the address that stands for every interface.
    pub open spec fn unspecified(self) -> bool {
        self == IpAddr::V4(0) || self == IpAddr::V6(0)
    }

    /// The address and a port, an IPv6 address in brackets.
    pub open spec fn with_port(self, port: u16) -> Seq<char> {
        match self {
            IpAddr::V4(a) => v4_words(a) + ":"@ + text::decimal(port as nat),
            IpAddr::V6(v) => "["@ + v6_words(v) + "]:"@ + text::decimal(port as nat),
        }
    }

    /// Whether the address comes before another: IPv4 before IPv6, then by value.
    pub open spec fn before(self, other: IpAddr) -> bool {
        match (self, other) {
            (IpAddr::V4(a), IpAddr::V4(b)) => a < b,
            (IpAddr::V4(_), IpAddr::V6(_)) => true,
            (IpAddr::V6(_), IpAddr::V4(_)) => false,
            (IpAddr::V6(a), IpAddr::V6(b)) => a < b,
        }
    }

    /// Whether the address comes before another.
    pub fn is_before(&self, other: &IpAddr) -> (r: bool)
        ensures
            r == self.before(*other),
    {
        match (*self, *other) {
            (IpAddr::V4(a), IpAddr::V4(b)) => a < b,
            (IpAddr::V4(_), IpAddr::V6(_)) => true,
            (IpAddr::V6(_), IpAddr::V4(_)) => false,
            (IpAddr::V6(a), IpAddr::V6(b)) => a < b,
        }
    }

    /// The text of the address.
    pub fn text(&self) -> (r: String)
        ensures
            r@ == self.words(),
    {
        match *self {
            IpAddr::V4(a) => v4_text(a),
            IpAddr::V6(v) => v6_text(v),
        }
    }

    /// Whether this is the address that stands for every interface.
    pub fn is_unspecified(&self) -> (r: bool)
        ensures
            r == self.unspecified(),
    {
        match *self {
            IpAddr::V4(a) => a == 0,
            IpAddr::V6(v) => v == 0,
        }
    }

    /// The address and a port, an IPv6 address in brackets.
    pub fn socket_text(&self, port: u16) -> (r: String)
        ensures
            r@ == self.with_port(port),
    {
        match *self {
            IpAddr::V4(a) => {
                let mut r = v4_text(a);
                r.append(":");
                r.append(text::decimal_text(port as u64).as_str());
                r
            },
            IpAddr::V6(v) => {
                let mut r = "[".to_owned();
                r.append(v6_text(v).as_str());
                r.append("]:");
                r.append(text::decimal_text(port as u64).as_str());
                r
            },
        }
    }
}

/// Where the Sonos player at an address answers.
pub fn sonos_addr(ip: IpAddr) -> (r: String)
    ensures
        r@ == ip.with_port(SONOS_PORT),
{
    ip.socket_text(SONOS_PORT)
}

// ---------------------------------------------------------------------------
// Laws
// ---------------------------------------------------------------------------
/// An IPv4 address is written as its four bytes in decimal, the highest first,
/// with dots between them.
pub proof fn v4_addresses_are_written_byte_by_byte(
    address: u32,
    a: u8,
    b: u8,
    c: u8,
    d: u8,
    r: String,
)
    requires
        call_ensures(v4_text, (address,), r),
        address == a * 0x100_0000 + b * 0x1_0000 + c * 0x100 + d,
    ensures
        r@ == text::decimal(a as nat) + "."@ + text::decimal(b as nat) + "."@ + text::decimal(
            c as nat,
        ) + "."@ + text::decimal(d as nat),
{
    let x = address as int;
    let q1 = x / 0x100;
    let q2 = q1 / 0x100;
    lemma_div_denominator(x, 0x100, 0x100);
    lemma_div_denominator(x, 0x1_0000, 0x100);
    assert(q1 == a * 0x1_0000 + b * 0x100 + c && x % 0x100 == d);
    assert(q2 == a * 0x100 + b && q1 % 0x100 == c);
    assert(q2 / 0x100 == a && q2 % 0x100 == b);
}

/// A number in hexadecimal is read back, and has no leading zero.
pub proof fn hexadecimal_is_read_back(n: u16, r: String)
    requires
        call_ensures(hex_text, (n,), r),
    ensures
        crate::ids::hex_value(r@) == Some(n as nat),
        r@.len() > 0,
        n > 0 ==> r@[0] != '0',
{
    lemma_hex_read_back(n as nat);
}

proof fn lemma_hex_read_back(n: nat)
    ensures
        hex(n).len() > 0,
        crate::ids::hex_value(hex(n)) == Some(n),
        n > 0 ==> hex(n)[0] != '0',
    decreases n,
{
    if n < 16 {
        let s = seq![crate::ids::hex_char(n)];
        assert(s.drop_last() =~= Seq::empty());
        assert(crate::ids::hex_value(s.drop_last()) == Some(0nat));
        assert(crate::ids::hex_digit(s.last()) == Some(n));
    } else {
        lemma_hex_read_back(n / 16);
        let s = hex(n);
        assert(s.drop_last() =~= hex(n / 16));
        assert(crate::ids::hex_digit(s.last()) == Some(n % 16));
        assert(s[0] == hex(n / 16)[0]);
    }
}

proof fn lemma_zero_run(s: Seq<u16>, i: int)
    requires
        0 <= i <= s.len(),
    ensures
        0 <= zero_run(s, i) <= s.len() - i,
        forall|k: int| i <= k < i + zero_run(s, i) ==> s[k] == 0,
        i + zero_run(s, i) < s.len() ==> s[i + zero_run(s, i)] != 0,
    decreases s.len() - i,
{
    if i < s.len() && s[i] == 0 {
        lemma_zero_run(s, i + 1);
    }
}

proof fn lemma_longest_run(s: Seq<u16>, n: int)
    requires
        0 < n <= s.len(),
    ensures
        0 <= longest_run(s, n) < n,
        forall|k: int|
            0 <= k < n ==> #[trigger] zero_run(s, k) <= zero_run(s, longest_run(s, n)),
        forall|k: int|
            0 <= k < longest_run(s, n) ==> #[trigger] zero_run(s, k) < zero_run(
                s,
                longest_run(s, n),
            ),
    decreases n,
{
    if n > 1 {
        lemma_longest_run(s, n - 1);
    }
}

/// Whether there are so many zero groups from a position on.
pub open spec fn zeros(s: Seq<u16>, at: int, n: int) -> bool {
    0 <= at && 0 <= n && at + n <= s.len() && forall|k: int| at <= k < at + n ==> s[k] == 0
}

/// Of an IPv6 address that is not an IPv4 address in disguise, the longest run of
/// two or more zero groups, the first of several, is written as two colons; the
/// groups before and after it are written out. Without such a run, all eight are.
pub proof fn the_longest_run_of_zeros_is_left_out(v: u128, r: String, at: int, n: int)
    requires
        call_ensures(v6_text, (v,), r),
        v / 0x1_0000_0000 != 0xffff,
        zeros(segments(v), at, n),
        forall|i: int, len: int| #[trigger]
            zeros(segments(v), i, len) && len > 0 ==> len < n || (len == n && i >= at),
    ensures
        n > 1 ==> r@ == join_segments(segments(v).subrange(0, at)) + "::"@ + join_segments(
            segments(v).subrange(at + n, 8),
        ),
        n <= 1 ==> r@ == join_segments(segments(v)),
{
    let s = segments(v);
    let best = longest_run(s, 8);
    let len = zero_run(s, best);
    lemma_longest_run(s, 8);
    lemma_zero_run(s, best);
    assert(zeros(s, best, len));
    if n > 0 {
        let found = zero_run(s, at);
        lemma_zero_run(s, at);
        assert(found >= n) by {
            if found < n {
                assert(s[at + found] == 0);
            }
        }
        assert(zeros(s, at, found));
        assert(found == n);
        assert(len == n && best >= at);
        assert(best == at);
    }
}

/// An address comes before another where its number is smaller, and an IPv4
/// address before every IPv6 address; of two that differ, exactly one is first.
pub proof fn addresses_are_ordered(a: &IpAddr, b: &IpAddr, ab: bool, ba: bool)
    requires
        call_ensures(IpAddr::is_before, (a, b), ab),
        call_ensures(IpAddr::is_before, (b, a), ba),
    ensures
        !(ab && ba),
        a != b ==> ab || ba,
        a == b ==> !ab && !ba,
        a matches IpAddr::V4(x) ==> (b matches IpAddr::V4(y) ==> (ab <==> *x < *y)),
        a matches IpAddr::V6(x) ==> (b matches IpAddr::V6(y) ==> (ab <==> *x < *y)),
        a is V4 && b is V6 ==> ab,
{
}

/// The address of a player's service ends in the port 1400, behind a colon, and
/// an IPv6 address stands in brackets there.
pub proof fn players_are_reached_at_their_port(ip: IpAddr, r: String)
    requires
        call_ensures(sonos_addr, (ip,), r),
    ensures
        r@.len() > 5,
        r@.skip(r@.len() - 5) == ":1400"@,
        ip is V6 <==> r@[0] == '[',
        ip is V4 ==> r@.take(r@.len() - 5) == ip.words(),
        ip is V6 ==> r@.take(r@.len() - 5) == "["@ + ip.words() + "]"@,
{
    reveal_strlit(":1400");
    reveal_strlit(":");
    reveal_strlit("[");
    reveal_strlit("]:");
    reveal_strlit("]");
    reveal_with_fuel(text::decimal, 4);
    assert(text::decimal(1400) =~= seq!['1', '4', '0', '0']);
    match ip {
        IpAddr::V4(a) => {
            text::lemma_decimal_digits((a / 0x100_0000) as nat);
            assert(r@[0] == text::decimal((a / 0x100_0000) as nat)[0]);
        },
        IpAddr::V6(v) => {
            assert(r@[0] == "["@[0]);
            assert(r@.take(r@.len() - 5) =~= "["@ + ip.words() + "]"@);
        },
    }
    assert(r@.skip(r@.len() - 5) =~= ":1400"@);
    if ip is V4 {
        assert(r@.take(r@.len() - 5) =~= ip.words());
    }
}

/// An address is unspecified where all of its bits are zero.
pub proof fn unspecified_addresses_are_zero(ip: &IpAddr, r: bool)
    requires
        call_ensures(IpAddr::is_unspecified, (ip,), r),
    ensures
        ip matches IpAddr::V4(a) ==> (r <==> a == 0),
        ip matches IpAddr::V6(v) ==> (r <==> v == 0),
{
}

/// The eight groups of an IPv6 address are its 16-bit parts, the highest first.
pub proof fn groups_make_up_the_address(v: u128)
    ensures
        segments(v).len() == 8,
        v == segments(v)[0] * 0x1_0000_0000_0000_0000_0000_0000_0000 + segments(v)[1]
            * 0x1_0000_0000_0000_0000_0000_0000 + segments(v)[2] * 0x1_0000_0000_0000_0000_0000
            + segments(v)[3] * 0x1_0000_0000_0000_0000 + segments(v)[4] * 0x1_0000_0000_0000
            + segments(v)[5] * 0x1_0000_0000 + segments(v)[6] * 0x1_0000 + segments(v)[7],
{
    let x = v as int;
    let q1 = x / 0x1_0000;
    let q2 = q1 / 0x1_0000;
    let q3 = q2 / 0x1_0000;
    let q4 = q3 / 0x1_0000;
    let q5 = q4 / 0x1_0000;
    let q6 = q5 / 0x1_0000;
    let q7 = q6 / 0x1_0000;
    lemma_div_denominator(x, 0x1_0000, 0x1_0000);
    lemma_div_denominator(x, 0x1_0000_0000, 0x1_0000);
    lemma_div_denominator(x, 0x1_0000_0000_0000, 0x1_0000);
    lemma_div_denominator(x, 0x1_0000_0000_0000_0000, 0x1_0000);
    lemma_div_denominator(x, 0x1_0000_0000_0000_0000_0000, 0x1_0000);
    lemma_div_denominator(x, 0x1_0000_0000_0000_0000_0000_0000, 0x1_0000);
    assert(segments(v)[7] == x % 0x1_0000);
    assert(segments(v)[6] == q1 % 0x1_0000);
    assert(segments(v)[5] == q2 % 0x1_0000);
    assert(segments(v)[4] == q3 % 0x1_0000);
    assert(segments(v)[3] == q4 % 0x1_0000);
    assert(segments(v)[2] == q5 % 0x1_0000);
    assert(segments(v)[1] == q6 % 0x1_0000);
    assert(q7 < 0x1_0000);
    assert(segments(v)[0] == q7);
}

/// Groups are written in hexadecimal with colons between them: those of two lists
/// one after the other are those of the first, a colon, and those of the second.
pub proof fn groups_are_written_one_after_the_other(a: Seq<u16>, b: Seq<u16>, x: u16)
    requires
        a.len() > 0,
        b.len() > 0,
    ensures
        join_segments(a + b) == join_segments(a) + ":"@ + join_segments(b),
        join_segments(seq![x]) == hex(x as nat),
    decreases b.len(),
{
    let whole = a + b;
    assert(whole.last() == b.last());
    assert(whole.drop_last() =~= a + b.drop_last());
    if b.len() == 1 {
        assert(whole.drop_last() =~= a);
    } else {
        groups_are_written_one_after_the_other(a, b.drop_last(), x);
    }
}

/// An IPv4 address in disguise is written with its IPv4 text at the end.
pub proof fn disguised_addresses_show_their_bytes(a: u32, v: u128, r: String)
    requires
        call_ensures(v6_text, (v,), r),
        v == 0xffff_0000_0000 + a,
    ensures
        r@ == "::ffff:"@ + v4_words(a),
{
    assert(v / 0x1_0000_0000 == 0xffff);
    assert(v % 0x1_0000_0000 == a);
}

/// The text of a socket is that of its address, an IPv6 address in brackets, then
/// a colon and the port in decimal.
pub proof fn sockets_name_address_and_port(ip: &IpAddr, port: u16, r: String, words: String)
    requires
        call_ensures(IpAddr::socket_text, (ip, port), r),
        call_ensures(IpAddr::text, (ip,), words),
    ensures
        ip is V4 ==> words@.is_prefix_of(r@) && text::digits_value(r@.skip(words@.len() + 1int))
            == port && r@[words@.len() as int] == ':',
        ip is V6 ==> r@[0] == '[' && r@.subrange(1, words@.len() + 1int) == words@
            && r@[words@.len() + 1int] == ']' && r@[words@.len() + 2int] == ':'
            && text::digits_value(r@.skip(words@.len() + 3int)) == port,
{
    reveal_strlit(":");
    reveal_strlit("[");
    reveal_strlit("]:");
    text::lemma_decimal_digits(port as nat);
    let d = text::decimal(port as nat);
    match ip {
        IpAddr::V4(_) => {
            assert(words@ =~= r@.take(words@.len() as int));
            assert(r@.skip(words@.len() + 1int) =~= d);
            assert(r@[words@.len() as int] == ":"@[0]);
        },
        IpAddr::V6(_) => {
            assert(r@[0] == "["@[0]);
            assert(r@.subrange(1, words@.len() + 1int) =~= words@);
            assert(r@[words@.len() + 1int] == "]:"@[0]);
            assert(r@[words@.len() + 2int] == "]:"@[1]);
            assert(r@.skip(words@.len() + 3int) =~= d);
        },
    }
}

} // verus!
