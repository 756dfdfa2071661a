//! Identifiers: zones, sessions, ports and virtual hardware addresses.

use sha2::Digest;
use uuid::Uuid;
use vstd::prelude::*;
use vstd::string::StringExecFns;

use crate::text;

verus! {

// ---------------------------------------------------------------------------
// Zones
// ---------------------------------------------------------------------------
/// The identifier of a Sonos zone.
#[derive(Debug, PartialEq, Eq, PartialOrd, Ord, Hash)]
pub struct ZoneId(String);

impl View for ZoneId {
    type V = Seq<char>;

    closed spec fn view(&self) -> Seq<char> {
        self.0@
    }
}

impl Clone for ZoneId {
    fn clone(&self) -> (r: Self)
        ensures
            r == *self,
    {
        ZoneId(self.0.clone())
    }
}

impl ZoneId {
    /// The zone with the given identifier.
    pub fn new(value: &str) -> (r: Self)
        ensures
            r@ == value@,
    {
        ZoneId(value.to_owned())
    }

    /// The identifier as text.
    pub fn as_str(&self) -> (r: &str)
        ensures
            r@ == self@,
    {
        self.0.as_str()
    }
}

// ---------------------------------------------------------------------------
// Sessions
// ---------------------------------------------------------------------------
/// The identifier of an AirPlay session: a UUID by its 128-bit value.
#[derive(Clone, Copy, Debug, PartialEq, Eq, Hash, Structural)]
pub struct SessionId {
    pub value: u128,
}

/// The lower-case hexadecimal digit of a value below sixteen.
pub open spec fn hex_char(d: nat) -> char {
    if d < 10 {
        (48 + d) as char
    } else {
        (87 + d) as char
    }
}

/// The value of a hexadecimal digit in either case.
pub open spec fn hex_digit(c: char) -> Option<nat> {
    if '0' <= c && c <= '9' {
        Some((c as u32 - 48) as nat)
    } else if 'a' <= c && c <= 'f' {
        Some((c as u32 - 87) as nat)
    } else if 'A' <= c && c <= 'F' {
        Some((c as u32 - 55) as nat)
    } else {
        None
    }
}

/// The last `n` hexadecimal digits of a value, with leading zeros.
pub open spec fn hex_digits(v: nat, n: nat) -> Seq<char>
    decreases n,
{
    if n == 0 {
        Seq::empty()
    } else {
        hex_digits(v / 16, (n - 1) as nat).push(hex_char(v % 16))
    }
}

/// The value of a text of hexadecimal digits.
pub open spec fn hex_value(s: Seq<char>) -> Option<nat>
    decreases s.len(),
{
    if s.len() == 0 {
        Some(0)
    } else {
        match (hex_value(s.drop_last()), hex_digit(s.last())) {
            (Some(v), Some(d)) => Some(v * 16 + d),
            _ => None,
        }
    }
}

/// Thirty-two digits as a hyphenated UUID: groups of 8, 4, 4, 4 and 12.
pub open spec fn hyphenate(h: Seq<char>) -> Seq<char> {
    h.subrange(0, 8) + seq!['-'] + h.subrange(8, 12) + seq!['-'] + h.subrange(12, 16) + seq!['-']
        + h.subrange(16, 20) + seq!['-'] + h.subrange(20, 32)
}

/// The digits of a hyphenated UUID, its hyphens left out.
pub open spec fn unhyphenate(s: Seq<char>) -> Seq<char> {
    s.subrange(0, 8) + s.subrange(9, 13) + s.subrange(14, 18) + s.subrange(19, 23) + s.subrange(
        24,
        36,
    )
}

/// The text of a UUID: lower-case and hyphenated.
pub open spec fn uuid_text(value: u128) -> Seq<char> {
    hyphenate(hex_digits(value as nat, 32))
}

/// The value of a hyphenated UUID.
pub open spec fn hyphenated_value(s: Seq<char>) -> Option<nat> {
    if s.len() == 36 && s[8] == '-' && s[13] == '-' && s[18] == '-' && s[23] == '-' {
        hex_value(unhyphenate(s))
    } else {
        None
    }
}

/// The value of a UUID in any of its four spellings: 32 digits, hyphenated,
/// hyphenated in braces, or hyphenated behind `urn:uuid:`.
pub open spec fn uuid_value(s: Seq<char>) -> Option<nat> {
    if s.len() == 32 {
        hex_value(s)
    } else if s.len() == 36 {
        hyphenated_value(s)
    } else if s.len() == 38 && s[0] == '{' && s[37] == '}' {
        hyphenated_value(s.subrange(1, 37))
    } else if s.len() == 45 && text::ascii_lower(s.take(9)) == seq![
        'u',
        'r',
        'n',
        ':',
        'u',
        'u',
        'i',
        'd',
        ':',
    ] {
        hyphenated_value(s.skip(9))
    } else {
        None
    }
}

/// `uuid::Error`, the reason why a text is no UUID.
#[verifier::external_type_specification]
#[verifier::external_body]
pub struct ExUuidError(uuid::Error);

/// `Uuid::new_v4` draws a random UUID: nothing is known of it but that it is
/// marked as version 4 of the RFC 4122 variant. It gives up where the system
/// has no randomness to offer.
#[verifier::external_body]
fn random_uuid() -> (value: u128)
    ensures
        value / 0x1000_0000_0000_0000_0000 % 16 == 4,
        value / 0x4000_0000_0000_0000 % 4 == 2,
{
    Uuid::new_v4().as_u128()
}

/// `Uuid::parse_str` reads a UUID in any of its spellings and rejects every
/// other text.
#[verifier::external_body]
fn read_uuid(text: &str) -> (r: Result<u128, uuid::Error>)
    ensures
        match uuid_value(text@) {
            Some(v) => r is Ok && r->Ok_0 == v,
            None => r is Err,
        },
{
    Uuid::parse_str(text).map(|uuid| uuid.as_u128())
}

/// `Uuid` displays itself in lower case and hyphenated.
#[verifier::external_body]
fn write_uuid(value: u128) -> (text: String)
    ensures
        text@ == uuid_text(value),
{
    Uuid::from_u128(value).to_string()
}

impl SessionId {
    /// A session identifier drawn at random.
    pub fn new() -> (r: Self)
        ensures
            r.value / 0x1000_0000_0000_0000_0000 % 16 == 4,
            r.value / 0x4000_0000_0000_0000 % 4 == 2,
    {
        SessionId { value: random_uuid() }
    }

    /// The session identifier that a text spells.
    pub fn parse(value: &str) -> (r: Result<Self, uuid::Error>)
        ensures
            match uuid_value(value@) {
                Some(v) => r is Ok && r->Ok_0.value == v,
                None => r is Err,
            },
    {
        match read_uuid(value) {
            Ok(v) => Ok(SessionId { value: v }),
            Err(error) => Err(error),
        }
    }

    /// The UUID by its value.
    pub fn as_uuid(&self) -> (r: u128)
        ensures
            r == self.value,
    {
        self.value
    }

    /// The identifier as a lower-case hyphenated UUID.
    pub fn text(&self) -> (r: String)
        ensures
            r@ == uuid_text(self.value),
    {
        write_uuid(self.value)
    }
}

impl Default for SessionId {
    fn default() -> (r: Self)
        ensures
            r.value / 0x1000_0000_0000_0000_0000 % 16 == 4,
            r.value / 0x4000_0000_0000_0000 % 4 == 2,
    {
        SessionId::new()
    }
}

/// Hexadecimal digits denote the number that they were written for.
pub proof fn lemma_hex_round_trip(v: nat, n: nat)
    requires
        v < vstd::arithmetic::power::pow(16, n),
    ensures
        hex_digits(v, n).len() == n,
        hex_value(hex_digits(v, n)) == Some(v),
    decreases n,
{
    reveal(vstd::arithmetic::power::pow);
    if n > 0 {
        let p = vstd::arithmetic::power::pow(16, (n - 1) as nat);
        assert(vstd::arithmetic::power::pow(16, n) == 16 * p);
        assert(v / 16 < p) by (nonlinear_arith)
            requires
                v < 16 * p,
        ;
        lemma_hex_round_trip(v / 16, (n - 1) as nat);
        let s = hex_digits(v, n);
        assert(s.drop_last() =~= hex_digits(v / 16, (n - 1) as nat));
        let d = v % 16;
        assert(hex_digit(hex_char(d)) == Some(d));
        assert((v / 16) * 16 + v % 16 == v) by (nonlinear_arith);
    }
}

/// Reading the text of a session identifier gives the identifier back.
pub proof fn session_id_text_is_read_back(value: u128)
    ensures
        uuid_value(uuid_text(value)) == Some(value as nat),
{
    let h = hex_digits(value as nat, 32);
    assert(vstd::arithmetic::power::pow(16, 32) == 0x1_0000_0000_0000_0000_0000_0000_0000_0000)
        by {
        vstd::arithmetic::power::lemma_pow1(16);
        vstd::arithmetic::power::lemma_pow_adds(16, 1, 1);
        assert(vstd::arithmetic::power::pow(16, 2) == 256);
        vstd::arithmetic::power::lemma_pow_adds(16, 2, 2);
        assert(vstd::arithmetic::power::pow(16, 4) == 0x1_0000);
        vstd::arithmetic::power::lemma_pow_adds(16, 4, 4);
        assert(vstd::arithmetic::power::pow(16, 8) == 0x1_0000_0000);
        vstd::arithmetic::power::lemma_pow_adds(16, 8, 8);
        assert(vstd::arithmetic::power::pow(16, 16) == 0x1_0000_0000_0000_0000);
        vstd::arithmetic::power::lemma_pow_adds(16, 16, 16);
    }
    lemma_hex_round_trip(value as nat, 32);
    let s = uuid_text(value);
    assert(s.len() == 36);
    assert(unhyphenate(s) =~= h);
}

/// Different session identifiers have different texts.
pub proof fn session_id_text_is_unique(a: u128, b: u128)
    requires
        uuid_text(a) == uuid_text(b),
    ensures
        a == b,
{
    session_id_text_is_read_back(a);
    session_id_text_is_read_back(b);
}

// ---------------------------------------------------------------------------
// Ports
// ---------------------------------------------------------------------------
/// Why no RTSP port could be allocated.
#[derive(Clone, Copy, Debug, PartialEq, Eq, Structural)]
pub enum PortAllocationError {
    Overflow { base: u16, index: usize },
}

impl PortAllocationError {
    /// The error in words.
    pub open spec fn words(self) -> Seq<char> {
        match self {
            PortAllocationError::Overflow { base, index } =>
                "RTSP port allocation overflowed for base "@ + text::decimal(base as nat)
                    + " and index "@ + text::decimal(index as nat),
        }
    }

    /// The error in words.
    pub fn message(&self) -> (r: String)
        ensures
            r@ == self.words(),
    {
        match self {
            PortAllocationError::Overflow { base, index } => {
                let mut r = "RTSP port allocation overflowed for base ".to_owned();
                r.append(text::decimal_text(*base as u64).as_str());
                r.append(" and index ");
                r.append(text::decimal_text(*index as u64).as_str());
                r
            },
        }
    }
}

/// The RTSP port of the endpoint with the given index: the base port plus the
/// index, unless that is no port.
pub open spec fn rtsp_port(base: u16, index: usize) -> Result<u16, PortAllocationError> {
    if base + index <= u16::MAX {
        Ok((base + index) as u16)
    } else {
        Err(PortAllocationError::Overflow { base, index })
    }
}

/// Allocates the RTSP port of the endpoint with the given index.
pub fn allocate_rtsp_port(base: u16, index: usize) -> (r: Result<u16, PortAllocationError>)
    ensures
        r == rtsp_port(base, index),
{
    if index > 0xffff {
        return Err(PortAllocationError::Overflow { base, index });
    }
    match base.checked_add(index as u16) {
        Some(port) => Ok(port),
        None => Err(PortAllocationError::Overflow { base, index }),
    }
}

/// Endpoints with different indices never share a port.
pub proof fn rtsp_ports_are_distinct(base: u16, i: usize, j: usize)
    requires
        i != j,
        rtsp_port(base, i) is Ok,
        rtsp_port(base, j) is Ok,
    ensures
        rtsp_port(base, i) != rtsp_port(base, j),
{
}

/// An endpoint gets a port only if every endpoint before it gets one.
pub proof fn rtsp_ports_run_out_at_the_end(base: u16, i: usize, j: usize)
    requires
        i <= j,
        rtsp_port(base, j) is Ok,
    ensures
        rtsp_port(base, i) is Ok,
{
}

// ---------------------------------------------------------------------------
// Hardware addresses
// ---------------------------------------------------------------------------
/// The SHA-256 digest of a byte sequence.
pub uninterp spec fn sha256_digest(data: Seq<u8>) -> Seq<u8>;

/// `Sha256::digest` computes the 32 bytes of the SHA-256 digest, which depends
/// on the data alone.
#[verifier::external_body]
fn sha256(data: &[u8]) -> (r: [u8; 32])
    ensures
        r@ == sha256_digest(data@),
{
    sha2::Sha256::digest(data).into()
}

/// The address for a digest: a locally administered prefix byte and the first
/// five bytes of the digest.
pub open spec fn hwaddr_of(digest: Seq<u8>) -> Seq<u8> {
    seq![0x02u8, digest[0], digest[1], digest[2], digest[3], digest[4]]
}

/// The hardware address made from the digest of a zone identifier.
pub fn hwaddr_from_digest(digest: &[u8; 32]) -> (r: [u8; 6])
    ensures
        r@ == hwaddr_of(digest@),
{
    let r = [0x02u8, digest[0], digest[1], digest[2], digest[3], digest[4]];
    assert(r@ =~= hwaddr_of(digest@));
    r
}

/// The hardware address under which a zone's endpoint is announced.
pub fn stable_virtual_hwaddr(zone_id: &ZoneId) -> (r: [u8; 6])
    ensures
        r@ == hwaddr_of(sha256_digest(vstd::utf8::encode_utf8(zone_id@))),
{
    let digest = sha256(zone_id.as_str().as_bytes());
    hwaddr_from_digest(&digest)
}

/// Every address is a locally administered unicast address.
pub proof fn hwaddr_is_locally_administered(digest: Seq<u8>)
    ensures
        hwaddr_of(digest).len() == 6,
        hwaddr_of(digest)[0] & 0x02 == 0x02,
        hwaddr_of(digest)[0] & 0x01 == 0,
{
    assert(0x02u8 & 0x02 == 0x02u8) by (bit_vector);
    assert(0x02u8 & 0x01 == 0u8) by (bit_vector);
}

// ---------------------------------------------------------------------------
// What callers see
// ---------------------------------------------------------------------------
/// The text of a session identifier has 36 characters: hyphens at four places and
/// lower-case hexadecimal digits at all others. Parsing it gives the identifier
/// back.
pub proof fn written_identifiers_are_read_back(
    id: &SessionId,
    written: String,
    text: &str,
    read: Result<SessionId, uuid::Error>,
    i: int,
)
    requires
        call_ensures(SessionId::text, (id,), written),
        text@ == written@,
        call_ensures(SessionId::parse, (text,), read),
    ensures
        read matches Ok(same) && same.value == id.value,
        written@.len() == 36,
        0 <= i < 36 ==> {
            let c = written@[i];
            if i == 8 || i == 13 || i == 18 || i == 23 {
                c == '-'
            } else {
                ('0' <= c && c <= '9') || ('a' <= c && c <= 'f')
            }
        },
{
    session_id_text_is_read_back(id.value);
    let h = hex_digits(id.value as nat, 32);
    lemma_hex_letters(id.value as nat, 32);
    if 0 <= i < 36 && i != 8 && i != 13 && i != 18 && i != 23 {
        let k = if i < 8 {
            i
        } else if i < 13 {
            i - 1
        } else if i < 18 {
            i - 2
        } else if i < 23 {
            i - 3
        } else {
            i - 4
        };
        assert(written@[i] == h[k]);
    }
}

proof fn lemma_hex_letters(v: nat, n: nat)
    ensures
        hex_digits(v, n).len() == n,
        forall|i: int|
            0 <= i < n ==> ('0' <= #[trigger] hex_digits(v, n)[i] && hex_digits(v, n)[i] <= '9') || (
            'a' <= hex_digits(v, n)[i] && hex_digits(v, n)[i] <= 'f'),
    decreases n,
{
    if n > 0 {
        lemma_hex_letters(v / 16, (n - 1) as nat);
    }
}

/// A port is as many above the base as its index, and there is none where that is
/// no port; the error names both.
pub proof fn ports_lie_above_the_base(base: u16, index: usize, r: Result<u16, PortAllocationError>)
    requires
        call_ensures(allocate_rtsp_port, (base, index), r),
    ensures
        r matches Ok(port) ==> port - base == index,
        r is Ok <==> base + index < 0x1_0000,
        r matches Err(PortAllocationError::Overflow { base: b, index: i }) ==> b == base && i
            == index,
{
}

/// The address made from a digest begins with the byte of local addresses and
/// goes on with the first five bytes of the digest.
pub proof fn addresses_carry_the_digest(digest: &[u8; 32], r: [u8; 6], k: int)
    requires
        call_ensures(hwaddr_from_digest, (digest,), r),
        0 <= k < 5,
    ensures
        r@[0] == 2,
        r@[k + 1] == digest@[k],
{
}

/// Two zones whose digests begin alike have one address; every zone always has
/// the same.
pub proof fn addresses_are_stable(a: &ZoneId, b: &ZoneId, for_a: [u8; 6], for_b: [u8; 6])
    requires
        call_ensures(stable_virtual_hwaddr, (a,), for_a),
        call_ensures(stable_virtual_hwaddr, (b,), for_b),
    ensures
        a@ == b@ ==> for_a@ == for_b@,
        for_a@ == for_b@ <==> forall|k: int|
            0 <= k < 5 ==> #[trigger] sha256_digest(vstd::utf8::encode_utf8(a@))[k]
                == sha256_digest(vstd::utf8::encode_utf8(b@))[k],
        for_a@[0] == 2,
{
    let x = sha256_digest(vstd::utf8::encode_utf8(a@));
    let y = sha256_digest(vstd::utf8::encode_utf8(b@));
    if for_a@ == for_b@ {
        assert forall|k: int| 0 <= k < 5 implies #[trigger] x[k] == y[k] by {
            assert(for_a@[k + 1] == for_b@[k + 1]);
        }
    }
    if forall|k: int| 0 <= k < 5 ==> #[trigger] x[k] == y[k] {
        assert(x[0] == y[0] && x[1] == y[1] && x[2] == y[2] && x[3] == y[3] && x[4] == y[4]);
        assert(for_a@ =~= for_b@);
    }
}

/// A zone identifier is the text that it was made from.
pub proof fn zone_identifiers_keep_their_text(value: &str, id: ZoneId, r: &str)
    requires
        call_ensures(ZoneId::new, (value,), id),
        call_ensures(ZoneId::as_str, (&id,), r),
    ensures
        r@ == value@,
{
}

/// An identifier may also be written without hyphens, in braces, or after the mark
/// of a URN, whatever the case of that mark; it is the same identifier. A text of
/// any other length is none.
pub proof fn identifiers_have_four_forms(plain: Seq<char>, mark: Seq<char>, s: Seq<char>)
    requires
        plain.len() == 36,
        text::ascii_lower(mark) == seq!['u', 'r', 'n', ':', 'u', 'u', 'i', 'd', ':'],
    ensures
        uuid_value(seq!['{'] + plain + seq!['}']) == uuid_value(plain),
        uuid_value(mark + plain) == uuid_value(plain),
        uuid_value(plain) is Some ==> uuid_value(unhyphenate(plain)) == uuid_value(plain),
        uuid_value(plain) is Some ==> plain[8] == '-' && plain[13] == '-' && plain[18] == '-'
            && plain[23] == '-',
        s.len() != 32 && s.len() != 36 && s.len() != 38 && s.len() != 45 ==> uuid_value(s) is None,
{
    let braced = seq!['{'] + plain + seq!['}'];
    assert(braced.subrange(1, 37) =~= plain);
    let urn = mark + plain;
    assert(text::ascii_lower(mark).len() == mark.len());
    assert(urn.take(9) =~= mark);
    assert(urn.skip(9) =~= plain);
}

/// Hexadecimal digits are read in either case, and nothing else is.
pub proof fn hexadecimal_digits_are_read_in_either_case(c: char)
    ensures
        hex_digit(c) is Some <==> ('0' <= c && c <= '9') || ('a' <= c && c <= 'f') || ('A' <= c && c
            <= 'F'),
        hex_digit(text::lower(c)) == hex_digit(c),
        hex_digit(c) matches Some(d) ==> d < 16 && hex_char(d) == text::lower(c),
{
}

/// The words on a port that could not be had name the base and the index.
pub proof fn words_name_base_and_index(
    base: u16,
    index: usize,
    error: &PortAllocationError,
    r: String,
)
    requires
        *error == (PortAllocationError::Overflow { base, index }),
        call_ensures(PortAllocationError::message, (error,), r),
    ensures
        exists|a: Seq<char>, b: Seq<char>|
            r@ == #[trigger] ("RTSP port allocation overflowed for base "@ + a + " and index "@ + b)
                && text::all_digits(a) && text::all_digits(b) && text::digits_value(a) == base
                && text::digits_value(b) == index,
{
    let a = text::decimal(base as nat);
    let b = text::decimal(index as nat);
    text::lemma_decimal_digits(base as nat);
    text::lemma_decimal_digits(index as nat);
    assert(r@ == "RTSP port allocation overflowed for base "@ + a + " and index "@ + b);
}

} // verus!
