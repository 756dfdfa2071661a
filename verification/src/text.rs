//! Text as sequences of characters: searching, trimming, case folding, numbers.

use vstd::prelude::*;
use vstd::string::StringExecFns;

verus! {

/// `String::push` appends the given character to the end of the string.
pub assume_specification[ String::push ](s: &mut String, c: char)
    ensures
        final(s)@ == old(s)@.push(c),
;

// ---------------------------------------------------------------------------
// Characters
// ---------------------------------------------------------------------------
/// ASCII letters in lower case, every other character unchanged.
pub open spec fn lower(c: char) -> char {
    if 'A' <= c && c <= 'Z' {
        (c as u32 + 32) as char
    } else {
        c
    }
}

/// The text with its ASCII letters in lower case.
pub open spec fn ascii_lower(s: Seq<char>) -> Seq<char> {
    s.map_values(|c: char| lower(c))
}

/// The Unicode `White_Space` characters.
pub open spec fn is_space(c: char) -> bool {
    let v = c as u32;
    ||| 0x9 <= v <= 0xd
    ||| v == 0x20
    ||| v == 0x85
    ||| v == 0xa0
    ||| v == 0x1680
    ||| 0x2000 <= v <= 0x200a
    ||| v == 0x2028
    ||| v == 0x2029
    ||| v == 0x202f
    ||| v == 0x205f
    ||| v == 0x3000
}

/// Whether a character is white space.
pub fn space(c: char) -> (r: bool)
    ensures
        r == is_space(c),
{
    let v: u32 = c as u32;
    (0x9 <= v && v <= 0xd) || v == 0x20 || v == 0x85 || v == 0xa0 || v == 0x1680 || (0x2000 <= v
        && v <= 0x200a) || v == 0x2028 || v == 0x2029 || v == 0x202f || v == 0x205f || v == 0x3000
}

/// An ASCII letter in lower case, any other character unchanged.
pub fn lower_char(c: char) -> (r: char)
    ensures
        r == lower(c),
{
    if 'A' <= c && c <= 'Z' {
        let v: u8 = c as u8;
        (v + 32) as char
    } else {
        c
    }
}

// ---------------------------------------------------------------------------
// Whole strings
// ---------------------------------------------------------------------------
/// The characters of a string, in order.
pub fn to_chars(s: &str) -> (chars: Vec<char>)
    ensures
        chars@ == s@,
{
    let mut chars: Vec<char> = Vec::new();
    for c in it: s.chars()
        invariant
            chars@ == s@.take(it.index()),
            it.seq() == s@,
    {
        chars.push(c);
        assert(s@.take(it.index() + 1) == s@.take(it.index()).push(c));
    }
    assert(s@.take(s@.len() as int) == s@);
    chars
}

/// The string made of the characters from `from` up to `to`.
pub fn slice_text(chars: &Vec<char>, from: usize, to: usize) -> (s: String)
    requires
        from <= to <= chars@.len(),
    ensures
        s@ == chars@.subrange(from as int, to as int),
{
    let mut s = String::new();
    let mut i: usize = from;
    while i < to
        invariant
            from <= i <= to <= chars@.len(),
            s@ == chars@.subrange(from as int, i as int),
        decreases to - i,
    {
        s.push(chars[i]);
        i = i + 1;
        assert(chars@.subrange(from as int, i as int) == chars@.subrange(
            from as int,
            i - 1,
        ).push(chars@[i - 1]));
    }
    s
}

/// Whether two strings hold the same characters.
pub fn same_text(a: &str, b: &str) -> (r: bool)
    ensures
        r == (a@ == b@),
{
    let x = to_chars(a);
    let y = to_chars(b);
    same_chars(&x, &y)
}

/// Whether two character vectors are equal.
pub fn same_chars(x: &Vec<char>, y: &Vec<char>) -> (r: bool)
    ensures
        r == (x@ == y@),
{
    if x.len() != y.len() {
        return false;
    }
    let mut i: usize = 0;
    while i < x.len()
        invariant
            i <= x@.len(),
            x@.len() == y@.len(),
            forall|j: int| 0 <= j < i ==> x@[j] == y@[j],
        decreases x@.len() - i,
    {
        if x[i] != y[i] {
            assert(x@[i as int] != y@[i as int]);
            return false;
        }
        i = i + 1;
    }
    assert(x@ =~= y@);
    true
}

/// The text with its ASCII letters in lower case.
pub fn lower_text(s: &str) -> (r: String)
    ensures
        r@ == ascii_lower(s@),
{
    let chars = to_chars(s);
    let mut r = String::new();
    let mut i: usize = 0;
    while i < chars.len()
        invariant
            chars@ == s@,
            i <= chars@.len(),
            r@ == ascii_lower(chars@.take(i as int)),
        decreases chars@.len() - i,
    {
        r.push(lower_char(chars[i]));
        i = i + 1;
        assert(r@ =~= ascii_lower(chars@.take(i as int)));
    }
    assert(chars@.take(chars@.len() as int) == chars@);
    r
}

// ---------------------------------------------------------------------------
// Searching
// ---------------------------------------------------------------------------
/// Whether `p` stands in `s` at position `i`.
pub open spec fn occurs_at(s: Seq<char>, p: Seq<char>, i: int) -> bool {
    0 <= i && i + p.len() <= s.len() && s.subrange(i, i + p.len()) == p
}

/// The first position from `from` on at which `p` stands in `s`.
pub open spec fn find_from(s: Seq<char>, p: Seq<char>, from: int) -> Option<int>
    decreases s.len() + 1 - from,
{
    if from < 0 || from + p.len() > s.len() {
        None
    } else if occurs_at(s, p, from) {
        Some(from)
    } else {
        find_from(s, p, from + 1)
    }
}

/// Whether `p` stands in `s` at position `i`.
pub fn matches_at(s: &Vec<char>, p: &Vec<char>, i: usize) -> (r: bool)
    ensures
        r == occurs_at(s@, p@, i as int),
{
    if p.len() > s.len() || i > s.len() - p.len() {
        return false;
    }
    let mut j: usize = 0;
    while j < p.len()
        invariant
            j <= p@.len(),
            i + p@.len() <= s.len(),
            forall|k: int| 0 <= k < j ==> s@[i + k] == p@[k],
        decreases p@.len() - j,
    {
        if s[i + j] != p[j] {
            assert(s@.subrange(i as int, i + p@.len())[j as int] != p@[j as int]);
            return false;
        }
        j = j + 1;
    }
    assert(s@.subrange(i as int, i + p@.len()) =~= p@);
    true
}

/// What a search found is an occurrence, and no earlier one was passed over.
pub proof fn lemma_find_from(s: Seq<char>, p: Seq<char>, from: int)
    requires
        0 <= from,
    ensures
        match find_from(s, p, from) {
            Some(i) => from <= i && occurs_at(s, p, i) && forall|j: int|
                from <= j < i ==> !occurs_at(s, p, j),
            None => forall|j: int| from <= j ==> !occurs_at(s, p, j),
        },
    decreases s.len() + 1 - from,
{
    if from + p.len() <= s.len() && !occurs_at(s, p, from) {
        lemma_find_from(s, p, from + 1);
    }
}

/// The first position from `from` on at which `p` stands in `s`.
pub fn find_in(s: &Vec<char>, p: &Vec<char>, from: usize) -> (r: Option<usize>)
    ensures
        match find_from(s@, p@, from as int) {
            Some(i) => r == Some(i as usize) && i <= s@.len(),
            None => r is None,
        },
        r matches Some(i) ==> from <= i && i + p.len() <= s.len() && find_from(
            s@,
            p@,
            from as int,
        ) == Some(i as int),
{
    let mut i: usize = from;
    if p.len() > s.len() {
        return None;
    }
    let last: usize = s.len() - p.len();
    while i <= last
        invariant
            last == s@.len() - p@.len(),
            from <= i,
            find_from(s@, p@, from as int) == find_from(s@, p@, i as int),
        decreases last + 1 - i,
    {
        if matches_at(s, p, i) {
            return Some(i);
        }
        if i == last {
            assert(find_from(s@, p@, i + 1) is None);
            return None;
        }
        i = i + 1;
    }
    None
}

/// The position of the first `c` in `s` from `from` on.
pub open spec fn find_char_from(s: Seq<char>, c: char, from: int) -> Option<int>
    decreases s.len() - from,
{
    if from < 0 || from >= s.len() {
        None
    } else if s[from] == c {
        Some(from)
    } else {
        find_char_from(s, c, from + 1)
    }
}

/// The position of the first `c` in `s` from `from` on.
pub fn find_char(s: &Vec<char>, c: char, from: usize) -> (r: Option<usize>)
    ensures
        match find_char_from(s@, c, from as int) {
            Some(i) => r == Some(i as usize),
            None => r is None,
        },
        r matches Some(i) ==> from <= i < s@.len() && find_char_from(s@, c, from as int) == Some(
            i as int,
        ),
{
    let mut i: usize = from;
    while i < s.len()
        invariant
            from <= i,
            find_char_from(s@, c, from as int) == find_char_from(s@, c, i as int),
        decreases s@.len() - i,
    {
        if s[i] == c {
            return Some(i);
        }
        i = i + 1;
    }
    None
}

/// What a character search found is that character, and it is the first one.
pub proof fn lemma_find_char(s: Seq<char>, c: char, from: int)
    requires
        0 <= from,
    ensures
        match find_char_from(s, c, from) {
            Some(i) => from <= i < s.len() && s[i] == c && forall|j: int|
                from <= j < i ==> s[j] != c,
            None => forall|j: int| from <= j < s.len() ==> s[j] != c,
        },
    decreases s.len() - from,
{
    if from < s.len() && s[from] != c {
        lemma_find_char(s, c, from + 1);
    }
}

/// A character that occurs first at `i` is found there.
pub proof fn lemma_find_char_at(s: Seq<char>, c: char, from: int, i: int)
    requires
        0 <= from <= i < s.len(),
        s[i] == c,
        forall|j: int| from <= j < i ==> s[j] != c,
    ensures
        find_char_from(s, c, from) == Some(i),
    decreases i - from,
{
    if from < i {
        lemma_find_char_at(s, c, from + 1, i);
    }
}

/// `s` with every occurrence of `p` replaced by `r`, from left to right.
pub open spec fn replace_all(s: Seq<char>, p: Seq<char>, r: Seq<char>) -> Seq<char>
    decreases s.len(),
{
    match find_from(s, p, 0) {
        Some(i) => if p.len() > 0 && i + p.len() <= s.len() && 0 <= i {
            s.take(i) + r + replace_all(s.skip(i + p.len()), p, r)
        } else {
            s
        },
        None => s,
    }
}

/// Searching from `from` finds what searching the rest of the text finds.
pub proof fn lemma_find_skip(s: Seq<char>, p: Seq<char>, from: int, at: int)
    requires
        0 <= from <= at,
        from <= s.len(),
    ensures
        find_from(s, p, at) == match find_from(s.skip(from), p, at - from) {
            Some(i) => Some(i + from),
            None => None,
        },
    decreases s.len() + 1 - at,
{
    let t = s.skip(from);
    if at + p.len() <= s.len() {
        assert(s.subrange(at, at + p.len()) =~= t.subrange(at - from, at - from + p.len()));
        lemma_find_skip(s, p, from, at + 1);
    }
}

/// `s` with every occurrence of the non-empty `p` replaced by `r`.
pub fn replace_text(s: &str, p: &str, r: &str) -> (res: String)
    requires
        p@.len() > 0,
    ensures
        res@ == replace_all(s@, p@, r@),
{
    let chars = to_chars(s);
    let pattern = to_chars(p);
    let mut out = String::new();
    let mut done: usize = 0;
    assert(s@.skip(0) == s@);
    loop
        invariant
            chars@ == s@,
            pattern@ == p@,
            p@.len() > 0,
            done <= chars@.len(),
            out@ + replace_all(s@.skip(done as int), p@, r@) == replace_all(s@, p@, r@),
        decreases chars@.len() - done,
    {
        let ghost rest = s@.skip(done as int);
        proof {
            lemma_find_skip(s@, p@, done as int, done as int);
        }
        match find_in(&chars, &pattern, done) {
            Some(i) => {
                let piece = slice_text(&chars, done, i);
                let ghost before = out@;
                out.append(piece.as_str());
                out.append(r);
                proof {
                    let k = i - done;
                    assert(find_from(rest, p@, 0) == Some(k));
                    assert(rest.take(k) =~= s@.subrange(done as int, i as int));
                    assert(rest.skip(k + p@.len()) =~= s@.skip(i + p@.len()));
                    assert(out@ + replace_all(s@.skip(i + p@.len()), p@, r@) =~= before
                        + replace_all(rest, p@, r@));
                }
                done = i + pattern.len();
            },
            None => {
                let piece = slice_text(&chars, done, chars.len());
                let ghost before = out@;
                out.append(piece.as_str());
                assert(find_from(rest, p@, 0) is None);
                assert(piece@ =~= rest);
                return out;
            },
        }
    }
}

/// Whether `s` begins with `p`.
pub open spec fn starts_with(s: Seq<char>, p: Seq<char>) -> bool {
    occurs_at(s, p, 0)
}

/// Whether `s` ends with `p`.
pub open spec fn ends_with(s: Seq<char>, p: Seq<char>) -> bool {
    p.len() <= s.len() && s.skip(s.len() - p.len()) == p
}

/// Whether `s` ends with `p`.
pub fn has_suffix(s: &Vec<char>, p: &Vec<char>) -> (r: bool)
    ensures
        r == ends_with(s@, p@),
{
    if p.len() > s.len() {
        return false;
    }
    let at: usize = s.len() - p.len();
    assert(s@.subrange(at as int, at + p@.len()) =~= s@.skip(s@.len() - p@.len()));
    matches_at(s, p, at)
}

// ---------------------------------------------------------------------------
// Trimming
// ---------------------------------------------------------------------------
/// `s` without leading white space.
pub open spec fn trim_start(s: Seq<char>) -> Seq<char>
    decreases s.len(),
{
    if s.len() > 0 && is_space(s[0]) {
        trim_start(s.skip(1))
    } else {
        s
    }
}

/// `s` without trailing white space.
pub open spec fn trim_end(s: Seq<char>) -> Seq<char>
    decreases s.len(),
{
    if s.len() > 0 && is_space(s.last()) {
        trim_end(s.drop_last())
    } else {
        s
    }
}

/// `s` without leading and trailing white space.
pub open spec fn trimmed(s: Seq<char>) -> Seq<char> {
    trim_end(trim_start(s))
}

/// The bounds of the text between `from` and `to` without surrounding white space.
pub fn trim_bounds(s: &Vec<char>, from: usize, to: usize) -> (r: (usize, usize))
    requires
        from <= to <= s@.len(),
    ensures
        from <= r.0 <= r.1 <= to,
        s@.subrange(r.0 as int, r.1 as int) == trimmed(s@.subrange(from as int, to as int)),
{
    let mut a: usize = from;
    let ghost whole = s@.subrange(from as int, to as int);
    while a < to && space(s[a])
        invariant
            from <= a <= to <= s@.len(),
            trim_start(whole) == trim_start(s@.subrange(a as int, to as int)),
        decreases to - a,
    {
        let ghost cur = s@.subrange(a as int, to as int);
        assert(cur.skip(1) =~= s@.subrange(a + 1, to as int));
        a = a + 1;
    }
    let ghost head = s@.subrange(a as int, to as int);
    assert(trim_start(whole) == head);
    let mut b: usize = to;
    while a < b && space(s[b - 1])
        invariant
            from <= a <= b <= to <= s@.len(),
            trim_end(head) == trim_end(s@.subrange(a as int, b as int)),
        decreases b - a,
    {
        let ghost cur = s@.subrange(a as int, b as int);
        assert(cur.drop_last() =~= s@.subrange(a as int, b - 1));
        b = b - 1;
    }
    (a, b)
}

// ---------------------------------------------------------------------------
// Numbers
// ---------------------------------------------------------------------------
/// The character of a decimal digit.
pub open spec fn digit(d: nat) -> char {
    (48 + d) as char
}

/// A number in decimal, without leading zeros.
pub open spec fn decimal(n: nat) -> Seq<char>
    decreases n,
{
    if n < 10 {
        seq![digit(n)]
    } else {
        decimal(n / 10).push(digit(n % 10))
    }
}

/// A number in decimal.
pub fn decimal_text(n: u64) -> (s: String)
    ensures
        s@ == decimal(n as nat),
    decreases n,
{
    let d: u8 = (n % 10) as u8;
    let c: char = (48 + d) as char;
    if n < 10 {
        let mut s = String::new();
        s.push(c);
        assert(s@ =~= seq![digit(n as nat)]);
        s
    } else {
        let mut s = decimal_text(n / 10);
        s.push(c);
        s
    }
}

/// A signed number in decimal.
pub open spec fn signed_decimal(n: int) -> Seq<char> {
    if n < 0 {
        seq!['-'] + decimal((-n) as nat)
    } else {
        decimal(n as nat)
    }
}

/// A signed number in decimal.
pub fn signed_text(n: i32) -> (s: String)
    ensures
        s@ == signed_decimal(n as int),
{
    if n < 0 {
        let m: i64 = -(n as i64);
        let mut s = String::new();
        s.push('-');
        let d = decimal_text(m as u64);
        s.append(d.as_str());
        assert(s@ =~= seq!['-'] + decimal((-n) as nat));
        s
    } else {
        decimal_text(n as u64)
    }
}

/// Whether a character is a decimal digit.
pub open spec fn is_digit(c: char) -> bool {
    '0' <= c && c <= '9'
}

/// The value of a text of decimal digits.
pub open spec fn digits_value(s: Seq<char>) -> nat
    decreases s.len(),
{
    if s.len() == 0 {
        0
    } else {
        digits_value(s.drop_last()) * 10 + (s.last() as u32 - 48) as nat
    }
}

/// Whether a text consists of digits only, at least one.
pub open spec fn all_digits(s: Seq<char>) -> bool {
    s.len() > 0 && forall|i: int| 0 <= i < s.len() ==> is_digit(#[trigger] s[i])
}

/// The digits of an unsigned number: what stands behind an optional plus sign.
pub open spec fn unsigned_digits(s: Seq<char>) -> Seq<char> {
    if s.len() > 0 && s[0] == '+' {
        s.skip(1)
    } else {
        s
    }
}

/// The unsigned number that a text denotes, if it is no larger than `max`: an
/// optional plus sign and at least one decimal digit.
pub open spec fn parse_unsigned(s: Seq<char>, max: nat) -> Option<nat> {
    let d = unsigned_digits(s);
    if all_digits(d) && digits_value(d) <= max {
        Some(digits_value(d))
    } else {
        None
    }
}

/// More digits make a number no smaller.
pub proof fn lemma_digits_prefix(s: Seq<char>, n: int)
    requires
        0 <= n <= s.len(),
        forall|i: int| 0 <= i < s.len() ==> is_digit(#[trigger] s[i]),
    ensures
        digits_value(s.take(n)) <= digits_value(s),
    decreases s.len() - n,
{
    if n == s.len() {
        assert(s.take(n) =~= s);
    } else {
        let t = s.drop_last();
        assert forall|i: int| 0 <= i < t.len() implies is_digit(#[trigger] t[i]) by {
            assert(t[i] == s[i]);
        }
        lemma_digits_prefix(t, n);
        assert(t.take(n) =~= s.take(n));
        assert(is_digit(s[s.len() - 1]));
    }
}

/// The number no larger than `max` that the text between `from` and `to` denotes.
pub fn parse_number(s: &Vec<char>, from: usize, to: usize, max: u64) -> (r: Option<u64>)
    requires
        from <= to <= s@.len(),
    ensures
        match parse_unsigned(s@.subrange(from as int, to as int), max as nat) {
            Some(n) => r == Some(n as u64),
            None => r is None,
        },
        r matches Some(n) ==> n <= max && parse_unsigned(
            s@.subrange(from as int, to as int),
            max as nat,
        ) == Some(n as nat),
{
    let ghost whole = s@.subrange(from as int, to as int);
    let start: usize = if from < to && s[from] == '+' {
        from + 1
    } else {
        from
    };
    let ghost d = unsigned_digits(whole);
    assert(d =~= s@.subrange(start as int, to as int)) by {
        if from < to && s@[from as int] == '+' {
            assert(whole[0] == '+');
        } else if from < to {
            assert(whole[0] == s@[from as int]);
        }
    }
    if start >= to {
        return None;
    }
    let mut i: usize = start;
    let mut value: u64 = 0;
    while i < to
        invariant
            start <= i <= to <= s@.len(),
            whole == s@.subrange(from as int, to as int),
            d == s@.subrange(start as int, to as int),
            forall|j: int| 0 <= j < i - start ==> is_digit(#[trigger] d[j]),
            value == digits_value(d.take(i - start)),
            value <= max,
            parse_unsigned(whole, max as nat) is Some ==> all_digits(d) && digits_value(d) <= max,
        decreases to - i,
    {
        let c: char = s[i];
        let ghost k = i - start;
        assert(c == d[k]);
        if c < '0' || c > '9' {
            assert(!is_digit(d[k]));
            return None;
        }
        let v: u64 = (c as u32 - 48) as u64;
        assert(d.take(k + 1).drop_last() =~= d.take(k));
        assert(digits_value(d.take(k + 1)) == value * 10 + v);
        proof {
            if all_digits(d) {
                lemma_digits_prefix(d, k + 1);
            }
        }
        if v > max || value > (max - v) / 10 {
            return None;
        }
        value = value * 10 + v;
        i = i + 1;
    }
    assert(d.take(d.len() as int) =~= d);
    Some(value)
}

/// A text in quotes, with what does not show or would end it escaped: what the
/// `Debug` of `str` writes.
pub uninterp spec fn quoted(s: Seq<char>) -> Seq<char>;

/// `format!` with the `Debug` of `str`, whose text depends on the string alone.
#[verifier::external_body]
pub(crate) fn quote(s: &str) -> (r: String)
    ensures
        r@ == quoted(s@),
{
    format!("{s:?}")
}

/// The text that bytes stand for, with a replacement character where they are
/// not UTF-8: what `String::from_utf8_lossy` gives.
pub uninterp spec fn lossy_text(bytes: Seq<u8>) -> Seq<char>;

/// `String::from_utf8_lossy`. Bytes that are the UTF-8 of a text stand for it.
#[verifier::external_body]
pub(crate) fn read_lossy(bytes: &[u8]) -> (r: String)
    ensures
        r@ == lossy_text(bytes@),
        forall|s: Seq<char>| bytes@ == #[trigger] vstd::utf8::encode_utf8(s) ==> r@ == s,
{
    String::from_utf8_lossy(bytes).into_owned()
}

/// A number below a power of ten has no more digits than the exponent.
pub proof fn lemma_decimal_length(n: nat, k: nat)
    requires
        k > 0,
        n < vstd::arithmetic::power::pow(10, k),
    ensures
        decimal(n).len() <= k,
    decreases k,
{
    reveal(vstd::arithmetic::power::pow);
    if n >= 10 {
        assert(k > 1) by {
            if k == 1 {
                assert(vstd::arithmetic::power::pow(10, 0) == 1);
            }
        }
        lemma_decimal_length(n / 10, (k - 1) as nat);
    }
}

/// A number's decimal text is made of digits, at least one.
pub proof fn lemma_decimal_digits(n: nat)
    ensures
        decimal(n).len() > 0,
        all_digits(decimal(n)),
        digits_value(decimal(n)) == n,
    decreases n,
{
    if n >= 10 {
        lemma_decimal_digits(n / 10);
        assert(decimal(n).drop_last() =~= decimal(n / 10));
    } else {
        assert(decimal(n).drop_last() =~= Seq::<char>::empty());
        assert(digits_value(Seq::<char>::empty()) == 0);
    }
}

// ---------------------------------------------------------------------------
// Laws
// ---------------------------------------------------------------------------
/// Lowering a text changes its upper-case ASCII letters, each to the letter 32
/// code points on, and nothing else. Lowering it again changes nothing.
pub proof fn only_capitals_are_lowered(s: &str, r: String, again: String, i: int)
    requires
        call_ensures(lower_text, (s,), r),
        again@ == ascii_lower(r@),
        0 <= i < s@.len(),
    ensures
        r@.len() == s@.len(),
        'A' <= s@[i] && s@[i] <= 'Z' ==> r@[i] as u32 == s@[i] as u32 + 32,
        !('A' <= s@[i] && s@[i] <= 'Z') ==> r@[i] == s@[i],
        again@ == r@,
{
    assert forall|k: int| 0 <= k < r@.len() implies again@[k] == r@[k] by {
        assert(r@[k] == lower(s@[k]));
    }
    assert(again@ =~= r@);
}

/// Of the ASCII characters, the spaces are the tab, the line breaks and the blank.
pub proof fn the_ascii_spaces(c: char, r: bool)
    requires
        call_ensures(space, (c,), r),
        (c as u32) < 0x80,
    ensures
        r <==> c == '\t' || c == '\n' || c as u32 == 0xb || c as u32 == 0xc || c == '\r' || c == ' ',
{
}

proof fn lemma_trim_start(s: Seq<char>)
    ensures
        trim_start(s).len() <= s.len(),
        trim_start(s) == s.skip(s.len() - trim_start(s).len()),
        forall|k: int|
            0 <= k < s.len() - trim_start(s).len() ==> is_space(#[trigger] s[k]),
        trim_start(s).len() > 0 ==> !is_space(trim_start(s)[0]),
    decreases s.len(),
{
    if s.len() > 0 && is_space(s[0]) {
        let rest = s.skip(1);
        lemma_trim_start(rest);
        let n = s.len() - trim_start(s).len();
        assert(s.skip(n) =~= rest.skip(n - 1));
        assert forall|k: int| 0 <= k < n implies is_space(#[trigger] s[k]) by {
            if k > 0 {
                assert(rest[k - 1] == s[k]);
            }
        }
    } else {
        assert(s.skip(0) =~= s);
    }
}

proof fn lemma_trim_end(s: Seq<char>)
    ensures
        trim_end(s).len() <= s.len(),
        trim_end(s) == s.take(trim_end(s).len() as int),
        forall|k: int| trim_end(s).len() <= k < s.len() ==> is_space(#[trigger] s[k]),
        trim_end(s).len() > 0 ==> !is_space(trim_end(s).last()),
    decreases s.len(),
{
    if s.len() > 0 && is_space(s.last()) {
        let rest = s.drop_last();
        lemma_trim_end(rest);
        assert(s.take(trim_end(s).len() as int) =~= rest.take(trim_end(s).len() as int));
        assert forall|k: int| trim_end(s).len() <= k < s.len() implies is_space(#[trigger] s[k]) by {
            if k < rest.len() {
                assert(rest[k] == s[k]);
            }
        }
    } else {
        assert(s.take(s.len() as int) =~= s);
    }
}

/// Trimming takes spaces from both ends, all of them and nothing else.
pub proof fn only_spaces_are_trimmed(s: Seq<char>)
    ensures
        exists|from: int, to: int|
            #![trigger s.subrange(from, to)]
            {
                &&& 0 <= from <= to <= s.len()
                &&& trimmed(s) == s.subrange(from, to)
                &&& forall|k: int| 0 <= k < from ==> is_space(#[trigger] s[k])
                &&& forall|k: int| to <= k < s.len() ==> is_space(#[trigger] s[k])
                &&& from < to ==> !is_space(s[from]) && !is_space(s[to - 1])
            },
{
    let a = trim_start(s);
    lemma_trim_start(s);
    lemma_trim_end(a);
    let from = s.len() - a.len();
    let to = from + trimmed(s).len();
    assert(trimmed(s) =~= s.subrange(from, to));
    assert forall|k: int| to <= k < s.len() implies is_space(#[trigger] s[k]) by {
        assert(a[k - from] == s[k]);
    }
    if from < to {
        assert(trimmed(s)[0] == a[0]);
        assert(trimmed(s).last() == s[to - 1]);
    }
}

/// What stands between the bounds of a trimmed range neither begins nor ends with
/// a space.
pub proof fn trimmed_ranges_have_no_spaces_at_their_ends(
    s: &Vec<char>,
    from: usize,
    to: usize,
    r: (usize, usize),
)
    requires
        from <= to <= s@.len(),
        call_ensures(trim_bounds, (s, from, to), r),
    ensures
        from <= r.0 <= r.1 <= to,
        r.0 < r.1 ==> !is_space(s@[r.0 as int]) && !is_space(s@[r.1 - 1]),
        r.0 == r.1 ==> forall|k: int| from <= k < to ==> is_space(#[trigger] s@[k]),
{
    let range = s@.subrange(from as int, to as int);
    only_spaces_are_trimmed(range);
    let (a, b) = choose|a: int, b: int|
        #![trigger range.subrange(a, b)]
        {
            &&& 0 <= a <= b <= range.len()
            &&& trimmed(range) == range.subrange(a, b)
            &&& forall|k: int| 0 <= k < a ==> is_space(#[trigger] range[k])
            &&& forall|k: int| b <= k < range.len() ==> is_space(#[trigger] range[k])
            &&& a < b ==> !is_space(range[a]) && !is_space(range[b - 1])
        };
    let kept = s@.subrange(r.0 as int, r.1 as int);
    assert(kept == range.subrange(a, b));
    if r.0 < r.1 {
        assert(kept[0] == range[a] && kept[0] == s@[r.0 as int]);
        assert(kept.last() == range[b - 1] && kept.last() == s@[r.1 - 1]);
    } else {
        assert(kept.len() == 0);
        assert forall|k: int| from <= k < to implies is_space(#[trigger] s@[k]) by {
            assert(range[k - from] == s@[k]);
        }
    }
}

/// A text is found where it first stands, from the given position on, and not
/// found only where it stands nowhere.
pub proof fn texts_are_found_where_they_stand(
    s: &Vec<char>,
    p: &Vec<char>,
    from: usize,
    r: Option<usize>,
    j: int,
)
    requires
        call_ensures(find_in, (s, p, from), r),
    ensures
        r matches Some(i) ==> from <= i && i + p@.len() <= s@.len() && s@.subrange(
            i as int,
            i + p@.len(),
        ) == p@,
        r matches Some(i) ==> from <= j < i ==> !(j + p@.len() <= s@.len() && s@.subrange(
            j,
            j + p@.len(),
        ) == p@),
        r is None ==> from <= j && j + p@.len() <= s@.len() ==> s@.subrange(j, j + p@.len()) != p@,
{
    lemma_find_from(s@, p@, from as int);
    if from <= j && j + p@.len() <= s@.len() && s@.subrange(j, j + p@.len()) =~= p@ {
        assert(occurs_at(s@, p@, j));
    }
}

/// A character is found where it first stands, from the given position on.
pub proof fn characters_are_found_where_they_stand(
    s: &Vec<char>,
    c: char,
    from: usize,
    r: Option<usize>,
    j: int,
)
    requires
        call_ensures(find_char, (s, c, from), r),
    ensures
        r matches Some(i) ==> from <= i < s@.len() && s@[i as int] == c,
        r matches Some(i) ==> from <= j < i ==> s@[j] != c,
        r is None ==> from <= j < s@.len() ==> s@[j] != c,
{
    lemma_find_char(s@, c, from as int);
}

/// A text without the pattern is left as it is. In one with it, the first place
/// of the pattern is replaced, and the rest as if it stood alone.
pub proof fn replacing_goes_from_place_to_place(
    before: Seq<char>,
    pattern: Seq<char>,
    after: Seq<char>,
    with: Seq<char>,
)
    requires
        pattern.len() > 0,
    ensures
        (forall|j: int| 0 <= j && j + pattern.len() <= before.len() ==> #[trigger] before.subrange(
            j,
            j + pattern.len(),
        ) != pattern) ==> replace_all(before, pattern, with) == before,
        (forall|j: int|
            0 <= j < before.len() ==> #[trigger] (before + pattern + after).subrange(
                j,
                j + pattern.len(),
            ) != pattern) ==> replace_all(before + pattern + after, pattern, with) == before + with
            + replace_all(after, pattern, with),
{
    if forall|j: int| 0 <= j && j + pattern.len() <= before.len() ==> #[trigger] before.subrange(
        j,
        j + pattern.len(),
    ) != pattern {
        lemma_find_from(before, pattern, 0);
    }
    let s = before + pattern + after;
    if forall|j: int|
        0 <= j < before.len() ==> #[trigger] s.subrange(j, j + pattern.len()) != pattern {
        lemma_find_from(s, pattern, 0);
        let n = before.len() as int;
        assert(s.subrange(n, n + pattern.len()) =~= pattern);
        assert(occurs_at(s, pattern, n));
        let i = find_from(s, pattern, 0)->0;
        assert(i == n) by {
            if i < n {
                assert(s.subrange(i, i + pattern.len()) == pattern);
            }
        }
        assert(s.take(n) =~= before);
        assert(s.skip(n + pattern.len()) =~= after);
    }
}

/// Replacing a text does so by this rule.
pub proof fn callers_replace_by_this_rule(s: &str, p: &str, with: &str, r: String)
    requires
        p@.len() > 0,
        call_ensures(replace_text, (s, p, with), r),
    ensures
        r@ == replace_all(s@, p@, with@),
        (forall|j: int| 0 <= j && j + p@.len() <= s@.len() ==> #[trigger] s@.subrange(
            j,
            j + p@.len(),
        ) != p@) ==> r@ == s@,
{
    replacing_goes_from_place_to_place(s@, p@, Seq::empty(), with@);
}

/// A text ends with what was put at its end, and with nothing else of that
/// length.
pub proof fn endings_are_what_was_put_last(front: Seq<char>, s: &Vec<char>, p: &Vec<char>, r: bool)
    requires
        call_ensures(has_suffix, (s, p), r),
        front.len() + p@.len() == s@.len(),
    ensures
        s@ == front + p@ ==> r,
        r ==> s@ == s@.take(front.len() as int) + p@,
{
    if s@ == front + p@ {
        assert(s@.skip(s@.len() - p@.len()) =~= p@);
    }
    if r {
        assert(s@ =~= s@.take(front.len() as int) + p@);
    }
}

proof fn lemma_no_leading_zero(n: nat)
    ensures
        n > 0 ==> decimal(n)[0] != '0',
        n == 0 ==> decimal(n) == seq!['0'],
    decreases n,
{
    if n >= 10 {
        lemma_no_leading_zero(n / 10);
        lemma_decimal_digits(n / 10);
        assert(decimal(n)[0] == decimal(n / 10)[0]);
    }
}

/// A number is written in decimal digits, without a leading zero, and is read
/// back where it does not exceed the limit.
pub proof fn written_numbers_are_read_back(
    n: u64,
    written: String,
    chars: &Vec<char>,
    max: u64,
    read: Option<u64>,
)
    requires
        call_ensures(decimal_text, (n,), written),
        chars@ == written@,
        chars@.len() <= usize::MAX,
        call_ensures(parse_number, (chars, 0usize, chars@.len() as usize, max), read),
    ensures
        written@.len() > 0,
        forall|i: int| 0 <= i < written@.len() ==> '0' <= #[trigger] written@[i] && written@[i] <= '9',
        n > 0 ==> written@[0] != '0',
        n == 0 ==> written@ == seq!['0'],
        n <= max ==> read == Some(n),
        n > max ==> read is None,
{
    lemma_decimal_digits(n as nat);
    lemma_no_leading_zero(n as nat);
    assert(chars@.subrange(0, chars@.len() as int) =~= chars@);
    assert(is_digit(chars@[0]));
    assert(unsigned_digits(chars@) == chars@);
}

/// What is read as a number is one or more digits, which a plus sign may precede;
/// all else, and a number above the limit, is refused.
pub proof fn only_digits_are_read(
    s: &Vec<char>,
    from: usize,
    to: usize,
    max: u64,
    r: Option<u64>,
    i: int,
)
    requires
        from <= to <= s@.len(),
        call_ensures(parse_number, (s, from, to, max), r),
    ensures
        r matches Some(n) ==> n <= max,
        from == to ==> r is None,
        from < i < to && !('0' <= s@[i] && s@[i] <= '9') ==> r is None,
        from < to && !('0' <= s@[from as int] && s@[from as int] <= '9') && s@[from as int] != '+'
            ==> r is None,
{
    let range = s@.subrange(from as int, to as int);
    let d = unsigned_digits(range);
    if from < to {
        assert(range[0] == s@[from as int]);
    }
    if from < i < to && !('0' <= s@[i] && s@[i] <= '9') {
        assert(range[i - from] == s@[i]);
        if range[0] == '+' {
            assert(d[i - from - 1] == s@[i]);
        } else {
            assert(d[i - from] == s@[i]);
        }
    }
    if from < to && range[0] != '+' && !is_digit(range[0]) {
        assert(d[0] == range[0]);
    }
}

/// A negative number is written as a minus sign before its positive counterpart.
pub proof fn negative_numbers_have_a_sign(n: i32, r: String)
    requires
        call_ensures(signed_text, (n,), r),
    ensures
        n >= 0 ==> r@ == decimal(n as nat),
        n < 0 ==> r@.len() > 1 && r@[0] == '-' && digits_value(r@.skip(1)) == -n,
{
    if n < 0 {
        lemma_decimal_digits((-n) as nat);
        assert(r@.skip(1) =~= decimal((-n) as nat));
    }
}

} // verus!
