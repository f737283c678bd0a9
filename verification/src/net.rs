//! Network addresses, as `/proc/net/tcp` writes them and as people read them.
use vstd::prelude::*;
use vstd::string::StringExecFns;

use crate::text;

verus! {

// ---------------------------------------------------------------------------
// Hexadecimal numbers
// ---------------------------------------------------------------------------

pub open spec fn all_hex(s: Seq<char>) -> bool {
    forall|i: int| 0 <= i < s.len() ==> text::is_hex_digit(#[trigger] s[i])
}

pub open spec fn hex_value(s: Seq<char>) -> int
    decreases s.len(),
{
    if s.len() == 0 {
        0
    } else {
        16 * hex_value(s.drop_last()) + text::hex_digit_value(s.last())
    }
}

/// The number that `s` writes in base sixteen, if it is one and not above `max`.
/// One leading `+` is accepted.
pub open spec fn hex_number(s: Seq<char>, max: int) -> Option<int> {
    let digits = if s.len() > 0 && s[0] == '+' {
        s.skip(1)
    } else {
        s
    };
    if digits.len() > 0 && all_hex(digits) && hex_value(digits) <= max {
        Some(hex_value(digits))
    } else {
        None
    }
}

proof fn lemma_hex_value_bounds(s: Seq<char>, k: int)
    requires
        all_hex(s),
        0 <= k <= s.len(),
    ensures
        0 <= hex_value(s.take(k)) <= hex_value(s),
    decreases s.len(),
{
    assert(s.len() > 0 ==> all_hex(s.drop_last())) by {
        assert forall|i: int| 0 <= i < s.len() - 1 implies text::is_hex_digit(
            #[trigger] s.drop_last()[i],
        ) by {
            assert(text::is_hex_digit(s[i]));
        }
    }
    if k == s.len() {
        assert(s.take(k) =~= s);
        if s.len() > 0 {
            lemma_hex_value_bounds(s.drop_last(), s.len() - 1);
            assert(s.drop_last().take(s.len() - 1) =~= s.drop_last());
            assert(text::is_hex_digit(s.last()));
            assert(text::hex_digit_value(s.last()) >= 0);
            assert(hex_value(s.drop_last()) >= 0);
            assert(hex_value(s) >= 0);
        }
    } else {
        lemma_hex_value_bounds(s.drop_last(), k);
        assert(s.drop_last().take(k) =~= s.take(k));
        assert(text::is_hex_digit(s.last()));
        assert(text::hex_digit_value(s.last()) >= 0);
        assert(hex_value(s) >= hex_value(s.drop_last()));
    }
}

/// Read `v[lo..hi]` as a hexadecimal number of at most `max`.
pub fn parse_hex(v: &[char], lo: usize, hi: usize, max: u32) -> (r: Option<u32>)
    requires
        lo <= hi <= v@.len(),
        max <= 0xffff,
    ensures
        match r {
            Some(n) => hex_number(v@.subrange(lo as int, hi as int), max as int) == Some(n as int),
            None => hex_number(v@.subrange(lo as int, hi as int), max as int) is None,
        },
{
    let ghost s = v@.subrange(lo as int, hi as int);
    let start: usize = if lo < hi && v[lo] == '+' {
        lo + 1
    } else {
        lo
    };
    let ghost digits = v@.subrange(start as int, hi as int);
    proof {
        if lo < hi && v@[lo as int] == '+' {
            assert(s.skip(1) =~= digits);
        }
    }
    if start == hi {
        return None;
    }
    let mut n: u32 = 0;
    let mut i: usize = start;
    while i < hi
        invariant
            start <= i <= hi <= v@.len(),
            s == v@.subrange(lo as int, hi as int),
            digits == v@.subrange(start as int, hi as int),
            n == hex_value(digits.take(i - start)),
            n <= max <= 0xffff,
            forall|j: int| 0 <= j < i - start ==> text::is_hex_digit(#[trigger] digits[j]),
            start < hi,
            hex_number(s, max as int) == (if all_hex(digits) && hex_value(digits) <= max {
                Some(hex_value(digits))
            } else {
                None::<int>
            }),
        decreases hi - i,
    {
        assert(digits[i - start] == v@[i as int]);
        if !text::char_is_hex_digit(v[i]) {
            return None;
        }
        let d: u32 = text::hex_digit(v[i]);
        let next: u32 = 16 * n + d;
        assert(digits.take(i - start + 1).drop_last() =~= digits.take(i - start));
        assert(digits.take(i - start + 1).last() == digits[i - start]);
        if next > max {
            proof {
                if all_hex(digits) {
                    lemma_hex_value_bounds(digits, i - start + 1);
                }
            }
            return None;
        }
        n = next;
        i = i + 1;
    }
    assert(digits.take(hi - start) =~= digits);
    Some(n)
}

// ---------------------------------------------------------------------------
// Addresses
// ---------------------------------------------------------------------------

/// An IPv4 address (four octets) or an IPv6 address (sixteen), in network order.
#[derive(Debug, Clone, PartialEq, Eq)]
pub struct IpAddress {
    pub octets: Vec<u8>,
}

impl IpAddress {
    pub open spec fn wf(self) -> bool {
        self.octets@.len() == 4 || self.octets@.len() == 16
    }
}

/// `127.0.0.0/8` and `::1`.
pub open spec fn is_loopback(o: Seq<u8>) -> bool {
    if o.len() == 4 {
        o[0] == 127
    } else {
        o.len() == 16 && o[15] == 1 && forall|i: int| 0 <= i < 15 ==> #[trigger] o[i] == 0
    }
}

/// `::ffff:0:0/96`: an IPv6 address that stands for an IPv4 one.
pub open spec fn is_ipv4_mapped(o: Seq<u8>) -> bool {
    o.len() == 16 && o[10] == 0xff && o[11] == 0xff && forall|i: int|
        0 <= i < 10 ==> #[trigger] o[i] == 0
}

/// The address meant: the IPv4 address for a mapped one.
pub open spec fn unmapped(o: Seq<u8>) -> Seq<u8> {
    if is_ipv4_mapped(o) {
        o.skip(12)
    } else {
        o
    }
}

/// The sixteen-bit groups of an IPv6 address.
pub open spec fn segments(o: Seq<u8>) -> Seq<u16> {
    Seq::new(8, |i: int| (o[2 * i] * 256 + o[2 * i + 1]) as u16)
}

/// How many zeroes in a row start at `i`.
pub open spec fn zero_run(s: Seq<u16>, i: int) -> nat
    decreases s.len() - i,
{
    if i < 0 || i >= s.len() || s[i] != 0 {
        0
    } else {
        1 + zero_run(s, i + 1)
    }
}

/// The start of the first of the longest runs of zeroes at or after `i`.
pub open spec fn longest_from(s: Seq<u16>, i: int) -> int
    decreases s.len() - i,
{
    if i + 1 >= s.len() {
        i
    } else {
        let later = longest_from(s, i + 1);
        if zero_run(s, i) >= zero_run(s, later) {
            i
        } else {
            later
        }
    }
}

pub open spec fn group_texts(s: Seq<u16>) -> Seq<Seq<char>> {
    s.map_values(|g: u16| text::numeral(g as nat, 16))
}

/// Groups in hexadecimal, `:` between them.
pub open spec fn groups_text(s: Seq<u16>) -> Seq<char> {
    text::join(group_texts(s), ":"@)
}

/// The canonical text of an IPv6 address: the first of the longest runs of at
/// least two zero groups is written `::`.
pub open spec fn ipv6_text(s: Seq<u16>) -> Seq<char> {
    let start = longest_from(s, 0);
    let len = zero_run(s, start) as int;
    if len > 1 {
        groups_text(s.take(start)) + "::"@ + groups_text(s.skip(start + len))
    } else {
        groups_text(s)
    }
}

pub open spec fn ipv4_text(o: Seq<u8>) -> Seq<char> {
    text::decimal(o[0] as nat) + "."@ + text::decimal(o[1] as nat) + "."@ + text::decimal(
        o[2] as nat,
    ) + "."@ + text::decimal(o[3] as nat)
}

pub open spec fn address_text(o: Seq<u8>) -> Seq<char> {
    if o.len() == 4 {
        ipv4_text(o)
    } else {
        ipv6_text(segments(o))
    }
}

/// The run of zero groups that an IPv6 text shortens is the longest one, and no
/// earlier one is as long.
pub proof fn law_the_longest_run_is_shortened(s: Seq<u16>, i: int)
    requires
        0 <= i < s.len(),
    ensures
        i <= longest_from(s, i) < s.len(),
        forall|j: int|
            i <= j < s.len() ==> #[trigger] zero_run(s, j) <= zero_run(s, longest_from(s, i)),
        forall|j: int|
            i <= j < longest_from(s, i) ==> #[trigger] zero_run(s, j) < zero_run(
                s,
                longest_from(s, i),
            ),
    decreases s.len() - i,
{
    if i + 1 < s.len() {
        law_the_longest_run_is_shortened(s, i + 1);
    }
}

impl IpAddress {
    pub fn is_loopback(&self) -> (r: bool)
        requires
            self.wf(),
        ensures
            r == is_loopback(self.octets@),
    {
        let n: usize = self.octets.len();
        if n == 4 {
            return self.octets[0] == 127;
        }
        let mut i: usize = 0;
        while i < 15
            invariant
                i <= 15,
                self.octets@.len() == 16,
                forall|j: int| 0 <= j < i ==> #[trigger] self.octets@[j] == 0,
            decreases 15 - i,
        {
            if self.octets[i] != 0 {
                return false;
            }
            i = i + 1;
        }
        self.octets[15] == 1
    }

    /// The address as people write it.
    pub fn to_text(&self) -> (r: String)
        requires
            self.wf(),
        ensures
            r@ == address_text(self.octets@),
    {
        if self.octets.len() == 4 {
            let mut out = text::decimal_of(self.octets[0] as u64);
            out.append(".");
            out.append(text::decimal_of(self.octets[1] as u64).as_str());
            out.append(".");
            out.append(text::decimal_of(self.octets[2] as u64).as_str());
            out.append(".");
            out.append(text::decimal_of(self.octets[3] as u64).as_str());
            out
        } else {
            let groups = segments_of(&self.octets);
            ipv6_text_of(&groups)
        }
    }
}

fn segments_of(octets: &Vec<u8>) -> (r: Vec<u16>)
    requires
        octets@.len() == 16,
    ensures
        r@ == segments(octets@),
{
    let mut out: Vec<u16> = Vec::new();
    let mut i: usize = 0;
    while i < 8
        invariant
            i <= 8,
            octets@.len() == 16,
            out@ =~= segments(octets@).take(i as int),
        decreases 8 - i,
    {
        let high: u16 = octets[2 * i] as u16;
        let low: u16 = octets[2 * i + 1] as u16;
        out.push(high * 256 + low);
        i = i + 1;
    }
    assert(segments(octets@).take(8) =~= segments(octets@));
    out
}

fn zero_run_of(s: &Vec<u16>, i: usize) -> (r: usize)
    requires
        i <= s@.len(),
        s@.len() <= 8,
    ensures
        r == zero_run(s@, i as int),
        i + r <= s@.len(),
    decreases s@.len() - i,
{
    if i >= s.len() || s[i] != 0 {
        0
    } else {
        1 + zero_run_of(s, i + 1)
    }
}

fn longest_of(s: &Vec<u16>, i: usize) -> (r: usize)
    requires
        i < s@.len() <= 8,
    ensures
        r == longest_from(s@, i as int),
        r < s@.len(),
    decreases s@.len() - i,
{
    if i + 1 >= s.len() {
        i
    } else {
        let later: usize = longest_of(s, i + 1);
        if zero_run_of(s, i) >= zero_run_of(s, later) {
            i
        } else {
            later
        }
    }
}

fn groups_text_of(s: &Vec<u16>, lo: usize, hi: usize) -> (r: String)
    requires
        lo <= hi <= s@.len(),
    ensures
        r@ == groups_text(s@.subrange(lo as int, hi as int)),
{
    let ghost part = s@.subrange(lo as int, hi as int);
    let ghost all = group_texts(part);
    let mut parts: Vec<String> = Vec::new();
    let mut i: usize = lo;
    while i < hi
        invariant
            lo <= i <= hi <= s@.len(),
            part == s@.subrange(lo as int, hi as int),
            all == group_texts(part),
            text::texts(parts@) =~= all.take(i - lo),
        decreases hi - i,
    {
        let ghost before = parts@;
        parts.push(text::numeral_of(s[i] as u64, 16));
        assert(part[i - lo] == s@[i as int]);
        assert(text::texts(parts@) =~= text::texts(before).push(all[i - lo]));
        i = i + 1;
    }
    assert(all.take(hi - lo) =~= all);
    text::joined(&parts, ":")
}

fn ipv6_text_of(s: &Vec<u16>) -> (r: String)
    requires
        s@.len() == 8,
    ensures
        r@ == ipv6_text(s@),
{
    let start: usize = longest_of(s, 0);
    let len: usize = zero_run_of(s, start);
    let n: usize = s.len();
    if len > 1 {
        let mut out = groups_text_of(s, 0, start);
        assert(s@.subrange(0, start as int) =~= s@.take(start as int));
        out.append("::");
        out.append(groups_text_of(s, start + len, n).as_str());
        assert(s@.subrange(start + len, n as int) =~= s@.skip(start + len));
        out
    } else {
        assert(s@.subrange(0, n as int) =~= s@);
        groups_text_of(s, 0, n)
    }
}

// ---------------------------------------------------------------------------
// `/proc/net/tcp`
// ---------------------------------------------------------------------------

/// The bytes that pairs of hexadecimal digits write.
pub open spec fn hex_bytes(s: Seq<char>) -> Option<Seq<u8>>
    decreases s.len(),
{
    if s.len() == 0 {
        Some(Seq::empty())
    } else if s.len() == 1 {
        None
    } else {
        match (hex_bytes(s.take(s.len() - 2)), hex_number(s.skip(s.len() - 2), 0xff)) {
            (Some(front), Some(b)) => Some(front.push(b as u8)),
            _ => None,
        }
    }
}

/// Little-endian 32-bit words to network order.
pub open spec fn swap_words(b: Seq<u8>) -> Seq<u8> {
    Seq::new(b.len(), |i: int| b[4 * (i / 4) + 3 - i % 4])
}

/// The address that eight (IPv4) or thirty-two (IPv6) digits write.
pub open spec fn proc_address(s: Seq<char>) -> Option<Seq<u8>> {
    match hex_bytes(s) {
        Some(b) => if b.len() == 4 || b.len() == 16 {
            Some(unmapped(swap_words(b)))
        } else {
            None
        },
        None => None,
    }
}

proof fn lemma_hex_bytes_prefix(s: Seq<char>, k: int)
    requires
        0 <= k <= s.len(),
        k % 2 == 0,
        s.len() % 2 == 0,
        hex_bytes(s.take(k)) is None,
    ensures
        hex_bytes(s) is None,
    decreases s.len(),
{
    if k == s.len() {
        assert(s.take(k) =~= s);
    } else {
        assert(s.take(s.len() - 2).take(k) =~= s.take(k));
        lemma_hex_bytes_prefix(s.take(s.len() - 2), k);
    }
}

proof fn lemma_hex_bytes_odd(s: Seq<char>)
    requires
        s.len() % 2 == 1,
    ensures
        hex_bytes(s) is None,
    decreases s.len(),
{
    if s.len() > 1 {
        lemma_hex_bytes_odd(s.take(s.len() - 2));
    }
}

fn hex_bytes_of(v: &Vec<char>) -> (r: Option<Vec<u8>>)
    ensures
        match r {
            Some(b) => hex_bytes(v@) == Some(b@),
            None => hex_bytes(v@) is None,
        },
{
    let n: usize = v.len();
    if n % 2 != 0 {
        proof {
            lemma_hex_bytes_odd(v@);
        }
        return None;
    }
    let mut out: Vec<u8> = Vec::new();
    let mut i: usize = 0;
    assert(v@.take(0) =~= Seq::empty());
    assert(out@ =~= Seq::<u8>::empty());
    while i < n
        invariant
            i <= n,
            n == v@.len(),
            n % 2 == 0,
            i % 2 == 0,
            hex_bytes(v@.take(i as int)) == Some(out@),
        decreases n - i,
    {
        let ghost next = v@.take(i + 2);
        assert(next.take(next.len() - 2) =~= v@.take(i as int));
        assert(next.skip(next.len() - 2) =~= v@.subrange(i as int, i + 2));
        match parse_hex(v.as_slice(), i, i + 2, 0xff) {
            Some(b) => {
                out.push(b as u8);
            },
            None => {
                proof {
                    lemma_hex_bytes_prefix(v@, i + 2);
                }
                return None;
            },
        }
        i = i + 2;
    }
    assert(v@.take(i as int) =~= v@);
    Some(out)
}

fn is_mapped(o: &Vec<u8>) -> (r: bool)
    ensures
        r == is_ipv4_mapped(o@),
{
    if o.len() != 16 {
        return false;
    }
    let mut i: usize = 0;
    while i < 10
        invariant
            i <= 10,
            o@.len() == 16,
            forall|j: int| 0 <= j < i ==> #[trigger] o@[j] == 0,
        decreases 10 - i,
    {
        if o[i] != 0 {
            return false;
        }
        i = i + 1;
    }
    o[10] == 0xff && o[11] == 0xff
}

/// Decode an address column of `/proc/net/tcp`: hexadecimal little-endian 32-bit
/// words. An IPv4-mapped address is the IPv4 address it maps to. Anything that
/// is not such a column is `None`.
pub fn parse_proc_address(hex: &str) -> (r: Option<IpAddress>)
    ensures
        match r {
            Some(a) => a.wf() && proc_address(hex@) == Some(a.octets@),
            None => proc_address(hex@) is None,
        },
{
    let v = text::chars_of(hex);
    let bytes = match hex_bytes_of(&v) {
        Some(b) => b,
        None => {
            return None;
        },
    };
    let n: usize = bytes.len();
    if n != 4 && n != 16 {
        return None;
    }
    let mut octets: Vec<u8> = Vec::new();
    let mut i: usize = 0;
    while i < n
        invariant
            i <= n,
            n == bytes@.len(),
            n == 4 || n == 16,
            octets@ =~= swap_words(bytes@).take(i as int),
        decreases n - i,
    {
        octets.push(bytes[4 * (i / 4) + 3 - i % 4]);
        i = i + 1;
    }
    assert(swap_words(bytes@).take(n as int) =~= swap_words(bytes@));
    if is_mapped(&octets) {
        let mut short: Vec<u8> = Vec::new();
        short.push(octets[12]);
        short.push(octets[13]);
        short.push(octets[14]);
        short.push(octets[15]);
        assert(short@ =~= octets@.skip(12));
        Some(IpAddress { octets: short })
    } else {
        Some(IpAddress { octets })
    }
}

// ---------------------------------------------------------------------------
// What holds of address texts
// ---------------------------------------------------------------------------

/// An IPv4 address is its four bytes in decimal with dots between.
pub proof fn law_how_ipv4_addresses_are_written(a: u8, b: u8, c: u8, d: u8)
    ensures
        address_text(seq![a, b, c, d]) == text::decimal(a as nat) + "."@ + text::decimal(b as nat)
            + "."@ + text::decimal(c as nat) + "."@ + text::decimal(d as nat),
{
}

/// An IPv6 address is its eight groups in hexadecimal with colons between; the first of the
/// longest runs of zero groups, if it is of two at least, is written as two colons.
pub proof fn law_how_ipv6_addresses_are_written(o: Seq<u8>, i: int, k: nat)
    requires
        o.len() == 16,
    ensures
        ({
            let s = Seq::new(8, |j: int| (o[2 * j] * 256 + o[2 * j + 1]) as u16);
            let first = 0 <= i < 8 && k > 1 && zero_run(s, i) == k && (forall|j: int|
                0 <= j < 8 ==> #[trigger] zero_run(s, j) <= k) && (forall|j: int|
                0 <= j < i ==> #[trigger] zero_run(s, j) < k);
            let written = |g: Seq<u16>|
                text::join(g.map_values(|x: u16| text::numeral(x as nat, 16)), ":"@);
            &&& first ==> address_text(o) == written(s.take(i)) + "::"@ + written(s.skip(i + k))
            &&& (forall|j: int| 0 <= j < 8 ==> #[trigger] zero_run(s, j) <= 1) ==> address_text(o)
                == written(s)
        }),
{
    let s = Seq::new(8, |j: int| (o[2 * j] * 256 + o[2 * j + 1]) as u16);
    assert(segments(o) =~= s);
    law_the_longest_run_is_shortened(s, 0);
    let start = longest_from(s, 0);
    assert(zero_run(s, start) <= zero_run(s, start));
    if 0 <= i < 8 && k > 1 && zero_run(s, i) == k && (forall|j: int|
        0 <= j < 8 ==> #[trigger] zero_run(s, j) <= k) && (forall|j: int|
        0 <= j < i ==> #[trigger] zero_run(s, j) < k) {
        assert(zero_run(s, i) <= zero_run(s, start));
        if start < i {
            assert(zero_run(s, start) < k);
        }
        if i < start {
            assert(zero_run(s, i) < zero_run(s, start));
        }
    }
}

/// A run of zeroes is as long as there are zeroes in a row.
pub proof fn law_how_long_a_run_is(s: Seq<u16>, i: int, k: nat)
    requires
        0 <= i,
        i + k <= s.len(),
        forall|j: int| i <= j < i + k ==> #[trigger] s[j] == 0,
        i + k < s.len() ==> s[i + k] != 0,
    ensures
        zero_run(s, i) == k,
    decreases k,
{
    if k > 0 {
        assert(s[i] == 0);
        law_how_long_a_run_is(s, i + 1, (k - 1) as nat);
    }
}

} // verus!
