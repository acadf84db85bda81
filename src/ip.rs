use vstd::prelude::*;

verus! {

/// An IPv4 address as its four octets.
#[derive(Debug, Clone, Copy, PartialEq, Eq, Hash)]
pub struct Ipv4 {
    octets: [u8; 4],
}

impl View for Ipv4 {
    type V = Seq<u8>;

    closed spec fn view(&self) -> Seq<u8> {
        self.octets@
    }
}

/// Octet by octet sum of two addresses, each octet modulo 256.
pub open spec fn add_octets(x: Seq<u8>, y: Seq<u8>) -> Seq<u8> {
    Seq::new(4, |i: int| ((x[i] + y[i]) % 256) as u8)
}

/// Octet by octet difference of two addresses, each octet modulo 256.
pub open spec fn sub_octets(x: Seq<u8>, y: Seq<u8>) -> Seq<u8> {
    Seq::new(4, |i: int| ((x[i] - y[i] + 256) % 256) as u8)
}

/// The decimal digit `d`.
pub open spec fn digit(d: int) -> char {
    "0123456789"@[d]
}

/// The decimal numeral of `n`, without leading zeros.
pub open spec fn decimal(n: nat) -> Seq<char>
    decreases n,
{
    if n < 10 {
        seq![digit(n as int)]
    } else {
        decimal(n / 10) + seq![digit((n % 10) as int)]
    }
}

/// Dot-decimal notation of four octets.
pub open spec fn dotted(o: Seq<u8>) -> Seq<char> {
    decimal(o[0] as nat) + "."@ + decimal(o[1] as nat) + "."@ + decimal(o[2] as nat) + "."@
        + decimal(o[3] as nat)
}

/// Appends the decimal digit `d` to `s`.
fn push_digit(s: &mut String, d: u8)
    requires
        d < 10,
    ensures
        final(s)@ == old(s)@.push(digit(d as int)),
{
    let digits = "0123456789";
    proof {
        reveal_strlit("0123456789");
    }
    s.append(digits.substring_char(d as usize, d as usize + 1));
    proof {
        assert(digits@.subrange(d as int, d + 1) =~= seq![digit(d as int)]);
    }
}

/// Appends the decimal numeral of `n` to `s`.
fn push_decimal(s: &mut String, n: u8)
    ensures
        final(s)@ == old(s)@ + decimal(n as nat),
{
    let ghost start = s@;
    if n >= 100 {
        push_digit(s, n / 100);
    }
    if n >= 10 {
        push_digit(s, (n / 10) % 10);
    }
    push_digit(s, n % 10);
    proof {
        let m = n as nat;
        if m >= 100 {
            assert(m / 10 >= 10);
            assert((m / 10) / 10 == m / 100);
            assert(decimal(m / 10) =~= decimal(m / 100) + seq![digit(((m / 10) % 10) as int)]);
            assert(decimal(m / 100) =~= seq![digit((m / 100) as int)]);
        } else if m >= 10 {
            assert(decimal(m / 10) =~= seq![digit((m / 10) as int)]);
        }
        assert(s@ =~= start + decimal(m));
    }
}

impl Ipv4 {
    /// The address with octets `a.b.c.d`.
    pub fn new(a: u8, b: u8, c: u8, d: u8) -> (r: Ipv4)
        ensures
            r@ == seq![a, b, c, d],
    {
        let r = Ipv4 { octets: [a, b, c, d] };
        assert(r@ =~= seq![a, b, c, d]);
        r
    }

    /// The four octets, most significant first.
    pub fn octets(&self) -> (r: [u8; 4])
        ensures
            r@ == self@,
    {
        self.octets
    }

    /// Dot-decimal notation, such as `192.168.0.1`.
    pub fn to_string(&self) -> (r: String)
        ensures
            r@ == dotted(self@),
    {
        let mut s = String::new();
        push_decimal(&mut s, self.octets[0]);
        s.append(".");
        push_decimal(&mut s, self.octets[1]);
        s.append(".");
        push_decimal(&mut s, self.octets[2]);
        s.append(".");
        push_decimal(&mut s, self.octets[3]);
        proof {
            assert(s@ =~= dotted(self@));
        }
        s
    }

    /// Adds `other` octet by octet, each octet wrapping around modulo 256.
    pub fn add(&self, other: &Ipv4) -> (r: Ipv4)
        ensures
            r@ == add_octets(self@, other@),
    {
        let r = Ipv4 {
            octets: [
                self.octets[0].wrapping_add(other.octets[0]),
                self.octets[1].wrapping_add(other.octets[1]),
                self.octets[2].wrapping_add(other.octets[2]),
                self.octets[3].wrapping_add(other.octets[3]),
            ],
        };
        assert(r@ =~= add_octets(self@, other@));
        r
    }

    /// Subtracts `other` octet by octet, each octet wrapping around modulo
    /// 256.
    pub fn sub(&self, other: &Ipv4) -> (r: Ipv4)
        ensures
            r@ == sub_octets(self@, other@),
    {
        let r = Ipv4 {
            octets: [
                self.octets[0].wrapping_sub(other.octets[0]),
                self.octets[1].wrapping_sub(other.octets[1]),
                self.octets[2].wrapping_sub(other.octets[2]),
                self.octets[3].wrapping_sub(other.octets[3]),
            ],
        };
        assert(r@ =~= sub_octets(self@, other@));
        r
    }
}

/// An IPv6 address as its eight 16-bit segments.
#[derive(Debug, Clone, Copy, PartialEq, Eq, Hash)]
pub struct Ipv6 {
    segments: [u16; 8],
}

impl View for Ipv6 {
    type V = Seq<u16>;

    closed spec fn view(&self) -> Seq<u16> {
        self.segments@
    }
}

/// Segment by segment exclusive or of two addresses.
pub open spec fn xor_segments(x: Seq<u16>, y: Seq<u16>) -> Seq<u16> {
    Seq::new(8, |i: int| x[i] ^ y[i])
}

impl Ipv6 {
    /// The address with the given segments, most significant first.
    pub fn new(s1: u16, s2: u16, s3: u16, s4: u16, s5: u16, s6: u16, s7: u16, s8: u16) -> (r: Ipv6)
        ensures
            r@ == seq![s1, s2, s3, s4, s5, s6, s7, s8],
    {
        let r = Ipv6 { segments: [s1, s2, s3, s4, s5, s6, s7, s8] };
        assert(r@ =~= seq![s1, s2, s3, s4, s5, s6, s7, s8]);
        r
    }

    /// The eight segments, most significant first.
    pub fn segments(&self) -> (r: [u16; 8])
        ensures
            r@ == self@,
    {
        self.segments
    }

    /// Exclusive or with `other`, segment by segment.
    pub fn xor(&self, other: &Ipv6) -> (r: Ipv6)
        ensures
            r@ == xor_segments(self@, other@),
    {
        let mut result: [u16; 8] = [0u16; 8];
        let mut i: usize = 0;
        while i < 8
            invariant
                i <= 8,
                self@.len() == 8,
                other@.len() == 8,
                result@.len() == 8,
                forall|j: int| 0 <= j < i ==> #[trigger] result@[j] == self@[j] ^ other@[j],
            decreases 8 - i,
        {
            result.set(i, self.segments[i] ^ other.segments[i]);
            i += 1;
        }
        let r = Ipv6 { segments: result };
        assert(r@ =~= xor_segments(self@, other@));
        r
    }
}

} // verus!
