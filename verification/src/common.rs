//! Identifiers, request settings and the byte helpers shared by all headers.
use rand::Rng;
use vstd::prelude::*;

verus! {

// ---------------------------------------------------------------------------
// Big-endian 16-bit integers
// ---------------------------------------------------------------------------

/// The value of the big-endian pair of bytes `hi`, `lo`.
pub open spec fn u16_from_be(hi: u8, lo: u8) -> u16 {
    (hi * 256 + lo) as u16
}

/// The two big-endian bytes of `x`.
pub open spec fn u16_be(x: u16) -> Seq<u8> {
    seq![(x / 256) as u8, (x % 256) as u8]
}

/// Reading back the bytes of a value gives the value.
pub proof fn lemma_u16_be_roundtrip(x: u16)
    ensures
        u16_be(x).len() == 2,
        u16_from_be(u16_be(x)[0], u16_be(x)[1]) == x,
{
}

/// Writing the value of two bytes gives back the bytes.
pub proof fn lemma_u16_from_be_roundtrip(hi: u8, lo: u8)
    ensures
        u16_be(u16_from_be(hi, lo)) == seq![hi, lo],
{
    assert(u16_be(u16_from_be(hi, lo)) =~= seq![hi, lo]);
}

/// The first of the two big-endian bytes of a value counts 256 times the
/// second, whatever the value; and reading two bytes weighs them the same way.
pub proof fn lemma_u16_be_value(x: u16, hi: u8, lo: u8)
    ensures
        u16_be(x).len() == 2,
        u16_be(x)[0] * 256 + u16_be(x)[1] == x,
        u16_from_be(hi, lo) == hi * 256 + lo,
{
}

/// Builds a `u16` from two bytes, the first being the most significant.
pub fn create_u16(data: [u8; 2]) -> (r: u16)
    ensures
        r == u16_from_be(data[0], data[1]),
        r == data[0] * 256 + data[1],
{
    let hi: u8 = data[0];
    let lo: u8 = data[1];
    let r: u16 = ((hi as u16) << 8) | lo as u16;
    assert(((hi as u16) << 8) | (lo as u16) == hi * 256 + lo) by (bit_vector);
    r
}

/// The big-endian bytes of `x`.
pub fn u16_to_be_bytes(x: u16) -> (r: [u8; 2])
    ensures
        r@ == u16_be(x),
{
    let hi: u8 = (x >> 8) as u8;
    let lo: u8 = (x & 0xff) as u8;
    assert((x >> 8) as u8 == x / 256) by (bit_vector);
    assert((x & 0xff) as u8 == x % 256) by (bit_vector);
    let r: [u8; 2] = [hi, lo];
    assert(r@ =~= u16_be(x));
    r
}


// ---------------------------------------------------------------------------
// Hexadecimal text
// ---------------------------------------------------------------------------

/// The lower-case hexadecimal digit of `n` (`n < 16`).
pub open spec fn hex_digit(n: u8) -> char {
    if n < 10 {
        (n + 48) as char
    } else {
        (n + 87) as char
    }
}

/// The two lower-case hexadecimal digits of a byte, most significant first.
pub open spec fn hex_byte(b: u8) -> Seq<char> {
    seq![hex_digit(b / 16), hex_digit(b % 16)]
}

/// The lower-case hexadecimal text of a byte string, two digits per byte.
pub open spec fn hex_string(s: Seq<u8>) -> Seq<char>
    decreases s.len(),
{
    if s.len() == 0 {
        seq![]
    } else {
        hex_string(s.drop_last()) + hex_byte(s.last())
    }
}

/// The hex text of a byte string has two characters per byte, and the
/// characters of byte `i` stand at `2 * i` and `2 * i + 1`.
pub proof fn lemma_hex_string_layout(s: Seq<u8>)
    ensures
        hex_string(s).len() == 2 * s.len(),
        forall|i: int|
            0 <= i < s.len() ==> #[trigger] hex_string(s)[2 * i] == hex_digit(s[i] / 16)
                && hex_string(s)[2 * i + 1] == hex_digit(s[i] % 16),
    decreases s.len(),
{
    if s.len() > 0 {
        lemma_hex_string_layout(s.drop_last());
        assert forall|i: int| 0 <= i < s.len() implies #[trigger] hex_string(s)[2 * i]
            == hex_digit(s[i] / 16) && hex_string(s)[2 * i + 1] == hex_digit(s[i] % 16) by {
            if i < s.len() - 1 {
                assert(s.drop_last()[i] == s[i]);
            }
        }
    }
}

/// Each hexadecimal digit is the lower-case digit of its nibble, in the order
/// `0123456789abcdef`.
pub proof fn lemma_hex_digit_table(n: u8)
    requires
        n < 16,
    ensures
        hex_digit(n) == "0123456789abcdef"@[n as int],
{
    reveal_strlit("0123456789abcdef");
}

/// Distinct nibbles have distinct digits, so distinct bytes have distinct
/// two-digit texts.
pub proof fn lemma_hex_byte_injective(a: u8, b: u8)
    ensures
        hex_byte(a) == hex_byte(b) ==> a == b,
{
    if hex_byte(a) == hex_byte(b) {
        lemma_hex_digit_table(a / 16);
        lemma_hex_digit_table(b / 16);
        lemma_hex_digit_table(a % 16);
        lemma_hex_digit_table(b % 16);
        reveal_strlit("0123456789abcdef");
        assert(hex_byte(a)[0] == hex_byte(b)[0]);
        assert(hex_byte(a)[1] == hex_byte(b)[1]);
        assert(a / 16 == b / 16);
        assert(a % 16 == b % 16);
    }
}

/// Distinct byte strings have distinct hexadecimal texts: the text
/// determines the bytes.
pub proof fn lemma_hex_string_injective(s: Seq<u8>, t: Seq<u8>)
    ensures
        hex_string(s) == hex_string(t) ==> s == t,
{
    if hex_string(s) == hex_string(t) {
        lemma_hex_string_layout(s);
        lemma_hex_string_layout(t);
        assert forall|i: int| 0 <= i < s.len() implies s[i] == t[i] by {
            assert(hex_string(s)[2 * i] == hex_string(t)[2 * i]);
            assert(hex_string(s)[2 * i + 1] == hex_string(t)[2 * i + 1]);
            assert(hex_byte(s[i]) =~= hex_byte(t[i]));
            lemma_hex_byte_injective(s[i], t[i]);
        }
        assert(s =~= t);
    }
}

/// `String::push` of std: appends one character at the end of the string.
#[verifier::external_body]
fn string_push(s: &mut String, c: char)
    ensures
        final(s)@ == old(s)@.push(c),
{
    s.push(c);
}

fn hex_digit_char(n: u8) -> (c: char)
    requires
        n < 16,
    ensures
        c == hex_digit(n),
{
    if n < 10 {
        (n + 48) as char
    } else {
        (n + 87) as char
    }
}

/// Writes each byte of `data` as two lower-case hexadecimal digits.
pub fn covert_bytes_to_hex(data: Vec<u8>) -> (s: String)
    ensures
        s@ == hex_string(data@),
{
    let mut s = String::new();
    let mut i: usize = 0;
    while i < data.len()
        invariant
            i <= data.len(),
            s@ == hex_string(data@.take(i as int)),
        decreases data.len() - i,
    {
        let b: u8 = data[i];
        assert(b >> 4 == b / 16) by (bit_vector);
        assert(b & 0x0f == b % 16) by (bit_vector);
        let hi = hex_digit_char(b >> 4);
        let lo = hex_digit_char(b & 0x0f);
        string_push(&mut s, hi);
        string_push(&mut s, lo);
        assert(data@.take(i + 1).drop_last() =~= data@.take(i as int));
        assert(s@ =~= hex_string(data@.take(i + 1)));
        i = i + 1;
    }
    assert(data@.take(data.len() as int) =~= data@);
    s
}

// ---------------------------------------------------------------------------
// Identifiers
// ---------------------------------------------------------------------------

/// Six bytes from `rand::thread_rng().gen::<[u8; 6]>()` of the `rand` crate.
/// Nothing is promised of their value: they are random.
#[verifier::external_body]
fn random_six_bytes() -> (r: [u8; 6]) {
    rand::thread_rng().gen::<[u8; 6]>()
}

/// Four bytes from `rand::thread_rng().gen::<[u8; 4]>()` of the `rand` crate.
/// Nothing is promised of their value: they are random.
#[verifier::external_body]
fn random_four_bytes() -> (r: [u8; 4]) {
    rand::thread_rng().gen::<[u8; 4]>()
}

/// Identifies one message; six bytes on the wire.
#[derive(Copy, Clone)]
pub struct CorrelationId {
    raw: [u8; 6],
}

/// Identifies one node; four bytes on the wire.
#[derive(Copy, Clone)]
pub struct NodeId {
    raw: [u8; 4],
}

/// What a handshake announces of the request that follows it.
pub struct RequestSettings {
    pub frame_size: u16,
    pub frame_count: u16,
    pub correlation_id: CorrelationId,
    pub from: NodeId,
}

impl View for CorrelationId {
    type V = Seq<u8>;

    /// The six bytes of the identifier.
    closed spec fn view(&self) -> Seq<u8> {
        self.raw@
    }
}

impl View for NodeId {
    type V = Seq<u8>;

    /// The four bytes of the identifier.
    closed spec fn view(&self) -> Seq<u8> {
        self.raw@
    }
}

impl CorrelationId {
    /// A correlation id has six bytes, and its bytes determine it.
    pub proof fn lemma_view(a: CorrelationId, b: CorrelationId)
        ensures
            a@.len() == 6,
            a@ == b@ ==> a == b,
    {
        if a@ == b@ {
            assert(a.raw =~= b.raw);
        }
    }

    /// The identifier made of the given bytes.
    pub fn create(data: [u8; 6]) -> (r: CorrelationId)
        ensures
            r@ == data@,
    {
        CorrelationId { raw: data }
    }

    /// A fresh identifier of random bytes.
    pub fn new() -> (r: CorrelationId)
        ensures
            r@.len() == 6,
    {
        let random_bytes = random_six_bytes();
        CorrelationId::create(random_bytes)
    }

    /// The six bytes of the identifier.
    pub fn to_bytes(&self) -> (r: [u8; 6])
        ensures
            r@ == self@,
    {
        self.raw
    }

    /// The identifier as twelve lower-case hexadecimal digits.
    pub fn to_string(&self) -> (s: String)
        ensures
            s@ == hex_string(self@),
    {
        let v: Vec<u8> = vec![self.raw[0], self.raw[1], self.raw[2], self.raw[3], self.raw[4], self.raw[5]];
        assert(v@ =~= self.raw@);
        covert_bytes_to_hex(v)
    }
}

impl NodeId {
    /// A node id has four bytes, and its bytes determine it.
    pub proof fn lemma_view(a: NodeId, b: NodeId)
        ensures
            a@.len() == 4,
            a@ == b@ ==> a == b,
    {
        if a@ == b@ {
            assert(a.raw =~= b.raw);
        }
    }

    /// The identifier made of the given bytes.
    pub fn create(data: [u8; 4]) -> (r: NodeId)
        ensures
            r@ == data@,
    {
        NodeId { raw: data }
    }

    /// A fresh identifier of random bytes.
    pub fn new() -> (r: NodeId)
        ensures
            r@.len() == 4,
    {
        let random_bytes = random_four_bytes();
        NodeId::create(random_bytes)
    }

    /// The four bytes of the identifier.
    pub fn to_bytes(&self) -> (r: [u8; 4])
        ensures
            r@ == self@,
    {
        self.raw
    }

    /// The identifier as eight lower-case hexadecimal digits.
    pub fn to_string(&self) -> (s: String)
        ensures
            s@ == hex_string(self@),
    {
        let v: Vec<u8> = vec![self.raw[0], self.raw[1], self.raw[2], self.raw[3]];
        assert(v@ =~= self.raw@);
        covert_bytes_to_hex(v)
    }
}

impl RequestSettings {
    /// The number of data bytes of the request: frame size times frame count.
    /// The product is computed in 16 bits, so it must fit there.
    pub fn get_size(&self) -> (r: u32)
        requires
            self.frame_size * self.frame_count <= u16::MAX,
        ensures
            r == self.frame_size * self.frame_count,
    {
        (self.frame_size * self.frame_count) as u32
    }
}

} // verus!
