use vstd::prelude::*;
use vstd::bytes::*;

verus! {

/// The big-endian bytes of `x`.
pub open spec fn be_bytes_u64(x: u64) -> Seq<u8> {
    spec_u64_to_le_bytes(x).reverse()
}

/// The number whose big-endian bytes are the eight bytes of `s`.
pub open spec fn be_to_u64(s: Seq<u8>) -> u64 {
    spec_u64_from_le_bytes(s.reverse())
}

/// Reading back big-endian bytes gives the number that was written, and
/// eight bytes written back from their number are the same bytes.
pub proof fn lemma_be_u64_roundtrip()
    ensures
        forall|x: u64| #[trigger] be_bytes_u64(x).len() == 8,
        forall|x: u64| be_to_u64(#[trigger] be_bytes_u64(x)) == x,
        forall|s: Seq<u8>| s.len() == 8 ==> be_bytes_u64(#[trigger] be_to_u64(s)) == s,
{
    lemma_auto_spec_u64_to_from_le_bytes();
    assert forall|x: u64| be_to_u64(#[trigger] be_bytes_u64(x)) == x by {
        assert(spec_u64_to_le_bytes(x).reverse().reverse() =~= spec_u64_to_le_bytes(x));
    }
    assert forall|s: Seq<u8>| s.len() == 8 implies be_bytes_u64(#[trigger] be_to_u64(s)) == s by {
        let r = s.reverse();
        assert(spec_u64_to_le_bytes(spec_u64_from_le_bytes(r)) == r);
        assert(r.reverse() =~= s);
    }
}

/// The big-endian bytes of zero are eight zero bytes.
pub proof fn lemma_be_zero()
    ensures
        be_bytes_u64(0) == Seq::new(8, |i: int| 0u8),
{
    spec_u64_to_le_bytes_to_open(0);
    assert((0u64 & 0xff) as u8 == 0u8) by (bit_vector);
    assert(((0u64 >> 8) & 0xff) as u8 == 0u8) by (bit_vector);
    assert(((0u64 >> 16) & 0xff) as u8 == 0u8) by (bit_vector);
    assert(((0u64 >> 24) & 0xff) as u8 == 0u8) by (bit_vector);
    assert(((0u64 >> 32) & 0xff) as u8 == 0u8) by (bit_vector);
    assert(((0u64 >> 40) & 0xff) as u8 == 0u8) by (bit_vector);
    assert(((0u64 >> 48) & 0xff) as u8 == 0u8) by (bit_vector);
    assert(((0u64 >> 56) & 0xff) as u8 == 0u8) by (bit_vector);
    assert(spec_u64_to_le_bytes(0).reverse() =~= Seq::new(8, |i: int| 0u8));
}

/// Reverses a byte vector.
fn reversed(v: &Vec<u8>) -> (r: Vec<u8>)
    ensures
        r@ == v@.reverse(),
{
    let mut r: Vec<u8> = Vec::new();
    let mut i: usize = v.len();
    while i > 0
        invariant
            i <= v.len(),
            r@ == v@.subrange(i as int, v.len() as int).reverse(),
        decreases i,
    {
        i = i - 1;
        let ghost before = r@;
        r.push(v[i]);
        assert(r@ =~= v@.subrange(i as int, v.len() as int).reverse());
    }
    assert(v@.subrange(0, v.len() as int) =~= v@);
    r
}

/// The big-endian bytes of `x`.
pub fn u64_to_be(x: u64) -> (r: Vec<u8>)
    ensures
        r@ == be_bytes_u64(x),
        r@.len() == 8,
{
    proof {
        lemma_auto_spec_u64_to_from_le_bytes();
    }
    let le = u64_to_le_bytes(x);
    reversed(&le)
}

/// The number whose big-endian bytes are `s[start..start + 8]`.
pub fn u64_from_be_at(s: &[u8], start: usize) -> (x: u64)
    requires
        start + 8 <= s@.len(),
    ensures
        x == be_to_u64(s@.subrange(start as int, start + 8)),
{
    let mut le: Vec<u8> = Vec::new();
    let mut i: usize = 8;
    while i > 0
        invariant
            i <= 8,
            start + 8 <= s@.len(),
            le@ == s@.subrange(start + i, start + 8).reverse(),
        decreases i,
    {
        i = i - 1;
        assert(start + i < s.len());
        le.push(s[start + i]);
        assert(le@ =~= s@.subrange(start + i, start + 8).reverse());
    }
    u64_from_le_bytes(le.as_slice())
}

/// Whether two byte strings are equal.
pub fn bytes_equal(a: &[u8], b: &[u8]) -> (r: bool)
    ensures
        r == (a@ == b@),
{
    if a.len() != b.len() {
        return false;
    }
    let mut i: usize = 0;
    while i < a.len()
        invariant
            i <= a.len(),
            a.len() == b.len(),
            forall|j: int| 0 <= j < i ==> a@[j] == b@[j],
        decreases a.len() - i,
    {
        if a[i] != b[i] {
            assert(a@[i as int] != b@[i as int]);
            return false;
        }
        i = i + 1;
    }
    assert(a@ =~= b@);
    true
}

/// Appends the bytes of `s` to `v`.
pub fn append_bytes(v: &mut Vec<u8>, s: &[u8])
    ensures
        final(v)@ == old(v)@ + s@,
{
    let mut i: usize = 0;
    while i < s.len()
        invariant
            i <= s.len(),
            v@ == old(v)@ + s@.subrange(0, i as int),
        decreases s.len() - i,
    {
        v.push(s[i]);
        assert(v@ =~= old(v)@ + s@.subrange(0, i + 1));
        i = i + 1;
    }
    assert(s@.subrange(0, s.len() as int) =~= s@);
}

/// A copy of `s[start..end]`.
pub fn copy_range(s: &[u8], start: usize, end: usize) -> (r: Vec<u8>)
    requires
        start <= end <= s@.len(),
    ensures
        r@ == s@.subrange(start as int, end as int),
{
    let mut r: Vec<u8> = Vec::new();
    let mut i: usize = start;
    while i < end
        invariant
            start <= i <= end,
            end <= s@.len(),
            r@ == s@.subrange(start as int, i as int),
        decreases end - i,
    {
        r.push(s[i]);
        assert(r@ =~= s@.subrange(start as int, i + 1));
        i = i + 1;
    }
    r
}

/// The lower-case hexadecimal digit of `d` (0 to 15).
pub open spec fn hex_digit(d: nat) -> char {
    if d < 10 { (48 + d) as char } else { (87 + d) as char }
}

/// The lower-case hexadecimal text of `s`: two digits per byte, high
/// nibble first (what `hex::encode` returns).
pub open spec fn hex_chars(s: Seq<u8>) -> Seq<char>
    decreases s.len(),
{
    if s.len() == 0 {
        Seq::empty()
    } else {
        hex_chars(s.drop_last()) + seq![hex_digit(s.last() as nat / 16), hex_digit(s.last() as nat % 16)]
    }
}

/// The ASCII bytes of the lower-case hexadecimal text of `s`.
pub open spec fn hex_ascii(s: Seq<u8>) -> Seq<u8>
    decreases s.len(),
{
    if s.len() == 0 {
        Seq::empty()
    } else {
        hex_ascii(s.drop_last()) + seq![hex_digit(s.last() as nat / 16) as u8, hex_digit(s.last() as nat % 16) as u8]
    }
}

/// The hexadecimal text of `s` has two digits per byte.
pub proof fn lemma_hex_length(s: Seq<u8>)
    ensures
        hex_chars(s).len() == 2 * s.len(),
    decreases s.len(),
{
    if s.len() > 0 {
        lemma_hex_length(s.drop_last());
    }
}

fn hex_digit_str(d: u8) -> (r: &'static str)
    requires
        d < 16,
    ensures
        r@ == seq![hex_digit(d as nat)],
{
    proof {
        reveal_strlit("0");
        reveal_strlit("1");
        reveal_strlit("2");
        reveal_strlit("3");
        reveal_strlit("4");
        reveal_strlit("5");
        reveal_strlit("6");
        reveal_strlit("7");
        reveal_strlit("8");
        reveal_strlit("9");
        reveal_strlit("a");
        reveal_strlit("b");
        reveal_strlit("c");
        reveal_strlit("d");
        reveal_strlit("e");
        reveal_strlit("f");
    }
    if d == 0 { "0" } else if d == 1 { "1" } else if d == 2 { "2" } else if d == 3 { "3" }
    else if d == 4 { "4" } else if d == 5 { "5" } else if d == 6 { "6" } else if d == 7 { "7" }
    else if d == 8 { "8" } else if d == 9 { "9" } else if d == 10 { "a" } else if d == 11 { "b" }
    else if d == 12 { "c" } else if d == 13 { "d" } else if d == 14 { "e" } else { "f" }
}

/// The lower-case hexadecimal text of `data`.
pub fn hex_string(data: &[u8]) -> (r: String)
    ensures
        r@ == hex_chars(data@),
{
    let mut s = String::new();
    let mut i: usize = 0;
    while i < data.len()
        invariant
            i <= data.len(),
            s@ == hex_chars(data@.take(i as int)),
        decreases data.len() - i,
    {
        assert(data@.take(i + 1).drop_last() =~= data@.take(i as int));
        assert(data@.take(i + 1).last() == data@[i as int]);
        s.append(hex_digit_str(data[i] / 16));
        s.append(hex_digit_str(data[i] % 16));
        i = i + 1;
    }
    assert(data@.take(i as int) =~= data@);
    s
}

/// The ASCII bytes of the lower-case hexadecimal text of `data`.
pub fn hex_bytes(data: &[u8]) -> (r: Vec<u8>)
    ensures
        r@ == hex_ascii(data@),
{
    let mut v: Vec<u8> = Vec::new();
    let mut i: usize = 0;
    while i < data.len()
        invariant
            i <= data.len(),
            v@ == hex_ascii(data@.take(i as int)),
        decreases data.len() - i,
    {
        assert(data@.take(i + 1).drop_last() =~= data@.take(i as int));
        assert(data@.take(i + 1).last() == data@[i as int]);
        let hi = data[i] / 16;
        let lo = data[i] % 16;
        let ch: u8 = if hi < 10 { 48 + hi } else { 87 + hi };
        let cl: u8 = if lo < 10 { 48 + lo } else { 87 + lo };
        let ghost before = v@;
        v.push(ch);
        v.push(cl);
        assert(v@ =~= before + seq![hex_digit(data@[i as int] as nat / 16) as u8, hex_digit(data@[i as int] as nat % 16) as u8]);
        i = i + 1;
    }
    assert(data@.take(i as int) =~= data@);
    v
}

} // verus!
