//! Byte order, byte sums and overwriting.

use vstd::arithmetic::div_mod::{lemma_div_basics, lemma_div_denominator};
use vstd::arithmetic::power::{lemma_pow0, lemma_pow_adds, lemma_pow1, pow};
use vstd::prelude::*;

verus! {

/// The `n` low base-256 digits of `v`, least significant first.
pub open spec fn le_bytes(v: nat, n: nat) -> Seq<u8>
    decreases n,
{
    if n == 0 {
        Seq::empty()
    } else {
        seq![(v % 256) as u8] + le_bytes(v / 256, (n - 1) as nat)
    }
}

/// The number whose base-256 digits are `s`, least significant first.
pub open spec fn le_value(s: Seq<u8>) -> nat
    decreases s.len(),
{
    if s.len() == 0 {
        0
    } else {
        s[0] as nat + 256 * le_value(s.skip(1))
    }
}

/// The `n` low base-256 digits of `v`, most significant first.
pub open spec fn be_bytes(v: nat, n: nat) -> Seq<u8>
    decreases n,
{
    if n == 0 {
        Seq::empty()
    } else {
        be_bytes(v / 256, (n - 1) as nat).push((v % 256) as u8)
    }
}

/// The number whose base-256 digits are `s`, most significant first.
pub open spec fn be_value(s: Seq<u8>) -> nat
    decreases s.len(),
{
    if s.len() == 0 {
        0
    } else {
        256 * be_value(s.drop_last()) + s.last() as nat
    }
}

/// `n` zero bytes.
pub open spec fn zeros(n: nat) -> Seq<u8> {
    Seq::new(n, |i: int| 0u8)
}

/// The codes of the characters of `s`, which are meant to be ASCII.
pub open spec fn ascii(s: Seq<char>) -> Seq<u8> {
    s.map_values(|c: char| c as u8)
}

/// `s` followed by as many zero bytes as make up `n` bytes.
pub open spec fn padded(s: Seq<u8>, n: int) -> Seq<u8> {
    s + zeros((n - s.len()) as nat)
}

/// `s` with `part` in the place of the bytes from `at` on.
pub open spec fn overwritten(s: Seq<u8>, at: int, part: Seq<u8>) -> Seq<u8> {
    s.take(at) + part + s.skip(at + part.len())
}

/// The sum of all bytes.
pub open spec fn byte_sum(s: Seq<u8>) -> nat
    decreases s.len(),
{
    if s.len() == 0 {
        0
    } else {
        byte_sum(s.drop_last()) + s.last() as nat
    }
}

/// The sum of the bytes from `i` on.
pub open spec fn sum_from(s: Seq<u8>, i: int) -> nat
    decreases s.len() - i,
{
    if i < 0 || i >= s.len() {
        0
    } else {
        s[i] as nat + sum_from(s, i + 1)
    }
}

/// Little-endian encodings have the requested length.
pub broadcast proof fn lemma_le_bytes_len(v: nat, n: nat)
    ensures
        #[trigger] le_bytes(v, n).len() == n,
    decreases n,
{
    if n > 0 {
        lemma_le_bytes_len(v / 256, (n - 1) as nat);
    }
}

/// Big-endian encodings have the requested length.
pub broadcast proof fn lemma_be_bytes_len(v: nat, n: nat)
    ensures
        #[trigger] be_bytes(v, n).len() == n,
    decreases n,
{
    if n > 0 {
        lemma_be_bytes_len(v / 256, (n - 1) as nat);
    }
}

proof fn lemma_pow256_step(n: nat)
    ensures
        pow(256, n + 1) == 256 * pow(256, n),
{
    lemma_pow_adds(256, n, 1);
    lemma_pow1(256);
}

/// The powers of 256 up to the width of a `u64`.
pub proof fn lemma_pow256_values()
    ensures
        pow(256, 0) == 1,
        pow(256, 1) == 0x100,
        pow(256, 2) == 0x1_0000,
        pow(256, 4) == 0x1_0000_0000,
        pow(256, 8) == 0x1_0000_0000_0000_0000,
{
    lemma_pow0(256);
    lemma_pow256_step(0);
    lemma_pow256_step(1);
    lemma_pow256_step(2);
    lemma_pow256_step(3);
    lemma_pow256_step(4);
    lemma_pow256_step(5);
    lemma_pow256_step(6);
    lemma_pow256_step(7);
}

/// Powers of 256 do not decrease.
proof fn lemma_pow256_monotonic(m: nat, n: nat)
    requires
        m <= n,
    ensures
        0 < pow(256, m) <= pow(256, n),
    decreases n,
{
    if m < n {
        lemma_pow256_monotonic(m, (n - 1) as nat);
        lemma_pow256_step((n - 1) as nat);
    } else if m > 0 {
        lemma_pow256_monotonic((m - 1) as nat, (m - 1) as nat);
        lemma_pow256_step((m - 1) as nat);
    } else {
        lemma_pow0(256);
    }
}

/// `n` little-endian digits denote a number below `256^n`.
pub proof fn lemma_le_value_bound(s: Seq<u8>)
    ensures
        le_value(s) < pow(256, s.len()),
    decreases s.len(),
{
    if s.len() == 0 {
        lemma_pow0(256);
    } else {
        lemma_le_value_bound(s.skip(1));
        lemma_pow256_step(s.skip(1).len());
    }
}

/// `n` big-endian digits denote a number below `256^n`.
pub proof fn lemma_be_value_bound(s: Seq<u8>)
    ensures
        be_value(s) < pow(256, s.len()),
    decreases s.len(),
{
    if s.len() == 0 {
        lemma_pow0(256);
    } else {
        lemma_be_value_bound(s.drop_last());
        lemma_pow256_step(s.drop_last().len());
    }
}

/// The first digits of a number.
proof fn lemma_le_digits(v: nat)
    ensures
        le_bytes(v, 1) == seq![(v % 256) as u8],
        le_bytes(v, 2) == seq![(v % 256) as u8, (v / 256 % 256) as u8],
        le_bytes(v, 4) == seq![
            (v % 256) as u8,
            (v / 256 % 256) as u8,
            (v / 256 / 256 % 256) as u8,
            (v / 256 / 256 / 256 % 256) as u8,
        ],
{
    reveal_with_fuel(le_bytes, 5);
}

/// The four bytes of the low half of a number.
pub proof fn lemma_word_bytes(v: nat)
    ensures
        le_bytes(v, 4).len() == 4,
        le_bytes(v, 4)[0] == v % 0x100,
        le_bytes(v, 4)[1] == v / 0x100 % 0x100,
        le_bytes(v, 4)[2] == v / 0x1_0000 % 0x100,
        le_bytes(v, 4)[3] == v / 0x100_0000 % 0x100,
{
    reveal_with_fuel(le_bytes, 5);
}

/// Dividing a 32-bit number by a power of 256 leaves its digits from there on,
/// with zeros behind them.
pub proof fn lemma_word_parts(v: nat, n: nat)
    requires
        v < 0x1_0000_0000,
        n == 1 || n == 2,
    ensures
        le_bytes(v, n) == padded(le_bytes(v, 4), 5).subrange(0, n as int),
        le_bytes(v / 0x100, n) == padded(le_bytes(v, 4), 5).subrange(1, 1int + n),
        le_bytes(v / 0x1_0000, n) == padded(le_bytes(v, 4), 5).subrange(2, 2int + n),
        le_bytes(v / 0x100_0000, n) == padded(le_bytes(v, 4), 5).subrange(3, 3int + n),
{
    lemma_le_digits(v);
    lemma_le_digits(v / 0x100);
    lemma_le_digits(v / 0x1_0000);
    lemma_le_digits(v / 0x100_0000);
    assert(v / 0x100 / 0x100 == v / 0x1_0000);
    assert(v / 0x1_0000 / 0x100 == v / 0x100_0000);
    assert(v / 0x100_0000 / 0x100 == 0);
}

/// Decoding undoes little-endian encoding of a number that fits.
pub proof fn lemma_le_value_of_bytes(v: nat, n: nat)
    requires
        v < pow(256, n),
    ensures
        le_value(le_bytes(v, n)) == v,
    decreases n,
{
    if n == 0 {
        lemma_pow0(256);
    } else {
        lemma_pow256_step((n - 1) as nat);
        lemma_le_value_of_bytes(v / 256, (n - 1) as nat);
        assert(le_bytes(v, n).skip(1) =~= le_bytes(v / 256, (n - 1) as nat));
    }
}

/// Decoding undoes big-endian encoding of a number that fits.
pub proof fn lemma_be_value_of_bytes(v: nat, n: nat)
    requires
        v < pow(256, n),
    ensures
        be_value(be_bytes(v, n)) == v,
    decreases n,
{
    if n == 0 {
        lemma_pow0(256);
    } else {
        lemma_pow256_step((n - 1) as nat);
        lemma_be_value_of_bytes(v / 256, (n - 1) as nat);
        assert(be_bytes(v, n).drop_last() =~= be_bytes(v / 256, (n - 1) as nat));
    }
}

/// Byte sums add up over concatenation.
pub proof fn lemma_byte_sum_concat(a: Seq<u8>, b: Seq<u8>)
    ensures
        byte_sum(a + b) == byte_sum(a) + byte_sum(b),
    decreases b.len(),
{
    if b.len() == 0 {
        assert(a + b =~= a);
    } else {
        lemma_byte_sum_concat(a, b.drop_last());
        assert((a + b).drop_last() =~= a + b.drop_last());
    }
}

/// A byte sum can be split at any place.
proof fn lemma_byte_sum_split(s: Seq<u8>, i: int)
    requires
        0 <= i <= s.len(),
    ensures
        byte_sum(s) == byte_sum(s.take(i)) + sum_from(s, i),
    decreases s.len() - i,
{
    if i < s.len() {
        lemma_byte_sum_split(s, i + 1);
        assert(s.take(i + 1).drop_last() =~= s.take(i));
    } else {
        assert(s.take(i) =~= s);
    }
}

/// A byte sum can be taken from the front.
pub proof fn lemma_byte_sum_front(s: Seq<u8>)
    ensures
        byte_sum(s) == sum_from(s, 0),
{
    lemma_byte_sum_split(s, 0);
}

/// Replacing one byte changes the sum by the difference of the two.
pub proof fn lemma_byte_sum_update(s: Seq<u8>, i: int, b: u8)
    requires
        0 <= i < s.len(),
    ensures
        byte_sum(s.update(i, b)) == byte_sum(s) - s[i] + b,
    decreases s.len(),
{
    let t = s.update(i, b);
    if i == s.len() - 1 {
        assert(t.drop_last() =~= s.drop_last());
    } else {
        lemma_byte_sum_update(s.drop_last(), i, b);
        assert(t.drop_last() =~= s.drop_last().update(i, b));
    }
}

/// Appends the `n` low bytes of `v` in little-endian order.
pub fn push_le(out: &mut Vec<u8>, v: u64, n: usize)
    ensures
        final(out)@ == old(out)@ + le_bytes(v as nat, n as nat),
{
    let mut rest: u64 = v;
    let mut i: usize = 0;
    assert(out@ + le_bytes(v as nat, n as nat) == old(out)@ + le_bytes(v as nat, n as nat));
    while i < n
        invariant
            i <= n,
            out@ + le_bytes(rest as nat, (n - i) as nat) == old(out)@ + le_bytes(
                v as nat,
                n as nat,
            ),
        decreases n - i,
    {
        let ghost before = out@;
        let digit: u8 = (rest % 256) as u8;
        out.push(digit);
        assert(out@ + le_bytes((rest / 256) as nat, (n - i - 1) as nat) =~= before + (seq![digit]
            + le_bytes((rest / 256) as nat, (n - i - 1) as nat)));
        rest = rest / 256;
        i = i + 1;
    }
    assert(out@ + le_bytes(rest as nat, 0) =~= out@);
}

/// Appends the `n` low bytes of `v` in big-endian order.
pub fn push_be(out: &mut Vec<u8>, v: u64, n: usize)
    ensures
        final(out)@ == old(out)@ + be_bytes(v as nat, n as nat),
    decreases n,
{
    if n > 0 {
        push_be(out, v / 256, n - 1);
        let ghost upper = be_bytes((v / 256) as nat, (n - 1) as nat);
        out.push((v % 256) as u8);
        assert(out@ =~= old(out)@ + upper.push((v % 256) as u8));
    }
}

/// Reads up to eight bytes as a little-endian number.
pub fn read_le(s: &[u8]) -> (v: u64)
    requires
        s@.len() <= 8,
    ensures
        v == le_value(s@),
{
    let mut v: u64 = 0;
    let mut i: usize = s.len();
    assert(s@.skip(i as int).len() == 0);
    while i > 0
        invariant
            i <= s@.len() <= 8,
            v == le_value(s@.skip(i as int)),
        decreases i,
    {
        i = i - 1;
        let ghost tail = s@.skip(i as int);
        proof {
            assert(tail.skip(1) =~= s@.skip(i + 1));
            assert(tail[0] == s@[i as int]);
            lemma_le_value_bound(tail);
            lemma_pow256_monotonic(tail.len(), 8);
            lemma_pow256_values();
        }
        v = s[i] as u64 + 256 * v;
    }
    assert(s@.skip(0) =~= s@);
    v
}

/// Reads up to eight bytes as a big-endian number.
pub fn read_be(s: &[u8]) -> (v: u64)
    requires
        s@.len() <= 8,
    ensures
        v == be_value(s@),
{
    let mut v: u64 = 0;
    let mut i: usize = 0;
    assert(s@.take(0).len() == 0);
    while i < s.len()
        invariant
            i <= s@.len() <= 8,
            v == be_value(s@.take(i as int)),
        decreases s@.len() - i,
    {
        let ghost head = s@.take(i + 1);
        proof {
            assert(head.drop_last() =~= s@.take(i as int));
            assert(head.last() == s@[i as int]);
            lemma_be_value_bound(head);
            lemma_pow256_monotonic(head.len(), 8);
            lemma_pow256_values();
        }
        v = 256 * v + s[i] as u64;
        i = i + 1;
    }
    assert(s@.take(s@.len() as int) =~= s@);
    v
}

/// Puts `part` in the place of the bytes of `buf` from `at` on.
pub fn overwrite(buf: &mut Vec<u8>, at: usize, part: &Vec<u8>)
    requires
        at + part@.len() <= old(buf)@.len(),
    ensures
        final(buf)@ == overwritten(old(buf)@, at as int, part@),
    no_unwind
{
    let ghost start = buf@;
    let len: usize = buf.len();
    let mut i: usize = 0;
    assert(overwritten(start, at as int, part@.take(0)) =~= start);
    while i < part.len()
        invariant
            i <= part@.len(),
            at + part@.len() <= len,
            len == start.len(),
            buf@.len() == len,
            buf@ == overwritten(start, at as int, part@.take(i as int)),
        decreases part@.len() - i,
    {
        buf[at + i] = part[i];
        i = i + 1;
        assert(buf@ =~= overwritten(start, at as int, part@.take(i as int)));
    }
    assert(part@.take(part@.len() as int) =~= part@);
}

/// Appends `part`.
pub fn append(out: &mut Vec<u8>, part: &[u8])
    ensures
        final(out)@ == old(out)@ + part@,
{
    let ghost start = out@;
    let mut i: usize = 0;
    assert(start + part@.take(0) =~= start);
    while i < part.len()
        invariant
            i <= part@.len(),
            out@ == start + part@.take(i as int),
        decreases part@.len() - i,
    {
        out.push(part[i]);
        i = i + 1;
        assert(out@ =~= start + part@.take(i as int));
    }
    assert(part@.take(part@.len() as int) =~= part@);
}

/// Appends `n` zero bytes.
pub fn push_zeros(out: &mut Vec<u8>, n: usize)
    ensures
        final(out)@ == old(out)@ + zeros(n as nat),
{
    let z = zeroed(n);
    append(out, z.as_slice());
}

/// Copies `n` bytes from `at` on.
pub fn copy_range(s: &[u8], at: usize, n: usize) -> (r: Vec<u8>)
    requires
        at + n <= s@.len(),
    ensures
        r@ == s@.subrange(at as int, at + n),
{
    let mut r: Vec<u8> = Vec::new();
    let len: usize = s.len();
    let mut i: usize = 0;
    while i < n
        invariant
            i <= n,
            at + n <= len,
            len == s@.len(),
            r@ == s@.subrange(at as int, at + i),
        decreases n - i,
    {
        r.push(s[at + i]);
        i = i + 1;
        assert(r@ =~= s@.subrange(at as int, at + i));
    }
    r
}

/// `n` zero bytes.
pub fn zeroed(n: usize) -> (r: Vec<u8>)
    ensures
        r@ == zeros(n as nat),
{
    let mut r: Vec<u8> = Vec::new();
    let mut i: usize = 0;
    while i < n
        invariant
            i <= n,
            r@ == zeros(i as nat),
        decreases n - i,
    {
        r.push(0);
        i = i + 1;
        assert(r@ =~= zeros(i as nat));
    }
    r
}

/// The sum of all bytes, modulo 256.
pub fn wrapping_sum(s: &[u8]) -> (sum: u8)
    ensures
        sum == byte_sum(s@) % 256,
{
    let mut sum: u8 = 0;
    let mut i: usize = 0;
    while i < s.len()
        invariant
            i <= s@.len(),
            sum == byte_sum(s@.take(i as int)) % 256,
        decreases s@.len() - i,
    {
        assert(s@.take(i + 1).drop_last() =~= s@.take(i as int));
        sum = sum.wrapping_add(s[i]);
        i = i + 1;
    }
    assert(s@.take(s@.len() as int) =~= s@);
    sum
}

/// The bytes of a little-endian encoding are the base-256 digits of the number,
/// from the lowest on.
pub proof fn law_le_bytes(v: nat, n: nat, i: int)
    requires
        0 <= i < n,
    ensures
        le_bytes(v, n).len() == n,
        le_bytes(v, n)[i] as int == v as int / pow(256, i as nat) % 256,
    decreases n,
{
    lemma_le_bytes_len(v, n);
    if i == 0 {
        lemma_pow0(256);
        lemma_div_basics(v as int);
    } else {
        law_le_bytes(v / 256, (n - 1) as nat, i - 1);
        lemma_pow256_step((i - 1) as nat);
        lemma_pow256_monotonic((i - 1) as nat, (i - 1) as nat);
        lemma_div_denominator(v as int, 256, pow(256, (i - 1) as nat));
        lemma_le_bytes_len(v / 256, (n - 1) as nat);
        assert(le_bytes(v, n)[i] == le_bytes(v / 256, (n - 1) as nat)[i - 1]);
    }
}

/// The bytes of a big-endian encoding are the base-256 digits of the number,
/// down to the lowest.
pub proof fn law_be_bytes(v: nat, n: nat, i: int)
    requires
        0 <= i < n,
    ensures
        be_bytes(v, n).len() == n,
        be_bytes(v, n)[i] as int == v as int / pow(256, (n - 1 - i) as nat) % 256,
    decreases n,
{
    lemma_be_bytes_len(v, n);
    if i == n - 1 {
        lemma_be_bytes_len(v / 256, (n - 1) as nat);
        lemma_pow0(256);
        lemma_div_basics(v as int);
    } else {
        let k = (n - 2 - i) as nat;
        law_be_bytes(v / 256, (n - 1) as nat, i);
        lemma_pow256_step(k);
        lemma_pow256_monotonic(k, k);
        lemma_div_denominator(v as int, 256, pow(256, k));
        lemma_be_bytes_len(v / 256, (n - 1) as nat);
        assert(be_bytes(v, n)[i] == be_bytes(v / 256, (n - 1) as nat)[i]);
    }
}

/// What one, two, four or eight bytes are as a little-endian number.
pub proof fn law_le_value(s: Seq<u8>)
    ensures
        s.len() == 1 ==> le_value(s) == s[0],
        s.len() == 2 ==> le_value(s) == s[0] + s[1] * 0x100,
        s.len() == 4 ==> le_value(s) == s[0] + s[1] * 0x100 + s[2] * 0x1_0000 + s[3] * 0x100_0000,
        s.len() == 8 ==> le_value(s) == s[0] + s[1] * 0x100 + s[2] * 0x1_0000 + s[3] * 0x100_0000
            + (s[4] + s[5] * 0x100 + s[6] * 0x1_0000 + s[7] * 0x100_0000) * 0x1_0000_0000,
{
    reveal_with_fuel(le_value, 9);
}

/// What four bytes are as a big-endian number.
pub proof fn law_be_value(s: Seq<u8>)
    requires
        s.len() == 4,
    ensures
        be_value(s) == s[0] * 0x100_0000 + s[1] * 0x1_0000 + s[2] * 0x100 + s[3],
{
    reveal_with_fuel(be_value, 5);
}

/// Bytes of any number come back from the number that they are, in either order.
pub proof fn law_bytes_of_value(s: Seq<u8>)
    ensures
        le_bytes(le_value(s), s.len()) == s,
        be_bytes(be_value(s), s.len()) == s,
    decreases s.len(),
{
    if s.len() > 0 {
        law_bytes_of_value(s.skip(1));
        law_bytes_of_value(s.drop_last());
        let tail = le_value(s.skip(1));
        assert((s[0] as nat + 256 * tail) % 256 == s[0] && (s[0] as nat + 256 * tail) / 256
            == tail);
        let head = be_value(s.drop_last());
        assert((256 * head + s.last() as nat) % 256 == s.last() && (256 * head + s.last() as nat)
            / 256 == head);
        assert(le_bytes(le_value(s), s.len()) =~= s);
        assert(be_bytes(be_value(s), s.len()) =~= s);
    }
}

/// Zero bytes are as many as asked for, and all zero.
pub proof fn law_zeros(n: nat, i: int)
    ensures
        zeros(n).len() == n,
        0 <= i < n ==> zeros(n)[i] == 0,
{
}

/// Overwriting changes the bytes in its range and no others.
pub proof fn law_overwritten(s: Seq<u8>, at: int, part: Seq<u8>, i: int)
    requires
        0 <= at,
        at + part.len() <= s.len(),
        0 <= i < s.len(),
    ensures
        overwritten(s, at, part).len() == s.len(),
        overwritten(s, at, part)[i] == if at <= i < at + part.len() {
            part[i - at]
        } else {
            s[i]
        },
{
}

/// Padding keeps the bytes, and adds zeros up to the length asked for.
pub proof fn law_padded(s: Seq<u8>, n: int, i: int)
    requires
        s.len() <= n,
        0 <= i < n,
    ensures
        padded(s, n).len() == n,
        padded(s, n)[i] == if i < s.len() {
            s[i]
        } else {
            0
        },
{
}

/// The sum of no bytes is zero, and each byte adds its value.
pub proof fn law_byte_sum(s: Seq<u8>, b: u8)
    ensures
        byte_sum(Seq::empty()) == 0,
        byte_sum(s.push(b)) == byte_sum(s) + b,
{
    assert(s.push(b).drop_last() =~= s);
}

/// Text is one byte for each character, the low byte of the character.
pub proof fn law_ascii(s: Seq<char>, i: int)
    ensures
        ascii(s).len() == s.len(),
        0 <= i < s.len() ==> ascii(s)[i] == s[i] as u8,
{
}

} // verus!
