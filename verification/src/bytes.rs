//! Byte strings as numbers: little-endian and big-endian representations.
use vstd::prelude::*;

verus! {

/// A 32-byte word: a hash, a root or a commitment.
pub type B256 = [u8; 32];

/// A 20-byte Ethereum address.
pub type Address = [u8; 20];

/// The number that `s` denotes when read as big-endian digits in base 256.
pub open spec fn be_value(s: Seq<u8>) -> nat
    decreases s.len(),
{
    if s.len() == 0 {
        0
    } else {
        be_value(s.drop_last()) * 256 + s.last() as nat
    }
}

/// The `len` low-order base-256 digits of `n`, most significant first.
pub open spec fn be_repr(n: nat, len: nat) -> Seq<u8>
    decreases len,
{
    if len == 0 {
        Seq::empty()
    } else {
        be_repr(n / 256, (len - 1) as nat).push((n % 256) as u8)
    }
}

/// The `len` low-order base-256 digits of `n`, least significant first.
pub open spec fn le_repr(n: nat, len: nat) -> Seq<u8>
    decreases len,
{
    if len == 0 {
        Seq::empty()
    } else {
        seq![(n % 256) as u8] + le_repr(n / 256, (len - 1) as nat)
    }
}

/// The number that `s` denotes when read as little-endian digits in base 256.
pub open spec fn le_value(s: Seq<u8>) -> nat
    decreases s.len(),
{
    if s.len() == 0 {
        0
    } else {
        s.first() as nat + 256 * le_value(s.drop_first())
    }
}

/// `len` zero bytes.
pub open spec fn zeros(len: nat) -> Seq<u8> {
    Seq::new(len, |i: int| 0u8)
}

/// `s` without its leading zero bytes.
pub open spec fn trim_leading_zeros(s: Seq<u8>) -> Seq<u8>
    decreases s.len(),
{
    if s.len() > 0 && s.first() == 0 {
        trim_leading_zeros(s.drop_first())
    } else {
        s
    }
}

/// Whether `n` can be written with `len` base-256 digits.
pub open spec fn fits(n: nat, len: nat) -> bool
    decreases len,
{
    if len == 0 {
        n == 0
    } else {
        fits(n / 256, (len - 1) as nat)
    }
}

/// A number written with `len` digits takes `len` bytes.
pub proof fn lemma_be_repr_len(n: nat, len: nat)
    ensures
        be_repr(n, len).len() == len,
    decreases len,
{
    if len > 0 {
        lemma_be_repr_len(n / 256, (len - 1) as nat);
    }
}

/// A number written with `len` digits takes `len` bytes, in either order.
pub proof fn lemma_le_repr_len(n: nat, len: nat)
    ensures
        le_repr(n, len).len() == len,
    decreases len,
{
    if len > 0 {
        lemma_le_repr_len(n / 256, (len - 1) as nat);
    }
}

/// Writing a big-endian string's value back with as many digits gives the string.
pub proof fn lemma_be_repr_of_value(s: Seq<u8>)
    ensures
        be_repr(be_value(s), s.len()) == s,
    decreases s.len(),
{
    if s.len() > 0 {
        let n = be_value(s);
        let head = be_value(s.drop_last());
        assert(n / 256 == head && n % 256 == s.last() as nat) by {
            assert(n == head * 256 + s.last() as nat);
        }
        lemma_be_repr_of_value(s.drop_last());
        assert(be_repr(n, s.len()) =~= s);
    }
}

/// Reading back the digits of a number that fits gives the number.
pub proof fn lemma_be_value_of_repr(n: nat, len: nat)
    requires
        fits(n, len),
    ensures
        be_value(be_repr(n, len)) == n,
    decreases len,
{
    if len > 0 {
        let r = be_repr(n, len);
        lemma_be_value_of_repr(n / 256, (len - 1) as nat);
        assert(r.drop_last() =~= be_repr(n / 256, (len - 1) as nat));
        assert(r.last() == (n % 256) as u8);
    }
}

/// Writing a little-endian string's value back with as many digits gives the string.
pub proof fn lemma_le_repr_of_value(s: Seq<u8>)
    ensures
        le_repr(le_value(s), s.len()) == s,
    decreases s.len(),
{
    if s.len() > 0 {
        let n = le_value(s);
        let tail = le_value(s.drop_first());
        assert(n / 256 == tail && n % 256 == s.first() as nat) by {
            assert(n == s.first() as nat + 256 * tail);
        }
        lemma_le_repr_of_value(s.drop_first());
        assert(le_repr(n, s.len()) =~= s);
    }
}

/// Reading back the little-endian digits of a number that fits gives the number.
pub proof fn lemma_le_value_of_repr(n: nat, len: nat)
    requires
        fits(n, len),
    ensures
        le_value(le_repr(n, len)) == n,
    decreases len,
{
    if len > 0 {
        let r = le_repr(n, len);
        lemma_le_value_of_repr(n / 256, (len - 1) as nat);
        assert(r.drop_first() =~= le_repr(n / 256, (len - 1) as nat));
        assert(r.first() == (n % 256) as u8);
    }
}

/// Zero fits in any number of digits.
pub proof fn lemma_fits_zero(len: nat)
    ensures
        fits(0, len),
    decreases len,
{
    if len > 0 {
        lemma_fits_zero((len - 1) as nat);
    }
}

/// What fits in `len` digits fits in more.
pub proof fn lemma_fits_longer(n: nat, len: nat, more: nat)
    requires
        fits(n, len),
        len <= more,
    ensures
        fits(n, more),
    decreases len,
{
    if len == 0 {
        lemma_fits_zero(more);
    } else {
        lemma_fits_longer(n / 256, (len - 1) as nat, (more - 1) as nat);
    }
}

/// Every 64-bit number fits in eight digits.
pub proof fn lemma_u64_fits(x: u64)
    ensures
        fits(x as nat, 8),
{
    reveal_with_fuel(fits, 9);
}

/// A number that fits in eight digits is a 64-bit number.
pub proof fn lemma_fits_u64(n: nat)
    requires
        fits(n, 8),
    ensures
        n <= u64::MAX,
{
    reveal_with_fuel(fits, 9);
}

/// The value of an eight-byte little-endian string is a 64-bit number.
pub proof fn lemma_le_value_u64(s: Seq<u8>)
    requires
        s.len() == 8,
    ensures
        le_value(s) <= u64::MAX,
        fits(le_value(s), 8),
{
    reveal_with_fuel(le_value, 9);
    reveal_with_fuel(fits, 9);
    let s1 = s.drop_first();
    let s2 = s1.drop_first();
    let s3 = s2.drop_first();
    let s4 = s3.drop_first();
    let s5 = s4.drop_first();
    let s6 = s5.drop_first();
    let s7 = s6.drop_first();
    assert(le_value(s7.drop_first()) == 0);
}

/// Appends `data` to `out`.
pub fn append(out: &mut Vec<u8>, data: &[u8])
    ensures
        final(out)@ == old(out)@ + data@,
{
    let n = data.len();
    let mut i: usize = 0;
    while i < n
        invariant
            i <= n,
            n == data@.len(),
            out@ == old(out)@ + data@.take(i as int),
        decreases n - i,
    {
        out.push(data[i]);
        i += 1;
        assert(data@.take(i as int) =~= data@.take(i - 1).push(data@[i - 1]));
        assert(out@ =~= old(out)@ + data@.take(i as int));
    }
    assert(data@.take(n as int) =~= data@);
}

/// Copies `data[from..to]` into a new vector.
pub fn copy_range(data: &[u8], from: usize, to: usize) -> (r: Vec<u8>)
    requires
        from <= to <= data@.len(),
    ensures
        r@ == data@.subrange(from as int, to as int),
{
    let mut r: Vec<u8> = Vec::new();
    let mut i: usize = from;
    while i < to
        invariant
            from <= i <= to,
            to <= data@.len(),
            r@ == data@.subrange(from as int, i as int),
        decreases to - i,
    {
        r.push(data[i]);
        i += 1;
        assert(r@ =~= data@.subrange(from as int, i as int));
    }
    r
}

/// Copies the 32 bytes at `pos` into a word.
pub fn word_at(data: &[u8], pos: usize) -> (r: B256)
    requires
        pos + 32 <= data@.len(),
    ensures
        r@ == data@.subrange(pos as int, pos + 32),
{
    let n = data.len();
    let mut r = [0u8; 32];
    let mut i: usize = 0;
    while i < 32
        invariant
            i <= 32,
            pos + 32 <= n,
            n == data@.len(),
            forall|j: int| 0 <= j < i ==> r@[j] == data@[pos + j],
        decreases 32 - i,
    {
        r[i] = data[pos + i];
        i += 1;
    }
    assert(r@ =~= data@.subrange(pos as int, pos + 32));
    r
}

/// Whether two byte strings are equal.
pub fn bytes_eq(a: &[u8], b: &[u8]) -> (r: bool)
    ensures
        r == (a@ == b@),
{
    if a.len() != b.len() {
        return false;
    }
    let n = a.len();
    let mut i: usize = 0;
    while i < n
        invariant
            i <= n,
            n == a@.len(),
            n == b@.len(),
            forall|j: int| 0 <= j < i ==> a@[j] == b@[j],
        decreases n - i,
    {
        if a[i] != b[i] {
            return false;
        }
        i += 1;
    }
    assert(a@ =~= b@);
    true
}

/// Appends the eight little-endian bytes of `x` to `out`.
pub fn push_u64_le(out: &mut Vec<u8>, x: u64)
    ensures
        final(out)@ == old(out)@ + le_repr(x as nat, 8),
{
    let mut v: u64 = x;
    let mut i: usize = 0;
    while i < 8
        invariant
            i <= 8,
            old(out)@ + le_repr(x as nat, 8) == out@ + le_repr(v as nat, (8 - i) as nat),
        decreases 8 - i,
    {
        let ghost before = out@;
        out.push((v % 256) as u8);
        proof {
            let rest = le_repr((v / 256) as nat, (8 - i - 1) as nat);
            assert(le_repr(v as nat, (8 - i) as nat) == seq![(v % 256) as u8] + rest);
            assert(before + (seq![(v % 256) as u8] + rest) =~= before.push((v % 256) as u8)
                + rest);
        }
        v = v / 256;
        i += 1;
    }
    assert(out@ + le_repr(v as nat, 0) =~= out@);
}

/// Reads the little-endian 64-bit number at `pos`.
pub fn read_u64_le(data: &[u8], pos: usize) -> (x: u64)
    requires
        pos + 8 <= data@.len(),
    ensures
        x as nat == le_value(data@.subrange(pos as int, pos + 8)),
{
    let b0 = data[pos] as u64;
    let b1 = data[pos + 1] as u64;
    let b2 = data[pos + 2] as u64;
    let b3 = data[pos + 3] as u64;
    let b4 = data[pos + 4] as u64;
    let b5 = data[pos + 5] as u64;
    let b6 = data[pos + 6] as u64;
    let b7 = data[pos + 7] as u64;
    proof {
        let s = data@.subrange(pos as int, pos + 8);
        let s1 = s.drop_first();
        let s2 = s1.drop_first();
        let s3 = s2.drop_first();
        let s4 = s3.drop_first();
        let s5 = s4.drop_first();
        let s6 = s5.drop_first();
        let s7 = s6.drop_first();
        reveal_with_fuel(le_value, 9);
        assert(le_value(s7.drop_first()) == 0);
        assert(s.first() == b0 && s1.first() == b1 && s2.first() == b2 && s3.first() == b3);
        assert(s4.first() == b4 && s5.first() == b5 && s6.first() == b6 && s7.first() == b7);
    }
    b0 + b1 * 0x100 + b2 * 0x1_0000 + b3 * 0x100_0000 + b4 * 0x1_0000_0000 + b5
        * 0x100_0000_0000 + b6 * 0x1_0000_0000_0000 + b7 * 0x100_0000_0000_0000
}

/// The 32-byte big-endian word that holds `x`.
pub fn u64_to_word(x: u64) -> (r: B256)
    ensures
        r@ == be_repr(x as nat, 32),
        be_value(r@) == x,
{
    let mut r = [0u8; 32];
    let mut v: u64 = x;
    let mut i: usize = 32;
    proof {
        assert(r@.skip(32) =~= Seq::<u8>::empty());
    }
    while i > 0
        invariant
            i <= 32,
            be_repr(x as nat, 32) == be_repr(v as nat, i as nat) + r@.skip(i as int),
        decreases i,
    {
        i -= 1;
        let ghost before = r@;
        r[i] = (v % 256) as u8;
        proof {
            assert(r@.skip(i as int) =~= seq![(v % 256) as u8] + before.skip(i + 1));
            let head = be_repr((v / 256) as nat, i as nat);
            assert(be_repr(v as nat, (i + 1) as nat) == head.push((v % 256) as u8));
            assert(head.push((v % 256) as u8) + before.skip(i + 1) =~= head + r@.skip(i as int));
        }
        v = v / 256;
    }
    proof {
        assert(be_repr(v as nat, 0) + r@.skip(0) =~= r@);
        lemma_u64_fits(x);
        lemma_fits_longer(x as nat, 8, 32);
        lemma_be_value_of_repr(x as nat, 32);
    }
    r
}

/// The 64-bit number that a big-endian word holds, if it is one.
pub fn word_to_u64(w: &B256) -> (r: Option<u64>)
    ensures
        r matches Some(x) ==> be_value(w@) == x,
        r is None <==> be_value(w@) > u64::MAX,
{
    let mut i: usize = 0;
    while i < 24
        invariant
            i <= 24,
            forall|j: int| 0 <= j < i ==> w@[j] == 0,
        decreases 24 - i,
    {
        if w[i] != 0 {
            proof {
                lemma_be_value_high_byte(w@, i as int);
            }
            return None;
        }
        i += 1;
    }
    let mut x: u64 = 0;
    let mut k: usize = 24;
    proof {
        lemma_be_value_zeros(w@.take(24));
    }
    while k < 32
        invariant
            24 <= k <= 32,
            x as nat == be_value(w@.take(k as int)),
            fits(x as nat, (k - 24) as nat),
        decreases 32 - k,
    {
        proof {
            assert(w@.take(k + 1).drop_last() =~= w@.take(k as int));
            lemma_fits_longer(x as nat, (k - 24) as nat, 7);
            lemma_fits_step(x as nat, w@[k as int], 7);
            lemma_fits_u64(x as nat * 256 + w@[k as int] as nat);
            lemma_fits_step(x as nat, w@[k as int], (k - 24) as nat);
        }
        x = x * 256 + w[k] as u64;
        k += 1;
    }
    assert(w@.take(32) =~= w@);
    Some(x)
}

/// `s` without its leading zero bytes.
pub fn trim_zeros(s: &[u8]) -> (r: Vec<u8>)
    ensures
        r@ == trim_leading_zeros(s@),
{
    let n = s.len();
    let mut i: usize = 0;
    proof {
        assert(s@.skip(0) =~= s@);
    }
    while i < n && s[i] == 0
        invariant
            i <= n,
            n == s@.len(),
            trim_leading_zeros(s@) == trim_leading_zeros(s@.skip(i as int)),
        decreases n - i,
    {
        proof {
            assert(s@.skip(i as int).drop_first() =~= s@.skip(i + 1));
        }
        i += 1;
    }
    proof {
        assert(s@.skip(i as int) =~= s@.subrange(i as int, n as int));
    }
    copy_range(s, i, n)
}

/// A string of zero bytes has the value zero.
pub proof fn lemma_be_value_zeros(s: Seq<u8>)
    requires
        forall|j: int| 0 <= j < s.len() ==> s[j] == 0,
    ensures
        be_value(s) == 0,
    decreases s.len(),
{
    if s.len() > 0 {
        lemma_be_value_zeros(s.drop_last());
    }
}

/// A nonzero byte with at least eight bytes after it makes the value larger
/// than any 64-bit number.
pub proof fn lemma_be_value_high_byte(s: Seq<u8>, i: int)
    requires
        0 <= i < s.len() - 8,
        s[i] != 0,
    ensures
        be_value(s) > u64::MAX,
{
    lemma_be_value_lower_bound(s, i, 8);
    if be_value(s) <= u64::MAX {
        lemma_u64_fits(be_value(s) as u64);
    }
}

/// A nonzero byte with at least `below` bytes after it makes a value that
/// does not fit in `below` digits.
proof fn lemma_be_value_lower_bound(s: Seq<u8>, i: int, below: nat)
    requires
        0 <= i,
        i + below < s.len(),
        s[i] != 0,
    ensures
        !fits(be_value(s), below),
    decreases s.len(),
{
    let n = be_value(s);
    let head = be_value(s.drop_last());
    assert(n / 256 == head) by {
        assert(n == head * 256 + s.last() as nat);
    }
    if below == 0 {
        if i == s.len() - 1 {
            assert(n >= 1);
        } else {
            lemma_be_value_lower_bound(s.drop_last(), i, 0);
            assert(head != 0);
        }
    } else {
        lemma_be_value_lower_bound(s.drop_last(), i, (below - 1) as nat);
    }
}

/// Appending a digit to a number of `len` digits gives one of `len + 1` digits.
pub proof fn lemma_fits_step(n: nat, d: u8, len: nat)
    requires
        fits(n, len),
    ensures
        fits(n * 256 + d as nat, len + 1),
{
    assert((n * 256 + d as nat) / 256 == n);
}

/// The 32-byte word of a 64-bit number is 24 zero bytes and then the
/// number's eight big-endian bytes.
pub proof fn lemma_word_of_u64(x: u64)
    ensures
        be_repr(x as nat, 32).subrange(0, 24) == zeros(24),
        be_repr(x as nat, 32).subrange(24, 32) == be_repr(x as nat, 8),
{
    lemma_repr_split(x as nat, 24, 8);
    lemma_u64_fits(x);
    lemma_repr_high_zero(x as nat, 8, 24);
}

/// The digits of a number are its high digits followed by its low digits.
pub proof fn lemma_repr_split(n: nat, high: nat, low: nat)
    ensures
        be_repr(n, high + low).subrange(high as int, (high + low) as int) == be_repr(n, low),
        be_repr(n, high + low).len() == high + low,
    decreases low,
{
    lemma_be_repr_len(n, high + low);
    if low == 0 {
        assert(be_repr(n, high).subrange(high as int, high as int) =~= be_repr(n, 0));
    } else {
        lemma_repr_split(n / 256, high, (low - 1) as nat);
        lemma_be_repr_len(n / 256, (high + low - 1) as nat);
        lemma_be_repr_len(n, low);
        let whole = be_repr(n, high + low);
        let init = be_repr(n / 256, (high + low - 1) as nat);
        assert(whole == init.push((n % 256) as u8));
        assert(whole.subrange(high as int, (high + low) as int) =~= init.subrange(
            high as int,
            (high + low - 1) as int,
        ).push((n % 256) as u8));
    }
}

/// Where a number fits in `low` digits, its digits above those are zero.
pub proof fn lemma_repr_high_zero(n: nat, low: nat, high: nat)
    requires
        fits(n, low),
    ensures
        be_repr(n, high + low).subrange(0, high as int) == zeros(high),
    decreases low,
{
    lemma_be_repr_len(n, high + low);
    if low == 0 {
        lemma_repr_of_zero(high);
        assert(be_repr(n, high).subrange(0, high as int) =~= be_repr(n, high));
    } else {
        lemma_repr_high_zero(n / 256, (low - 1) as nat, high);
        lemma_be_repr_len(n / 256, (high + low - 1) as nat);
        let whole = be_repr(n, high + low);
        let init = be_repr(n / 256, (high + low - 1) as nat);
        assert(whole == init.push((n % 256) as u8));
        assert(whole.subrange(0, high as int) =~= init.subrange(0, high as int));
    }
}

/// Zero is written with zero digits only.
pub proof fn lemma_repr_of_zero(len: nat)
    ensures
        be_repr(0, len) == zeros(len),
    decreases len,
{
    lemma_be_repr_len(0, len);
    if len > 0 {
        lemma_repr_of_zero((len - 1) as nat);
        assert(be_repr(0, len) =~= zeros(len));
    } else {
        assert(be_repr(0, len) =~= zeros(len));
    }
}

/// Trimming leaves a string no longer than it was.
pub proof fn lemma_trim_len(s: Seq<u8>)
    ensures
        trim_leading_zeros(s).len() <= s.len(),
    decreases s.len(),
{
    if s.len() > 0 && s.first() == 0 {
        lemma_trim_len(s.drop_first());
    }
}

} // verus!
