//! Unsigned numbers in kernel records, in the byte order of the machine that
//! wrote them.

use vstd::prelude::*;
use vstd::slice::slice_subrange;

verus! {

/// The order in which the bytes of a number stand in memory.
#[derive(Clone, Copy, Debug, PartialEq, Eq, Structural)]
pub enum ByteOrder {
    /// The lowest byte comes first.
    Little,
    /// The highest byte comes first.
    Big,
}

/// The value of bytes of which the lowest comes first.
pub open spec fn little_value(s: Seq<u8>) -> nat
    decreases s.len(),
{
    if s.len() == 0 {
        0
    } else {
        s[0] as nat + 256 * little_value(s.skip(1))
    }
}

/// The value of bytes of which the highest comes first.
pub open spec fn big_value(s: Seq<u8>) -> nat
    decreases s.len(),
{
    if s.len() == 0 {
        0
    } else {
        256 * big_value(s.drop_last()) + s.last() as nat
    }
}

/// The value of bytes in a given order.
pub open spec fn value_of(s: Seq<u8>, order: ByteOrder) -> nat {
    match order {
        ByteOrder::Little => little_value(s),
        ByteOrder::Big => big_value(s),
    }
}

/// The value of the `n` bytes at `at`.
pub open spec fn field(s: Seq<u8>, at: int, n: int, order: ByteOrder) -> nat {
    value_of(s.subrange(at, at + n), order)
}

/// How many values `n` bytes can take.
pub open spec fn byte_span(n: nat) -> nat
    decreases n,
{
    if n == 0 {
        1
    } else {
        256 * byte_span((n - 1) as nat)
    }
}

proof fn lemma_span_steps(n: nat, m: nat)
    requires
        n <= m,
    ensures
        1 <= byte_span(n) <= byte_span(m),
    decreases m,
{
    if n < m {
        lemma_span_steps(n, (m - 1) as nat);
    } else if n > 0 {
        lemma_span_steps((n - 1) as nat, (n - 1) as nat);
    }
}

proof fn lemma_spans()
    ensures
        byte_span(0) == 1,
        byte_span(1) == 0x100,
        byte_span(2) == 0x1_0000,
        byte_span(4) == 0x1_0000_0000,
        byte_span(8) == 0x1_0000_0000_0000_0000,
{
    reveal_with_fuel(byte_span, 9);
}

fn read_number(bytes: &[u8], order: ByteOrder) -> (n: u64)
    requires
        bytes@.len() <= 8,
    ensures
        n == value_of(bytes@, order),
        n < byte_span(bytes@.len()),
{
    let len: usize = bytes.len();
    let mut acc: u64 = 0;
    let mut done: usize = 0;
    proof {
        lemma_spans();
        assert(bytes@.skip(len as int) =~= Seq::<u8>::empty());
        assert(bytes@.take(0) =~= Seq::<u8>::empty());
    }
    while done < len
        invariant
            done <= len <= 8,
            len == bytes@.len(),
            order == ByteOrder::Little ==> acc == little_value(bytes@.skip(len - done)),
            order == ByteOrder::Big ==> acc == big_value(bytes@.take(done as int)),
            acc < byte_span(done as nat),
        decreases len - done,
    {
        let b: u8 = match order {
            ByteOrder::Little => bytes[len - 1 - done],
            ByteOrder::Big => bytes[done],
        };
        proof {
            lemma_span_steps((done + 1) as nat, 8);
            lemma_spans();
            let low = bytes@.skip(len - 1 - done);
            assert(low.skip(1) =~= bytes@.skip(len - done));
            let high = bytes@.take(done + 1);
            assert(high.drop_last() =~= bytes@.take(done as int));
        }
        acc = acc * 256 + b as u64;
        done += 1;
    }
    proof {
        assert(bytes@.skip(0) =~= bytes@);
        assert(bytes@.take(len as int) =~= bytes@);
    }
    acc
}

/// Reads a two-byte number.
pub fn read_u16(bytes: &[u8], at: usize, order: ByteOrder) -> (n: u16)
    requires
        at + 2 <= bytes.len(),
    ensures
        n == field(bytes@, at as int, 2, order),
{
    proof {
        lemma_spans();
    }
    read_number(slice_subrange(bytes, at, at + 2), order) as u16
}

/// Reads a four-byte number.
pub fn read_u32(bytes: &[u8], at: usize, order: ByteOrder) -> (n: u32)
    requires
        at + 4 <= bytes.len(),
    ensures
        n == field(bytes@, at as int, 4, order),
{
    proof {
        lemma_spans();
    }
    read_number(slice_subrange(bytes, at, at + 4), order) as u32
}

/// Reads an eight-byte number.
pub fn read_u64(bytes: &[u8], at: usize, order: ByteOrder) -> (n: u64)
    requires
        at + 8 <= bytes.len(),
    ensures
        n == field(bytes@, at as int, 8, order),
{
    read_number(slice_subrange(bytes, at, at + 8), order)
}

fn push_number(out: &mut Vec<u8>, n: u64, len: usize, order: ByteOrder)
    requires
        len <= 8,
        n < byte_span(len as nat),
    ensures
        final(out)@.len() == old(out)@.len() + len,
        final(out)@.take(old(out)@.len() as int) == old(out)@,
        field(final(out)@, old(out)@.len() as int, len as int, order) == n,
    decreases len,
{
    let ghost before = out@;
    if len == 0 {
        assert(out@.take(before.len() as int) =~= before);
        assert(out@.subrange(before.len() as int, before.len() as int) =~= Seq::<u8>::empty());
        return ;
    }
    match order {
        ByteOrder::Little => {
            out.push((n % 256) as u8);
            let ghost mid = out@;
            push_number(out, n / 256, len - 1, order);
            proof {
                assert(out@.take(before.len() as int) =~= mid.take(before.len() as int));
                assert(mid.take(before.len() as int) =~= before);
                let whole = out@.subrange(before.len() as int, before.len() + len);
                assert(whole.skip(1) =~= out@.subrange(mid.len() as int, mid.len() + len - 1));
                assert(out@[before.len() as int] == out@.take(mid.len() as int)[before.len() as int]);
            }
        },
        ByteOrder::Big => {
            push_number(out, n / 256, len - 1, order);
            let ghost mid = out@;
            out.push((n % 256) as u8);
            proof {
                assert(out@.take(before.len() as int) =~= mid.take(before.len() as int));
                let whole = out@.subrange(before.len() as int, before.len() + len);
                assert(whole.drop_last() =~= mid.subrange(before.len() as int, before.len() + len - 1));
            }
        },
    }
}

/// Appends a two-byte number.
pub fn push_u16(out: &mut Vec<u8>, n: u16, order: ByteOrder)
    ensures
        final(out)@.len() == old(out)@.len() + 2,
        final(out)@.take(old(out)@.len() as int) == old(out)@,
        field(final(out)@, old(out)@.len() as int, 2, order) == n,
{
    proof {
        lemma_spans();
    }
    push_number(out, n as u64, 2, order);
}

/// Appends a four-byte number.
pub fn push_u32(out: &mut Vec<u8>, n: u32, order: ByteOrder)
    ensures
        final(out)@.len() == old(out)@.len() + 4,
        final(out)@.take(old(out)@.len() as int) == old(out)@,
        field(final(out)@, old(out)@.len() as int, 4, order) == n,
{
    proof {
        lemma_spans();
    }
    push_number(out, n as u64, 4, order);
}

/// Appends a eight-byte number.
pub fn push_u64(out: &mut Vec<u8>, n: u64, order: ByteOrder)
    ensures
        final(out)@.len() == old(out)@.len() + 8,
        final(out)@.take(old(out)@.len() as int) == old(out)@,
        field(final(out)@, old(out)@.len() as int, 8, order) == n,
{
    proof {
        lemma_spans();
    }
    push_number(out, n as u64, 8, order);
}

/// Appends bytes as they are.
pub fn push_bytes(out: &mut Vec<u8>, bytes: &[u8])
    ensures
        final(out)@ == old(out)@ + bytes@,
{
    let ghost before = out@;
    let mut i: usize = 0;
    assert(bytes@.take(0) =~= Seq::<u8>::empty());
    while i < bytes.len()
        invariant
            i <= bytes@.len(),
            out@ == before + bytes@.take(i as int),
        decreases bytes@.len() - i,
    {
        out.push(bytes[i]);
        i += 1;
        assert(bytes@.take(i as int) =~= bytes@.take(i - 1).push(bytes@[i - 1]));
        assert(out@ =~= before + bytes@.take(i as int));
    }
    assert(bytes@.take(i as int) =~= bytes@);
}

/// Bytes that are only appended to keep their fields.
pub proof fn fields_kept(before: Seq<u8>, after: Seq<u8>, at: int, n: int, order: ByteOrder)
    requires
        0 <= at,
        0 <= n,
        at + n <= before.len() <= after.len(),
        after.take(before.len() as int) == before,
    ensures
        field(after, at, n, order) == field(before, at, n, order),
{
    assert(after.subrange(at, at + n) =~= after.take(before.len() as int).subrange(at, at + n));
}

/// Every number of `n` bytes has a value below `byte_span(n)`.
pub proof fn values_fit(s: Seq<u8>, order: ByteOrder)
    ensures
        value_of(s, order) < byte_span(s.len()),
    decreases s.len(),
{
    if s.len() > 0 {
        match order {
            ByteOrder::Little => values_fit(s.skip(1), order),
            ByteOrder::Big => values_fit(s.drop_last(), order),
        }
    }
}

/// The bytes of a field weigh by their place: the first the least in the one
/// order, and the most in the other.
pub proof fn bytes_weigh_by_their_place(s: Seq<u8>, at: int)
    requires
        0 <= at,
    ensures
        at + 2 <= s.len() ==> field(s, at, 2, ByteOrder::Little) == s[at] + 0x100 * s[at + 1],
        at + 2 <= s.len() ==> field(s, at, 2, ByteOrder::Big) == 0x100 * s[at] + s[at + 1],
        at + 4 <= s.len() ==> field(s, at, 4, ByteOrder::Little) == s[at] + 0x100 * s[at + 1]
            + 0x1_0000 * s[at + 2] + 0x100_0000 * s[at + 3],
        at + 4 <= s.len() ==> field(s, at, 4, ByteOrder::Big) == 0x100_0000 * s[at] + 0x1_0000
            * s[at + 1] + 0x100 * s[at + 2] + s[at + 3],
        at + 8 <= s.len() ==> field(s, at, 8, ByteOrder::Little) == field(
            s,
            at,
            4,
            ByteOrder::Little,
        ) + 0x1_0000_0000 * field(s, at + 4, 4, ByteOrder::Little),
        at + 8 <= s.len() ==> field(s, at, 8, ByteOrder::Big) == 0x1_0000_0000 * field(
            s,
            at,
            4,
            ByteOrder::Big,
        ) + field(s, at + 4, 4, ByteOrder::Big),
{
    if at + 2 <= s.len() {
        lemma_two_bytes(s.subrange(at, at + 2));
    }
    if at + 4 <= s.len() {
        lemma_four_bytes(s.subrange(at, at + 4));
    }
    if at + 8 <= s.len() {
        let t = s.subrange(at, at + 8);
        lemma_four_bytes(t.take(4));
        lemma_four_bytes(t.skip(4));
        assert(t.take(4) =~= s.subrange(at, at + 4));
        assert(t.skip(4) =~= s.subrange(at + 4, at + 8));
        lemma_little_halves(t);
        lemma_big_halves(t);
    }
}

proof fn lemma_two_bytes(t: Seq<u8>)
    requires
        t.len() == 2,
    ensures
        little_value(t) == t[0] + 0x100 * t[1],
        big_value(t) == 0x100 * t[0] + t[1],
{
    reveal_with_fuel(little_value, 3);
    reveal_with_fuel(big_value, 3);
}

proof fn lemma_four_bytes(t: Seq<u8>)
    requires
        t.len() == 4,
    ensures
        little_value(t) == t[0] + 0x100 * t[1] + 0x1_0000 * t[2] + 0x100_0000 * t[3],
        big_value(t) == 0x100_0000 * t[0] + 0x1_0000 * t[1] + 0x100 * t[2] + t[3],
{
    reveal_with_fuel(little_value, 5);
    reveal_with_fuel(big_value, 5);
}

proof fn lemma_little_halves(t: Seq<u8>)
    requires
        t.len() == 8,
    ensures
        little_value(t) == little_value(t.take(4)) + 0x1_0000_0000 * little_value(t.skip(4)),
{
    lemma_four_bytes(t.take(4));
    reveal_with_fuel(little_value, 5);
    assert(t.skip(1).skip(1).skip(1).skip(1) =~= t.skip(4));
}

proof fn lemma_big_halves(t: Seq<u8>)
    requires
        t.len() == 8,
    ensures
        big_value(t) == 0x1_0000_0000 * big_value(t.take(4)) + big_value(t.skip(4)),
{
    lemma_four_bytes(t.skip(4));
    reveal_with_fuel(big_value, 5);
    assert(t.drop_last().drop_last().drop_last().drop_last() =~= t.take(4));
}

} // verus!
