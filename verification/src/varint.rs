//! Variable-length integers of the status-query wire protocol.
//!
//! A varint is a little-endian grouping of 7-bit chunks: each byte carries
//! seven data bits, and its high bit is set exactly when another byte
//! follows.  Decoding fails once five bytes have been consumed without a
//! terminating byte, which guards against corrupt or adversarial streams.

use vstd::prelude::*;

verus! {

/// 128 raised to `n`; the weight of the `n`-th 7-bit group.
pub open spec fn pow128(n: nat) -> nat
    decreases n,
{
    if n == 0 {
        1
    } else {
        128 * pow128((n - 1) as nat)
    }
}

/// Little-endian base-128 encoding of `n` with continuation bits.
pub open spec fn varint_encode_spec(n: u32) -> Seq<u8>
    decreases n,
{
    if n < 0x80 {
        seq![n as u8]
    } else {
        seq![(0x80 + n % 0x80) as u8] + varint_encode_spec(n / 0x80)
    }
}

/// The value carried by the 7-bit groups of `s`, little-endian, with
/// continuation bits ignored.
pub open spec fn varint_groups_value(s: Seq<u8>) -> nat
    decreases s.len(),
{
    if s.len() == 0 {
        0
    } else {
        (s[0] % 0x80) as nat + 0x80 * varint_groups_value(s.drop_first())
    }
}

/// Index of the first byte whose continuation bit is clear, or -1 if
/// every byte of `s` has it set.
pub open spec fn first_terminator(s: Seq<u8>) -> int
    decreases s.len(),
{
    if s.len() == 0 {
        -1
    } else if s[0] < 0x80 {
        0
    } else {
        let r = first_terminator(s.drop_first());
        if r < 0 {
            -1
        } else {
            r + 1
        }
    }
}

/// Why decoding a buffer failed.
#[derive(Debug, PartialEq, Eq, Clone, Copy)]
pub enum VarintError {
    /// Five bytes were consumed and the varint still had not terminated.
    TooLong,
    /// The buffer ended before the varint terminated.
    Incomplete,
}

/// What decoding the front of `s` yields: the value of the first varint
/// (its 32 low bits) and the count of bytes it occupies; `TooLong` when
/// five bytes carry no terminator; `Incomplete` when the buffer ends first.
pub open spec fn varint_decode_spec(s: Seq<u8>) -> Result<(u32, int), VarintError> {
    let t = first_terminator(s);
    if 0 <= t < 5 {
        Result::Ok(((varint_groups_value(s.take(t + 1)) % 0x1_0000_0000) as u32, t + 1))
    } else if s.len() >= 5 {
        Result::Err(VarintError::TooLong)
    } else {
        Result::Err(VarintError::Incomplete)
    }
}

/// `first_terminator` stays within the sequence.
proof fn lemma_first_terminator_bounds(s: Seq<u8>)
    ensures
        -1 <= first_terminator(s) < s.len(),
        first_terminator(s) >= 0 ==> s[first_terminator(s)] < 0x80,
        first_terminator(s) == -1 ==> forall|j: int| 0 <= j < s.len() ==> s[j] >= 0x80,
    decreases s.len(),
{
    if s.len() > 0 && s[0] >= 0x80 {
        lemma_first_terminator_bounds(s.drop_first());
        if first_terminator(s) == -1 {
            assert forall|j: int| 0 <= j < s.len() implies s[j] >= 0x80 by {
                if j > 0 {
                    assert(s.drop_first()[j - 1] == s[j]);
                }
            }
        }
    }
}

/// Bytes before the first terminator all have the continuation bit set,
/// and the first byte without it is the terminator.
proof fn lemma_first_terminator_at(s: Seq<u8>, i: int)
    requires
        0 <= i <= s.len(),
        forall|j: int| 0 <= j < i ==> s[j] >= 0x80,
    ensures
        i < s.len() && s[i] < 0x80 ==> first_terminator(s) == i,
        first_terminator(s) == -1 || first_terminator(s) >= i,
    decreases i,
{
    if i > 0 {
        assert(s[0] >= 0x80);
        lemma_first_terminator_at(s.drop_first(), i - 1);
        assert(forall|j: int| 0 <= j < i - 1 ==> s.drop_first()[j] == s[j + 1]);
    }
}

/// Appending a byte adds its 7 data bits at the next group's weight.
proof fn lemma_groups_value_push(s: Seq<u8>, b: u8)
    ensures
        varint_groups_value(s.push(b)) == varint_groups_value(s) + (b % 0x80) * pow128(s.len()),
    decreases s.len(),
{
    if s.len() == 0 {
        let t = s.push(b);
        assert(t =~= seq![b]);
        assert(t.drop_first() =~= Seq::<u8>::empty());
        assert(varint_groups_value(t.drop_first()) == 0);
        assert(t[0] == b);
        assert(varint_groups_value(t) == (b % 0x80) as nat + 0x80 * 0);
        assert(pow128(0) == 1);
        assert((b % 0x80) * pow128(0) == (b % 0x80) as nat) by (nonlinear_arith)
            requires
                pow128(0) == 1,
        ;
    } else {
        let t = s.push(b);
        assert(t.drop_first() =~= s.drop_first().push(b));
        lemma_groups_value_push(s.drop_first(), b);
        let v0 = varint_groups_value(s.drop_first());
        let w = pow128(s.drop_first().len());
        assert(t[0] == s[0]);
        assert(t.len() > 0);
        assert(varint_groups_value(t) == (t[0] % 0x80) as nat + 0x80 * varint_groups_value(
            t.drop_first(),
        ));
        assert(varint_groups_value(t.drop_first()) == v0 + (b % 0x80) * w);
        assert(0x80 * (v0 + (b % 0x80) * w) == 0x80 * v0 + (b % 0x80) * (0x80 * w))
            by (nonlinear_arith);
        assert(s.drop_first().len() == s.len() - 1);
        assert(pow128(s.len()) == 0x80 * w);
    }
}

/// A group value is bounded by the weight just past the last group.
proof fn lemma_groups_value_bound(s: Seq<u8>)
    ensures
        varint_groups_value(s) < pow128(s.len()),
    decreases s.len(),
{
    if s.len() > 0 {
        lemma_groups_value_bound(s.drop_first());
        let v = varint_groups_value(s.drop_first());
        let w = pow128(s.drop_first().len());
        assert(0x80 * v <= 0x80 * (w - 1)) by (nonlinear_arith)
            requires
                v <= w - 1,
        ;
    }
}

/// The weights of the first six groups, written out.
proof fn lemma_pow128_values()
    ensures
        pow128(0) == 1,
        pow128(1) == 0x80,
        pow128(2) == 0x4000,
        pow128(3) == 0x20_0000,
        pow128(4) == 0x1000_0000,
        pow128(5) == 0x8_0000_0000,
{
    assert(pow128(0) == 1);
    assert(pow128(1) == 128 * pow128(0));
    assert(pow128(2) == 128 * pow128(1));
    assert(pow128(3) == 128 * pow128(2));
    assert(pow128(4) == 128 * pow128(3));
    assert(pow128(5) == 128 * pow128(4));
}

/// The encoding is well formed: one to five bytes, every byte but the
/// last with its continuation bit set, the last without, and the groups
/// carrying exactly `v`.
pub proof fn lemma_encode_wf(v: u32)
    ensures
        1 <= varint_encode_spec(v).len() <= 5,
        forall|j: int|
            0 <= j < varint_encode_spec(v).len() - 1 ==> varint_encode_spec(v)[j] >= 0x80,
        varint_encode_spec(v)[varint_encode_spec(v).len() - 1] < 0x80,
        varint_groups_value(varint_encode_spec(v)) == v,
    decreases v,
{
    let e = varint_encode_spec(v);
    if v < 0x80 {
        assert(e =~= seq![v as u8]);
        assert(e.drop_first() =~= Seq::<u8>::empty());
        assert(varint_groups_value(e.drop_first()) == 0);
        assert(varint_groups_value(e) == (e[0] % 0x80) as nat + 0x80 * 0);
    } else {
        let b = (0x80 + v % 0x80) as u8;
        let rest = varint_encode_spec(v / 0x80);
        assert(v / 0x80 < v) by (nonlinear_arith)
            requires
                v >= 0x80,
        ;
        lemma_encode_wf(v / 0x80);
        assert(e =~= seq![b] + rest);
        assert(e.drop_first() =~= rest);
        assert(varint_groups_value(e) == (b % 0x80) + 0x80 * varint_groups_value(rest));
        assert(b % 0x80 == v % 0x80);
        assert(v % 0x80 + 0x80 * (v / 0x80) == v) by {
            vstd::arithmetic::div_mod::lemma_fundamental_div_mod(v as int, 0x80);
        }
        // Length: dividing by 128 four times exhausts any 32-bit value.
        if rest.len() == 5 {
            lemma_encode_len_lower(v / 0x80);
            lemma_pow128_values();
            assert(v / 0x80 >= pow128(4));
            assert(v < 0x1_0000_0000);
            assert(v / 0x80 < 0x200_0000) by (nonlinear_arith)
                requires
                    v < 0x1_0000_0000,
            ;
        }
        assert(forall|j: int| 1 <= j < e.len() - 1 ==> e[j] == rest[j - 1]);
    }
}

/// An encoding of two or more bytes only arises from a value of at least
/// `128^(len-1)`.
proof fn lemma_encode_len_lower(v: u32)
    ensures
        varint_encode_spec(v).len() >= 2 ==> v >= pow128(
            (varint_encode_spec(v).len() - 1) as nat,
        ),
    decreases v,
{
    if v >= 0x80 {
        assert(v / 0x80 < v) by (nonlinear_arith)
            requires
                v >= 0x80,
        ;
        lemma_encode_len_lower(v / 0x80);
        let rest = varint_encode_spec(v / 0x80);
        assert(varint_encode_spec(v).len() - 1 == rest.len());
        if rest.len() >= 2 {
            let k = (rest.len() - 1) as nat;
            assert(v / 0x80 >= pow128(k));
            assert(v >= 0x80 * (v / 0x80)) by {
                vstd::arithmetic::div_mod::lemma_fundamental_div_mod(v as int, 0x80);
            }
            assert(0x80 * (v / 0x80) >= 0x80 * pow128(k)) by (nonlinear_arith)
                requires
                    v / 0x80 >= pow128(k),
            ;
            assert(pow128(rest.len() as nat) == 0x80 * pow128(k));
        } else {
            // A two-byte encoding: the value is at least 128 == pow128(1).
            assert(pow128(1) == 0x80 * pow128(0));
            assert(pow128(0) == 1);
        }
    }
}

/// Round trip: decoding the encoding of any 32-bit value returns that
/// value and consumes exactly the encoding.
pub proof fn lemma_varint_round_trip(v: u32)
    ensures
        varint_decode_spec(varint_encode_spec(v)) == Result::<(u32, int), VarintError>::Ok(
            (v, varint_encode_spec(v).len() as int),
        ),
{
    let e = varint_encode_spec(v);
    lemma_encode_wf(v);
    lemma_first_terminator_at(e, e.len() - 1);
    assert(first_terminator(e) == e.len() - 1);
    assert(e.take(e.len() as int) =~= e);
    vstd::arithmetic::div_mod::lemma_small_mod(v as nat, 0x1_0000_0000);
}

/// Encode a non-negative value as a protocol varint.
///
/// A negative argument is excluded: under an arithmetic shift its sign
/// bits never run out, so no terminating byte would ever be reached.
pub fn encode_varint(value: i32) -> (out: Vec<u8>)
    requires
        value >= 0,
    ensures
        out@ == varint_encode_spec(value as u32),
{
    let ghost v0: u32 = value as u32;
    let mut x: u32 = value as u32;
    let mut out: Vec<u8> = Vec::new();
    while x >= 0x80
        invariant
            varint_encode_spec(v0) == out@ + varint_encode_spec(x),
        decreases x,
    {
        let b: u8 = (0x80 + x % 0x80) as u8;
        proof {
            assert(varint_encode_spec(x) == seq![b] + varint_encode_spec(x / 0x80));
            assert(out@ + (seq![b] + varint_encode_spec(x / 0x80)) =~= (out@ + seq![b])
                + varint_encode_spec(x / 0x80));
            assert(x / 0x80 < x) by (nonlinear_arith)
                requires
                    x >= 0x80,
            ;
        }
        out.push(b);
        x = x / 0x80;
    }
    proof {
        assert(varint_encode_spec(x) == seq![x as u8]);
        assert(out@ + seq![x as u8] =~= out@.push(x as u8));
    }
    out.push(x as u8);
    out
}

/// Exact weight of the `i`-th group, for the groups a 32-bit varint can have.
fn pow128_exec(i: usize) -> (r: u64)
    requires
        i <= 4,
    ensures
        r == pow128(i as nat),
{
    proof {
        lemma_pow128_values();
    }
    if i == 0 {
        1
    } else if i == 1 {
        128
    } else if i == 2 {
        16384
    } else if i == 3 {
        2097152
    } else {
        268435456
    }
}

/// Decode the varint at the front of `bytes`, returning its value and the
/// count of bytes consumed.
pub fn decode_varint(bytes: &[u8]) -> (r: Result<(u32, usize), VarintError>)
    ensures
        match r {
            Ok((v, used)) => varint_decode_spec(bytes@) == Result::<(u32, int), VarintError>::Ok(
                (v, used as int),
            ),
            Err(e) => varint_decode_spec(bytes@) == Result::<(u32, int), VarintError>::Err(e),
        },
{
    let mut acc: u64 = 0;
    let mut i: usize = 0;
    loop
        invariant
            i <= 5,
            i <= bytes@.len(),
            forall|j: int| 0 <= j < i ==> bytes@[j] >= 0x80,
            acc == varint_groups_value(bytes@.take(i as int)),
        decreases 5 - i,
    {
        proof {
            lemma_first_terminator_at(bytes@, i as int);
        }
        if i == 5 {
            return Err(VarintError::TooLong);
        }
        if i >= bytes.len() {
            proof {
                lemma_first_terminator_bounds(bytes@);
            }
            return Err(VarintError::Incomplete);
        }
        let b = bytes[i];
        proof {
            lemma_groups_value_bound(bytes@.take(i as int));
            lemma_pow128_values();
            lemma_groups_value_push(bytes@.take(i as int), b);
            assert(bytes@.take(i as int).push(b) =~= bytes@.take(i + 1));
            assert(bytes@.take(i as int).len() == i as int);
            assert(i == 0 || i == 1 || i == 2 || i == 3 || i == 4);
            assert(pow128(i as nat) <= 0x1000_0000);
            assert(acc < 0x1000_0000);
            assert(((b % 0x80) as u64) * pow128(i as nat) <= 127 * 0x1000_0000)
                by (nonlinear_arith)
                requires
                    (b % 0x80) as u64 <= 127,
                    pow128(i as nat) <= 0x1000_0000,
            ;
        }
        acc = acc + ((b % 0x80) as u64) * pow128_exec(i);
        i = i + 1;
        if b < 0x80 {
            proof {
                lemma_first_terminator_at(bytes@, i - 1);
                assert(first_terminator(bytes@) == i - 1);
            }
            return Ok(((acc % 0x1_0000_0000) as u32, i));
        }
    }
}

/// Outcome of feeding one byte to a [`VarintDecoder`].
pub enum VarintStep {
    /// The byte terminated the varint; this is its value.
    Done(u32),
    /// The byte had its continuation bit set; feed the next one.
    NeedMore,
    /// Five continuation bytes have already been fed: the stream is corrupt.
    TooLong,
}

/// Incremental varint decoder for reading from a stream one byte at a time.
pub struct VarintDecoder {
    acc: u64,
    count: u8,
    fed: Ghost<Seq<u8>>,
}

impl VarintDecoder {
    /// The continuation bytes fed so far.
    pub closed spec fn fed(self) -> Seq<u8> {
        self.fed@
    }

    pub closed spec fn wf(self) -> bool {
        &&& self.count == self.fed@.len()
        &&& self.fed@.len() <= 5
        &&& (forall|j: int| 0 <= j < self.fed@.len() ==> self.fed@[j] >= 0x80)
        &&& self.acc == varint_groups_value(self.fed@)
    }

    pub fn new() -> (r: Self)
        ensures
            r.wf(),
            r.fed() == Seq::<u8>::empty(),
    {
        proof {
            assert(varint_groups_value(Seq::<u8>::empty()) == 0);
        }
        VarintDecoder { acc: 0, count: 0, fed: Ghost(Seq::empty()) }
    }

    /// Feed the next stream byte.  On `Done` the returned value is what
    /// decoding the bytes fed so far plus this terminator yields.
    pub fn feed(&mut self, byte: u8) -> (r: VarintStep)
        requires
            old(self).wf(),
        ensures
            final(self).wf(),
            match r {
                VarintStep::Done(v) => {
                    &&& old(self).fed().len() < 5
                    &&& byte < 0x80
                    &&& varint_decode_spec(old(self).fed().push(byte)) == Result::<
                        (u32, int),
                        VarintError,
                    >::Ok((v, old(self).fed().len() as int + 1))
                    &&& *final(self) == *old(self)
                },
                VarintStep::NeedMore => {
                    &&& old(self).fed().len() < 5
                    &&& byte >= 0x80
                    &&& final(self).fed() == old(self).fed().push(byte)
                },
                VarintStep::TooLong => {
                    &&& old(self).fed().len() == 5
                    &&& varint_decode_spec(old(self).fed()) == Result::<
                        (u32, int),
                        VarintError,
                    >::Err(VarintError::TooLong)
                    &&& *final(self) == *old(self)
                },
            },
    {
        if self.count == 5 {
            proof {
                lemma_first_terminator_at(self.fed@, 5);
                lemma_first_terminator_bounds(self.fed@);
            }
            return VarintStep::TooLong;
        }
        let ghost s0 = self.fed@;
        proof {
            lemma_groups_value_bound(s0);
            lemma_pow128_values();
            lemma_groups_value_push(s0, byte);
            assert(self.count == 0 || self.count == 1 || self.count == 2 || self.count == 3
                || self.count == 4);
            assert(pow128(self.count as nat) <= 0x1000_0000);
            assert(((byte % 0x80) as u64) * pow128(self.count as nat) <= 127 * 0x1000_0000)
                by (nonlinear_arith)
                requires
                    (byte % 0x80) as u64 <= 127,
                    pow128(self.count as nat) <= 0x1000_0000,
            ;
        }
        if byte < 0x80 {
            let v64 = self.acc + ((byte % 0x80) as u64) * pow128_exec(self.count as usize);
            proof {
                let t = s0.push(byte);
                lemma_first_terminator_at(t, s0.len() as int);
                assert(t[s0.len() as int] == byte);
                assert(first_terminator(t) == s0.len());
                assert(t.take(s0.len() as int + 1) =~= t);
            }
            VarintStep::Done((v64 % 0x1_0000_0000) as u32)
        } else {
            self.acc = self.acc + ((byte % 0x80) as u64) * pow128_exec(self.count as usize);
            self.count = self.count + 1;
            proof {
                self.fed@ = s0.push(byte);
            }
            VarintStep::NeedMore
        }
    }
}

} // verus!
