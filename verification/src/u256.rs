use vstd::arithmetic::div_mod::{
    lemma_basic_div, lemma_div_by_multiple, lemma_div_denominator, lemma_fundamental_div_mod,
    lemma_fundamental_div_mod_converse, lemma_mod_breakdown, lemma_mod_division_less_than_divisor,
    lemma_mod_mod, lemma_multiply_divide_lt, lemma_small_mod, lemma_truncate_middle,
};
use vstd::arithmetic::mul::{lemma_mul_inequality, lemma_mul_is_commutative, lemma_mul_upper_bound};
use vstd::arithmetic::power2::{
    lemma2_to64, lemma2_to64_rest, lemma_pow2_adds, lemma_pow2_pos, lemma_pow2_strictly_increases,
    pow2,
};
use vstd::prelude::*;
use vstd::string::StringSliceAdditionalSpecFns;

verus! {

/// One more than the largest `u128`: the weight of the high half of a [`U256`].
pub open spec fn radix128() -> nat {
    0x1_0000_0000_0000_0000_0000_0000_0000_0000nat
}

/// 2^64, the weight of the upper 64-bit limb of a `u128`.
pub const TWO64: u128 = 0x1_0000_0000_0000_0000;

/// 2^127, the weight of the top bit of a `u128`.
pub const TWO127: u128 = 0x8000_0000_0000_0000_0000_0000_0000_0000;

/// An unsigned 256-bit integer held as two 128-bit halves.
///
/// The scaled-decimal "big" operations widen their intermediate results to
/// this type so that a multiply-then-divide chain never overflows the native
/// 128-bit width.
#[derive(Clone, Copy, Debug, PartialEq, Eq, Structural)]
pub struct U256 {
    pub hi: u128,
    pub lo: u128,
}

impl U256 {
    /// The mathematical value of this 256-bit integer.
    pub open spec fn as_nat(self) -> nat {
        (self.hi as nat) * radix128() + (self.lo as nat)
    }

    /// Widens a 128-bit value.
    pub fn from_u128(v: u128) -> (r: U256)
        ensures
            r.as_nat() == v as nat,
    {
        U256 { hi: 0, lo: v }
    }

    /// The value, narrowed back to 128 bits; defined only when it fits.
    pub fn to_u128(self) -> (r: u128)
        requires
            self.as_nat() < radix128(),
        ensures
            r as nat == self.as_nat(),
    {
        proof {
            if self.hi >= 1 {
                lemma_mul_inequality(1, self.hi as int, radix128() as int);
            }
        }
        self.lo
    }
}

/// Whether `b` is the code of an ASCII decimal digit.
pub open spec fn is_dec_digit(b: u8) -> bool {
    48 <= b <= 57
}

/// The value of a string of ASCII decimal digits, most significant first.
pub open spec fn dec_val(s: Seq<u8>) -> nat
    decreases s.len(),
{
    if s.len() == 0 {
        0
    } else {
        dec_val(s.drop_last()) * 10 + ((s.last() - 48) as nat)
    }
}

/// Whether every byte of `s` is an ASCII decimal digit.
pub open spec fn all_dec_digits(s: Seq<u8>) -> bool {
    forall|j: int| 0 <= j < s.len() ==> is_dec_digit(#[trigger] s[j])
}

/// A digit string is worth at least as much as any of its prefixes.
proof fn lemma_dec_val_prefix_le(s: Seq<u8>, k: int)
    requires
        0 <= k <= s.len(),
    ensures
        dec_val(s.subrange(0, k)) <= dec_val(s),
    decreases s.len(),
{
    if k == s.len() {
        assert(s.subrange(0, k) =~= s);
    } else {
        lemma_dec_val_prefix_le(s.drop_last(), k);
        assert(s.drop_last().subrange(0, k) =~= s.subrange(0, k));
    }
}

/// `pow2(127)` and `pow2(128)` as the literal constants the executable code
/// uses.
proof fn lemma_pow2_constants()
    ensures
        pow2(64) == TWO64,
        pow2(127) == TWO127,
        pow2(128) == radix128(),
{
    lemma2_to64();
    lemma2_to64_rest();
    lemma_pow2_adds(64, 63);
    lemma_pow2_adds(64, 64);
}

/// The full 256-bit product of two 128-bit values.
pub fn mul_u128(a: u128, b: u128) -> (r: U256)
    ensures
        r.as_nat() == (a as nat) * (b as nat),
{
    let a1: u128 = a / TWO64;
    let a0: u128 = a % TWO64;
    let b1: u128 = b / TWO64;
    let b0: u128 = b % TWO64;
    proof {
        lemma_mul_upper_bound(a0 as int, TWO64 - 1, b0 as int, TWO64 - 1);
        lemma_mul_upper_bound(a0 as int, TWO64 - 1, b1 as int, TWO64 - 1);
        lemma_mul_upper_bound(a1 as int, TWO64 - 1, b0 as int, TWO64 - 1);
        lemma_mul_upper_bound(a1 as int, TWO64 - 1, b1 as int, TWO64 - 1);
    }
    let ll: u128 = a0 * b0;
    let lh: u128 = a0 * b1;
    let hl: u128 = a1 * b0;
    let hh: u128 = a1 * b1;
    let t: u128 = ll / TWO64 + lh % TWO64 + hl % TWO64;
    let lo: u128 = ll % TWO64 + (t % TWO64) * TWO64;
    let hi: u128 = hh + lh / TWO64 + hl / TWO64 + t / TWO64;
    proof {
        assert((a as nat) * (b as nat) == (hh as nat) * radix128() + (lh as nat) * (TWO64 as nat)
            + (hl as nat) * (TWO64 as nat) + (ll as nat)) by (nonlinear_arith)
            requires
                a == a1 * TWO64 + a0,
                b == b1 * TWO64 + b0,
                ll == a0 * b0,
                lh == a0 * b1,
                hl == a1 * b0,
                hh == a1 * b1,
                radix128() == (TWO64 as nat) * (TWO64 as nat),
        ;
        assert((ll as nat) == ((ll / TWO64) as nat) * (TWO64 as nat) + ((ll % TWO64) as nat));
        assert((lh as nat) * (TWO64 as nat) == ((lh / TWO64) as nat) * radix128() + ((lh
            % TWO64) as nat) * (TWO64 as nat)) by {
            assert((lh as nat) == ((lh / TWO64) as nat) * (TWO64 as nat) + ((lh % TWO64) as nat));
        };
        assert((hl as nat) * (TWO64 as nat) == ((hl / TWO64) as nat) * radix128() + ((hl
            % TWO64) as nat) * (TWO64 as nat)) by {
            assert((hl as nat) == ((hl / TWO64) as nat) * (TWO64 as nat) + ((hl % TWO64) as nat));
        };
        assert((t as nat) * (TWO64 as nat) == ((t / TWO64) as nat) * radix128() + ((t
            % TWO64) as nat) * (TWO64 as nat)) by {
            assert((t as nat) == ((t / TWO64) as nat) * (TWO64 as nat) + ((t % TWO64) as nat));
        };
        assert((hi as nat) * radix128() + (lo as nat) == (a as nat) * (b as nat))
            by (nonlinear_arith)
            requires
                (a as nat) * (b as nat) == (hh as nat) * radix128() + (lh as nat) * (TWO64 as nat)
                    + (hl as nat) * (TWO64 as nat) + (ll as nat),
                (lh as nat) * (TWO64 as nat) == ((lh / TWO64) as nat) * radix128() + ((lh
                    % TWO64) as nat) * (TWO64 as nat),
                (hl as nat) * (TWO64 as nat) == ((hl / TWO64) as nat) * radix128() + ((hl
                    % TWO64) as nat) * (TWO64 as nat),
                (t as nat) * (TWO64 as nat) == ((t / TWO64) as nat) * radix128() + ((t
                    % TWO64) as nat) * (TWO64 as nat),
                (ll as nat) == ((ll / TWO64) as nat) * (TWO64 as nat) + ((ll % TWO64) as nat),
                t == ll / TWO64 + lh % TWO64 + hl % TWO64,
                lo == ll % TWO64 + (t % TWO64) * TWO64,
                hi == hh + lh / TWO64 + hl / TWO64 + t / TWO64,
        ;
    }
    U256 { hi, lo }
}

/// Step from the quotient by `pow2(e)` to the quotient by `pow2(e - 1)`:
/// one more bit of `n` enters at the bottom.
proof fn lemma_prefix_step(n: nat, e: nat)
    requires
        e >= 1,
    ensures
        n / pow2((e - 1) as nat) == 2 * (n / pow2(e)) + ((n / pow2((e - 1) as nat)) % 2),
{
    let ep = (e - 1) as nat;
    lemma_pow2_adds(ep, 1);
    lemma2_to64();
    lemma_pow2_pos(ep);
    lemma_div_denominator(n as int, pow2(ep) as int, 2);
    lemma_fundamental_div_mod((n / pow2(ep)) as int, 2);
}

/// The top bit of `n % pow2(e)` is bit `e - 1` of `n`.
proof fn lemma_bit_of_mod(n: nat, e: nat)
    requires
        e >= 1,
    ensures
        (n % pow2(e)) / pow2((e - 1) as nat) == (n / pow2((e - 1) as nat)) % 2,
{
    let ep = (e - 1) as nat;
    lemma_pow2_adds(ep, 1);
    lemma2_to64();
    lemma_pow2_pos(ep);
    lemma_mod_breakdown(n as int, pow2(ep) as int, 2);
    lemma_mod_division_less_than_divisor(n as int, pow2(ep) as int);
    lemma_fundamental_div_mod_converse(
        (n % pow2(e)) as int,
        pow2(ep) as int,
        ((n / pow2(ep)) % 2) as int,
        (n % pow2(ep)) as int,
    );
}

/// Dividing or reducing a value already shifted left by `pow2(i)`.
proof fn lemma_shifted_div_mod(y: nat, i: nat, t: nat)
    requires
        i <= t,
    ensures
        (y * pow2(i)) / pow2(t) == y / pow2((t - i) as nat),
        (y * pow2(i)) % pow2(t) == (y % pow2((t - i) as nat)) * pow2(i),
{
    let w = (t - i) as nat;
    lemma_pow2_adds(i, w);
    lemma_pow2_pos(i);
    lemma_pow2_pos(w);
    lemma_div_denominator((y * pow2(i)) as int, pow2(i) as int, pow2(w) as int);
    lemma_mul_is_commutative(y as int, pow2(i) as int);
    lemma_div_by_multiple(y as int, pow2(i) as int);
    assert((y * pow2(i)) / pow2(i) == y);
    assert((y * pow2(i)) / (pow2(i) * pow2(w)) == y / pow2(w));
    lemma_truncate_middle(y as int, pow2(i) as int, pow2(w) as int);
    assert((pow2(i) * y) % (pow2(i) * pow2(w)) == pow2(i) * (y % pow2(w)));
    lemma_mul_is_commutative(pow2(i) as int, (y % pow2(w)) as int);
}

/// Quotient and remainder of a 256-bit value by a 128-bit divisor, by binary
/// long division: each round shifts one bit of the dividend into the
/// remainder and subtracts the divisor when it fits.
#[verifier::loop_isolation(false)]
pub fn div_rem_u128(n: U256, d: u128) -> (res: (U256, u128))
    requires
        d > 0,
    ensures
        res.0.as_nat() == n.as_nat() / (d as nat),
        res.1 as nat == n.as_nat() % (d as nat),
        res.0.as_nat() * (d as nat) + (res.1 as nat) == n.as_nat(),
{
    let ghost nv = n.as_nat();
    proof {
        lemma_pow2_constants();
        lemma_pow2_adds(127, 128);
        lemma_pow2_adds(128, 128);
        assert(nv < pow2(256));
        lemma_basic_div(nv as int, pow2(256) as int);
        lemma_small_mod(nv, pow2(256));
        lemma2_to64();
        assert(nv / pow2(256) == 0);
        assert(((0 as nat) * radix128() + (0 as nat)) * (d as nat) + (0 as nat) == 0)
            by (nonlinear_arith);
        assert((nv % pow2(256)) * pow2(0) == nv);
    }
    let mut q_hi: u128 = 0;
    let mut q_lo: u128 = 0;
    let mut r: u128 = 0;
    let mut s_hi: u128 = n.hi;
    let mut s_lo: u128 = n.lo;
    let mut i: usize = 0;
    while i < 256
        invariant
            i <= 256,
            r < d,
            ((q_hi as nat) * radix128() + (q_lo as nat)) * (d as nat) + (r as nat) == nv / pow2(
                (256 - i) as nat,
            ),
            (s_hi as nat) * radix128() + (s_lo as nat) == (nv % pow2((256 - i) as nat)) * pow2(
                i as nat,
            ),
        decreases 256 - i,
    {
        let ghost m = (256 - i) as nat;
        let ghost y = nv % pow2(m);
        let ghost prefix = nv / pow2(m);
        let ghost qv = (q_hi as nat) * radix128() + (q_lo as nat);
        let ghost s_val = (s_hi as nat) * radix128() + (s_lo as nat);
        proof {
            lemma_pow2_pos(m);
            lemma_pow2_pos((m - 1) as nat);
            lemma_pow2_pos(i as nat);
            // the processed prefix is below pow2(i), so the quotient fits
            lemma_pow2_adds(m, i as nat);
            lemma_multiply_divide_lt(nv as int, pow2(m) as int, pow2(i as nat) as int);
            assert(qv <= qv * (d as nat)) by (nonlinear_arith)
                requires
                    d >= 1,
            ;
            if i < 255 {
                lemma_pow2_strictly_increases(i as nat, 255);
            }
            assert(qv < pow2(255));
            assert(q_hi < TWO127);
        }
        // take the top bit of the shift register
        let bit: u128 = s_hi / TWO127;
        let ghost bitn = (nv / pow2((m - 1) as nat)) % 2;
        proof {
            let rest = (s_hi % TWO127) as nat * radix128() + (s_lo as nat);
            assert(pow2(255) == (TWO127 as nat) * radix128());
            assert(s_hi as nat == (bit as nat) * (TWO127 as nat) + ((s_hi % TWO127) as nat));
            assert((s_hi as nat) * radix128() == (bit as nat) * ((TWO127 as nat) * radix128()) + ((
            s_hi % TWO127) as nat) * radix128()) by (nonlinear_arith)
                requires
                    s_hi as nat == (bit as nat) * (TWO127 as nat) + ((s_hi % TWO127) as nat),
            ;
            assert(s_val == (bit as nat) * pow2(255) + rest);
            assert(rest < pow2(255));
            lemma_fundamental_div_mod_converse(
                s_val as int,
                pow2(255) as int,
                bit as int,
                rest as int,
            );
            // relate the register's top bit to bit m - 1 of n
            lemma_shifted_div_mod(y, i as nat, 255);
            assert(s_val / pow2(255) == y / pow2((m - 1) as nat));
            lemma_bit_of_mod(nv, m);
            assert(bit as nat == bitn);
            // after the shift the register holds the still-unprocessed bits
            lemma_pow2_adds((m - 1) as nat, 1);
            lemma_mod_mod(nv as int, pow2((m - 1) as nat) as int, 2);
            assert(y % pow2((m - 1) as nat) == nv % pow2((m - 1) as nat));
            assert(s_val % pow2(255) == (nv % pow2((m - 1) as nat)) * pow2(i as nat));
        }
        // shift the register left by one
        let s_hi2: u128 = (s_hi % TWO127) * 2 + s_lo / TWO127;
        let s_lo2: u128 = (s_lo % TWO127) * 2;
        proof {
            assert((s_hi2 as nat) * radix128() + (s_lo2 as nat) == 2 * (s_val % pow2(255)));
            lemma_pow2_adds(i as nat, 1);
            let w = nv % pow2((m - 1) as nat);
            assert(2 * (w * pow2(i as nat)) == w * (pow2(i as nat) * 2)) by (nonlinear_arith);
            assert((s_hi2 as nat) * radix128() + (s_lo2 as nat) == w * pow2((i + 1) as nat));
        }
        s_hi = s_hi2;
        s_lo = s_lo2;
        // fold the bit into the remainder; subtract the divisor if it fits
        let ghost r_old = r;
        let ghost value = 2 * (r as nat) + (bit as nat);
        let r_top: u128 = r / TWO127;
        let shifted: u128 = (r % TWO127) * 2 + bit;
        proof {
            assert(value == (r_top as nat) * radix128() + (shifted as nat));
            assert(value < 2 * (d as nat));
        }
        let qbit: u128;
        if r_top == 1 {
            // the shifted remainder overflows 128 bits, so it surely exceeds d
            proof {
                assert(shifted < d);
            }
            r = shifted + (u128::MAX - d + 1);
            qbit = 1;
        } else if shifted >= d {
            r = shifted - d;
            qbit = 1;
        } else {
            r = shifted;
            qbit = 0;
        }
        proof {
            assert((qbit as nat) * (d as nat) == if qbit == 1 {
                d as nat
            } else {
                0nat
            });
            assert(r as nat + (qbit as nat) * (d as nat) == value);
            assert(r < d);
        }
        // append the bit to the quotient
        let q_hi2: u128 = (q_hi % TWO127) * 2 + q_lo / TWO127;
        let q_lo2: u128 = (q_lo % TWO127) * 2 + qbit;
        proof {
            assert(q_hi % TWO127 == q_hi);
            let qv2 = (q_hi2 as nat) * radix128() + (q_lo2 as nat);
            assert(qv2 == 2 * qv + (qbit as nat));
            assert(qv2 * (d as nat) == 2 * (qv * (d as nat)) + (qbit as nat) * (d as nat))
                by (nonlinear_arith)
                requires
                    qv2 == 2 * qv + (qbit as nat),
            ;
            lemma_prefix_step(nv, m);
            assert(qv2 * (d as nat) + (r as nat) == nv / pow2((m - 1) as nat));
        }
        q_hi = q_hi2;
        q_lo = q_lo2;
        i = i + 1;
    }
    proof {
        lemma2_to64();
        assert(pow2(0) == 1);
        vstd::arithmetic::div_mod::lemma_div_basics(nv as int);
        let qv = (q_hi as nat) * radix128() + (q_lo as nat);
        assert(qv * (d as nat) + (r as nat) == nv / pow2(0));
        assert(qv * (d as nat) + (r as nat) == nv);
        lemma_fundamental_div_mod_converse(nv as int, d as int, qv as int, r as int);
    }
    (U256 { hi: q_hi, lo: q_lo }, r)
}

/// `pow2(n)` as an executable 128-bit value.
pub fn pow2_u128(n: u32) -> (r: u128)
    requires
        n < 128,
    ensures
        r as nat == pow2(n as nat),
{
    let mut r: u128 = 1;
    let mut j: u32 = 0;
    proof {
        lemma2_to64();
    }
    while j < n
        invariant
            j <= n < 128,
            r as nat == pow2(j as nat),
        decreases n - j,
    {
        proof {
            lemma_pow2_adds(j as nat, 1);
            lemma2_to64();
            if j + 1 < 128 {
                lemma_pow2_strictly_increases((j + 1) as nat, 128);
            }
            lemma_pow2_constants();
        }
        r = r * 2;
        j = j + 1;
    }
    r
}

impl U256 {
    /// The value shifted right by `n` bits, `0 < n < 128`.
    pub fn shr_small(self, n: u32) -> (r: U256)
        requires
            0 < n < 128,
        ensures
            r.as_nat() == self.as_nat() / pow2(n as nat),
    {
        let p: u128 = pow2_u128(n);
        let c: u128 = pow2_u128(128 - n);
        proof {
            lemma_pow2_constants();
            lemma_pow2_adds(n as nat, (128 - n) as nat);
            assert((p as nat) * (c as nat) == radix128());
            lemma_pow2_pos(n as nat);
            assert(((self.lo / p) as nat) < (c as nat)) by {
                lemma_multiply_divide_lt(self.lo as int, p as int, c as int);
            };
            assert(((self.hi % p) as nat) * (c as nat) + ((self.lo / p) as nat) < radix128())
                by (nonlinear_arith)
                requires
                    (p as nat) * (c as nat) == radix128(),
                    self.hi % p < p,
                    p >= 1,
                    c >= 1,
                    ((self.lo / p) as nat) < (c as nat),
            ;
        }
        let lo: u128 = self.lo / p + (self.hi % p) * c;
        let hi: u128 = self.hi / p;
        proof {
            lemma_fundamental_div_mod(self.hi as int, p as int);
            lemma_fundamental_div_mod(self.lo as int, p as int);
            let q = (hi as nat) * radix128() + ((self.hi % p) as nat) * (c as nat) + ((self.lo
                / p) as nat);
            assert(self.as_nat() == q * (p as nat) + ((self.lo % p) as nat)) by (nonlinear_arith)
                requires
                    self.hi as nat == (hi as nat) * (p as nat) + ((self.hi % p) as nat),
                    self.lo as nat == ((self.lo / p) as nat) * (p as nat) + ((self.lo % p) as nat),
                    radix128() == (p as nat) * (c as nat),
                    q == (hi as nat) * radix128() + ((self.hi % p) as nat) * (c as nat) + ((self.lo
                        / p) as nat),
                    self.as_nat() == (self.hi as nat) * radix128() + (self.lo as nat),
            ;
            lemma_fundamental_div_mod_converse(
                self.as_nat() as int,
                p as int,
                q as int,
                (self.lo % p) as int,
            );
        }
        U256 { hi, lo }
    }

    /// `10 * self + d`, reporting `None` when the result needs more than 256
    /// bits.
    fn mul10_add(self, d: u8) -> (r: Option<U256>)
        requires
            d < 10,
        ensures
            match r {
                Some(v) => v.as_nat() == 10 * self.as_nat() + d,
                None => 10 * self.as_nat() + d >= pow2(256),
            },
    {
        let l0: u128 = self.lo % TWO64;
        let l1: u128 = self.lo / TWO64;
        let h0: u128 = self.hi % TWO64;
        let h1: u128 = self.hi / TWO64;
        let t0: u128 = l0 * 10 + d as u128;
        let t1: u128 = l1 * 10 + t0 / TWO64;
        let t2: u128 = h0 * 10 + t1 / TWO64;
        let t3: u128 = h1 * 10 + t2 / TWO64;
        proof {
            lemma_pow2_constants();
            lemma_pow2_adds(128, 128);
            let t3n: nat = 0x1_0000_0000_0000_0000_0000_0000_0000_0000_0000_0000_0000_0000nat;
            let t4n: nat = radix128() * radix128();
            assert(pow2(256) == t4n);
            assert(t3n * (TWO64 as nat) == t4n);
            assert(10 * self.as_nat() + d == ((t3 / TWO64) as nat) * t4n + ((t3 % TWO64) as nat)
                * t3n + ((t2 % TWO64) as nat) * radix128() + ((t1 % TWO64) as nat) * (TWO64 as nat)
                + ((t0 % TWO64) as nat));
        }
        if t3 / TWO64 != 0 {
            None
        } else {
            let lo: u128 = t0 % TWO64 + (t1 % TWO64) * TWO64;
            let hi: u128 = t2 % TWO64 + (t3 % TWO64) * TWO64;
            Some(U256 { hi, lo })
        }
    }

    /// Parses a string of ASCII decimal digits. `None` when a byte is not a
    /// digit or the value needs more than 256 bits; the empty string parses
    /// to zero.
    pub fn from_dec_str(s: &str) -> (r: Option<U256>)
        ensures
            match r {
                Some(v) => all_dec_digits(s.spec_bytes()) && v.as_nat() == dec_val(s.spec_bytes()),
                None => !(all_dec_digits(s.spec_bytes()) && dec_val(s.spec_bytes()) < pow2(256)),
            },
    {
        let bytes: Vec<u8> = s.as_bytes_vec();
        let mut acc = U256 { hi: 0, lo: 0 };
        let mut i: usize = 0;
        proof {
            assert(bytes@.subrange(0, 0) =~= Seq::<u8>::empty());
        }
        while i < bytes.len()
            invariant
                i <= bytes@.len(),
                bytes@ == s.spec_bytes(),
                forall|j: int| 0 <= j < i ==> is_dec_digit(#[trigger] bytes@[j]),
                acc.as_nat() == dec_val(bytes@.subrange(0, i as int)),
            decreases bytes@.len() - i,
        {
            let b: u8 = bytes[i];
            if b < 48 || b > 57 {
                return None;
            }
            let next = acc.mul10_add(b - 48);
            proof {
                assert(bytes@.subrange(0, i + 1).drop_last() =~= bytes@.subrange(0, i as int));
                assert(bytes@.subrange(0, i + 1).last() == b);
                lemma_dec_val_prefix_le(bytes@, i + 1);
            }
            match next {
                Some(a2) => {
                    acc = a2;
                },
                None => {
                    proof {
                        lemma_pow2_adds(128, 128);
                        lemma_pow2_constants();
                    }
                    return None;
                },
            }
            i = i + 1;
        }
        proof {
            assert(bytes@.subrange(0, bytes@.len() as int) =~= bytes@);
        }
        Some(acc)
    }
}

} // verus!
