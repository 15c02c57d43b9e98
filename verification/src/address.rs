use vstd::prelude::*;
use vstd::string::StrSliceExecFns;
use vstd::string::StringExecFns;

verus! {

/// The lower-case hexadecimal digit of a value below sixteen.
pub open spec fn hex_char(d: nat) -> char {
    if d == 0 {
        '0'
    } else if d == 1 {
        '1'
    } else if d == 2 {
        '2'
    } else if d == 3 {
        '3'
    } else if d == 4 {
        '4'
    } else if d == 5 {
        '5'
    } else if d == 6 {
        '6'
    } else if d == 7 {
        '7'
    } else if d == 8 {
        '8'
    } else if d == 9 {
        '9'
    } else if d == 10 {
        'a'
    } else if d == 11 {
        'b'
    } else if d == 12 {
        'c'
    } else if d == 13 {
        'd'
    } else if d == 14 {
        'e'
    } else {
        'f'
    }
}

/// The lower-case hexadecimal rendering of a byte string, two digits per
/// byte, most significant first.
pub open spec fn hex_chars_of(s: Seq<u8>) -> Seq<char>
    decreases s.len(),
{
    if s.len() == 0 {
        Seq::empty()
    } else {
        hex_chars_of(s.drop_last()) + seq![
            hex_char((s.last() / 16) as nat),
            hex_char((s.last() % 16) as nat),
        ]
    }
}

/// A one-character string holding the hexadecimal digit of `d`.
fn hex_digit_str(d: u8) -> (r: &'static str)
    requires
        d < 16,
    ensures
        r@ == seq![hex_char(d as nat)],
{
    let table: &'static str = "0123456789abcdef";
    proof {
        reveal_strlit("0123456789abcdef");
    }
    let r = table.substring_char(d as usize, d as usize + 1);
    proof {
        assert(r@ =~= seq![hex_char(d as nat)]);
    }
    r
}

/// A 32-byte account identifier: the key under which the surrounding ledger
/// stores pools, positions and oracles. The core only carries it and renders
/// it; it never derives or checks one.
#[derive(Clone, Copy, Debug, Default, PartialEq, Eq)]
pub struct Address {
    pub bytes: [u8; 32],
}

impl Address {
    /// Wraps raw key bytes.
    pub fn new(bytes: [u8; 32]) -> (r: Address)
        ensures
            r.bytes == bytes,
    {
        Address { bytes }
    }

    /// The key rendered as 64 lower-case hexadecimal digits.
    pub fn to_hex(&self) -> (r: String)
        ensures
            r@ == hex_chars_of(self.bytes@),
    {
        let mut out: String = String::new();
        let mut i: usize = 0;
        proof {
            assert(self.bytes@.take(0) =~= Seq::<u8>::empty());
        }
        while i < 32
            invariant
                i <= 32,
                out@ == hex_chars_of(self.bytes@.take(i as int)),
            decreases 32 - i,
        {
            let b: u8 = self.bytes[i];
            out.append(hex_digit_str(b / 16));
            out.append(hex_digit_str(b % 16));
            proof {
                assert(self.bytes@.take(i + 1).drop_last() =~= self.bytes@.take(i as int));
                assert(self.bytes@.take(i + 1).last() == b);
                assert(out@ =~= hex_chars_of(self.bytes@.take(i + 1)));
            }
            i = i + 1;
        }
        proof {
            assert(self.bytes@.take(32) =~= self.bytes@);
        }
        out
    }
}

} // verus!
