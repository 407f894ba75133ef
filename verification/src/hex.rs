//! Bytes written as hexadecimal text.

use vstd::prelude::*;
use vstd::string::*;

verus! {

/// A view of a slice of bytes that is written in hexadecimal.
#[derive(Clone, Copy)]
pub struct HexSlice<'a>(&'a [u8]);

impl<'a> View for HexSlice<'a> {
    type V = Seq<u8>;

    closed spec fn view(&self) -> Seq<u8> {
        self.0@
    }
}

/// The character for a value below sixteen.
pub open spec fn digit_of(n: u8) -> char {
    if n < 10 {
        (0x30 + n) as char
    } else {
        (0x57 + n) as char
    }
}

/// The digits of one byte: the shortest hexadecimal numeral for it, in
/// lower case. A byte below sixteen is written with one digit.
pub open spec fn digits_of(byte: u8) -> Seq<char> {
    if byte < 16 {
        seq![digit_of(byte)]
    } else {
        seq![digit_of(byte / 16), digit_of(byte % 16)]
    }
}

/// The digits of all of `bytes`, one after the other.
pub open spec fn digits_of_all(bytes: Seq<u8>) -> Seq<char>
    decreases bytes.len(),
{
    if bytes.len() == 0 {
        Seq::empty()
    } else {
        digits_of_all(bytes.drop_last()) + digits_of(bytes.last())
    }
}

/// The text for `bytes`: `0x`, then the digits of each byte.
pub open spec fn hex_text(bytes: Seq<u8>) -> Seq<char> {
    seq!['0', 'x'] + digits_of_all(bytes)
}

fn digit(n: u8) -> (s: &'static str)
    requires
        n < 16,
    ensures
        s@ == seq![digit_of(n)],
{
    proof {
        reveal_strlit("0");
        reveal_strlit("1");
        reveal_strlit("2");
        reveal_strlit("3");
        reveal_strlit("4");
        reveal_strlit("5");
        reveal_strlit("6");
        reveal_strlit("7");
        reveal_strlit("8");
        reveal_strlit("9");
        reveal_strlit("a");
        reveal_strlit("b");
        reveal_strlit("c");
        reveal_strlit("d");
        reveal_strlit("e");
        reveal_strlit("f");
    }
    let s = if n == 0 {
        "0"
    } else if n == 1 {
        "1"
    } else if n == 2 {
        "2"
    } else if n == 3 {
        "3"
    } else if n == 4 {
        "4"
    } else if n == 5 {
        "5"
    } else if n == 6 {
        "6"
    } else if n == 7 {
        "7"
    } else if n == 8 {
        "8"
    } else if n == 9 {
        "9"
    } else if n == 10 {
        "a"
    } else if n == 11 {
        "b"
    } else if n == 12 {
        "c"
    } else if n == 13 {
        "d"
    } else if n == 14 {
        "e"
    } else {
        "f"
    };
    assert(s@ =~= seq![digit_of(n)]);
    s
}

impl<'a> HexSlice<'a> {
    /// Create a new HexSlice.
    pub fn new(data: &'a [u8]) -> (h: HexSlice<'a>)
        ensures
            h@ == data@,
    {
        HexSlice(data)
    }

    /// The bytes.
    pub fn as_bytes(&self) -> (data: &'a [u8])
        ensures
            data@ == self@,
    {
        self.0
    }

    /// The text of the slice: `0x`, then every byte in hexadecimal, without
    /// leading zeros.
    pub fn to_hex(&self) -> (text: String)
        ensures
            text@ == hex_text(self@),
    {
        proof {
            reveal_strlit("0x");
        }
        let mut text = String::from_str("0x");
        assert(text@ =~= seq!['0', 'x']);
        let mut i: usize = 0;
        while i < self.0.len()
            invariant
                i <= self.0@.len(),
                text@ == hex_text(self.0@.subrange(0, i as int)),
            decreases self.0@.len() - i,
        {
            let byte: u8 = self.0[i];
            let ghost before = text@;
            if byte >= 16 {
                text.append(digit(byte / 16));
            }
            text.append(digit(byte % 16));
            proof {
                let upto = self.0@.subrange(0, i + 1);
                assert(upto.drop_last() =~= self.0@.subrange(0, i as int));
                assert(upto.last() == byte);
                assert(text@ =~= before + digits_of(byte));
                assert(text@ =~= hex_text(upto));
            }
            i += 1;
        }
        assert(self.0@.subrange(0, i as int) =~= self.0@);
        text
    }
}

/// Extension trait for hex display.
pub trait HexDisplayExt {
    /// The bytes that are displayed.
    spec fn bytes(&self) -> Seq<u8>;

    /// Display self as hex.
    fn hex_display(&self) -> (h: HexSlice<'_>)
        ensures
            h@ == self.bytes(),
    ;
}

impl HexDisplayExt for [u8] {
    open spec fn bytes(&self) -> Seq<u8> {
        self@
    }

    fn hex_display(&self) -> (h: HexSlice<'_>) {
        HexSlice::new(self)
    }
}

impl<const N: usize> HexDisplayExt for [u8; N] {
    open spec fn bytes(&self) -> Seq<u8> {
        self@
    }

    fn hex_display(&self) -> (h: HexSlice<'_>) {
        HexSlice::new(self.as_slice())
    }
}

impl HexDisplayExt for Vec<u8> {
    open spec fn bytes(&self) -> Seq<u8> {
        self@
    }

    fn hex_display(&self) -> (h: HexSlice<'_>) {
        HexSlice::new(self.as_slice())
    }
}

} // verus!
