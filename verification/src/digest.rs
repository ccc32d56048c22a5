//! Digests of file contents.
use vstd::prelude::*;
use vstd::string::{StrSliceExecFns, StringExecFns};

verus! {

/// The SHA-256 digest of what was in a file.
#[derive(Clone, Copy, Debug)]
pub struct DigestData {
    pub bytes: [u8; 32],
}

/// The digest of no data at all.
pub open spec fn digest_of_nothing() -> DigestData {
    DigestData {
        bytes: [
            0xe3, 0xb0, 0xc4, 0x42, 0x98, 0xfc, 0x1c, 0x14, 0x9a, 0xfb, 0xf4, 0xc8, 0x99, 0x6f,
            0xb9, 0x24, 0x27, 0xae, 0x41, 0xe4, 0x64, 0x9b, 0x93, 0x4c, 0xa4, 0x95, 0x99, 0x1b,
            0x78, 0x52, 0xb8, 0x55,
        ],
    }
}

/// The lower-case character of a hexadecimal digit.
pub open spec fn hex_digit(value: int) -> char {
    "0123456789abcdef"@[value]
}

/// Two hexadecimal digits for each byte.
pub open spec fn hex_text(bytes: Seq<u8>) -> Seq<char>
    decreases bytes.len(),
{
    if bytes.len() == 0 {
        Seq::empty()
    } else {
        hex_text(bytes.drop_last()) + seq![
            hex_digit(bytes.last() as int / 16),
            hex_digit(bytes.last() as int % 16),
        ]
    }
}

impl View for DigestData {
    type V = Seq<u8>;

    open spec fn view(&self) -> Seq<u8> {
        self.bytes@
    }
}

impl PartialEq for DigestData {
    fn eq(&self, other: &DigestData) -> (same: bool) {
        self.same_as(other)
    }
}

impl vstd::std_specs::cmp::PartialEqSpecImpl for DigestData {
    open spec fn obeys_eq_spec() -> bool {
        true
    }

    open spec fn eq_spec(&self, other: &DigestData) -> bool {
        *self == *other
    }
}

impl Eq for DigestData {

}

impl DigestData {
    /// The digest with the given bytes.
    pub fn from_bytes(bytes: [u8; 32]) -> (digest: DigestData)
        ensures
            digest.bytes == bytes,
    {
        DigestData { bytes }
    }

    /// The digest of an empty file.
    pub fn of_nothing() -> (digest: DigestData)
        ensures
            digest == digest_of_nothing(),
    {
        DigestData {
            bytes: [
                0xe3, 0xb0, 0xc4, 0x42, 0x98, 0xfc, 0x1c, 0x14, 0x9a, 0xfb, 0xf4, 0xc8, 0x99, 0x6f,
                0xb9, 0x24, 0x27, 0xae, 0x41, 0xe4, 0x64, 0x9b, 0x93, 0x4c, 0xa4, 0x95, 0x99, 0x1b,
                0x78, 0x52, 0xb8, 0x55,
            ],
        }
    }

    /// Compares two digests.
    pub fn same_as(&self, other: &DigestData) -> (same: bool)
        ensures
            same == (*self == *other),
            same == (self@ == other@),
    {
        let mut i: usize = 0;
        while i < 32
            invariant
                i <= 32,
                forall|j: int| 0 <= j < i ==> self.bytes@[j] == other.bytes@[j],
            decreases 32 - i,
        {
            if self.bytes[i] != other.bytes[i] {
                return false;
            }
            i = i + 1;
        }
        assert(self.bytes =~= other.bytes);
        true
    }

    /// The digest in hexadecimal.
    pub fn to_string(&self) -> (text: String)
        ensures
            text@ == hex_text(self@),
    {
        let digits = "0123456789abcdef";
        proof {
            reveal_strlit("0123456789abcdef");
        }
        let mut text = String::new();
        let mut i: usize = 0;
        while i < 32
            invariant
                i <= 32,
                digits@ == "0123456789abcdef"@,
                digits@.len() == 16,
                text@ == hex_text(self@.take(i as int)),
            decreases 32 - i,
        {
            let byte: u8 = self.bytes[i];
            let high: usize = (byte / 16) as usize;
            let low: usize = (byte % 16) as usize;
            text.append(digits.substring_char(high, high + 1));
            text.append(digits.substring_char(low, low + 1));
            proof {
                let longer = self@.take(i + 1);
                assert(longer.drop_last() =~= self@.take(i as int));
                assert(longer.last() == byte);
                assert(text@ =~= hex_text(longer));
            }
            i = i + 1;
        }
        assert(self@.take(32) =~= self@);
        text
    }
}

} // verus!
