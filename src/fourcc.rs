use vstd::prelude::*;
use vstd::string::StringSliceAdditionalSpecFns;

use crate::parser::{be32, utf8_string};
use vstd::utf8::{decode_utf8, valid_utf8};

verus! {

/// A four-character code as its four bytes.
#[derive(Clone, Copy, Debug)]
pub struct FourCC {
    pub value: [u8; 4],
}

impl FourCC {
    /// The big-endian integer of the first four bytes of `fourcc`.
    pub fn from_str(fourcc: &str) -> (r: u32)
        requires
            fourcc.spec_bytes().len() >= 4,
        ensures
            r == be32(fourcc.spec_bytes(), 0),
    {
        let bytes = fourcc.as_bytes();
        (bytes[0] as u32) * 0x1000000 + (bytes[1] as u32) * 0x10000 + (bytes[2] as u32) * 0x100
            + bytes[3] as u32
    }

    /// The code as text, or `null` when its bytes are not UTF-8.
    pub fn to_string(&self) -> (r: String)
        ensures
            valid_utf8(self.value@) ==> r@ == decode_utf8(self.value@),
            !valid_utf8(self.value@) ==> r@ == "null"@,
    {
        let bytes = vec![self.value[0], self.value[1], self.value[2], self.value[3]];
        assert(bytes@ =~= self.value@);
        match utf8_string(bytes) {
            Some(s) => s,
            None => "null".to_owned(),
        }
    }

    /// The four big-endian bytes of `number`.
    pub fn from_u32(number: u32) -> (r: FourCC)
        ensures
            be32(r.value@, 0) == number,
    {
        let b0 = (number / 0x1000000) as u8;
        let b1 = ((number / 0x10000) % 0x100) as u8;
        let b2 = ((number / 0x100) % 0x100) as u8;
        let b3 = (number % 0x100) as u8;
        let value = [b0, b1, b2, b3];
        assert(value@ =~= seq![b0, b1, b2, b3]);
        assert(number == b0 as int * 0x1000000 + b1 as int * 0x10000 + b2 as int * 0x100 + b3 as int)
            by (nonlinear_arith)
            requires
                b0 == number / 0x1000000,
                b1 == (number / 0x10000) % 0x100,
                b2 == (number / 0x100) % 0x100,
                b3 == number % 0x100,
        ;
        FourCC { value }
    }
}

} // verus!
