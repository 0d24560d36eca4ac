use vstd::prelude::*;

use crate::error::{Error, ErrorView};
use crate::parser::{be32, BoxReader};

verus! {

/// The 3×3 transform of movie and track headers, nine 32-bit fixed-point values.
#[derive(Clone, Copy, Debug, PartialEq, Eq, Structural)]
pub struct Matrix {
    pub a: i32,
    pub b: i32,
    pub u: i32,
    pub c: i32,
    pub d: i32,
    pub v: i32,
    pub x: i32,
    pub y: i32,
    pub w: i32,
}

/// The matrix stored at `d[i..i + 36]`, row by row.
pub open spec fn matrix_at(d: Seq<u8>, i: int) -> Matrix {
    Matrix {
        a: be32(d, i) as i32,
        b: be32(d, i + 4) as i32,
        u: be32(d, i + 8) as i32,
        c: be32(d, i + 12) as i32,
        d: be32(d, i + 16) as i32,
        v: be32(d, i + 20) as i32,
        x: be32(d, i + 24) as i32,
        y: be32(d, i + 28) as i32,
        w: be32(d, i + 32) as i32,
    }
}

impl Matrix {
    /// Reads the nine values at the cursor.
    pub fn read(reader: &mut BoxReader) -> (r: Result<Matrix, Error>)
        ensures
            old(reader).fits(36) ==> r == Ok::<Matrix, Error>(
                matrix_at(old(reader).data@, old(reader).pos as int),
            ) && final(reader).advanced(old(reader), 36),
            !old(reader).fits(36) ==> (r matches Err(e) && e@ == ErrorView::Eof),
            final(reader).data == old(reader).data,
    {
        if !reader.fits_exec(36) {
            return Err(Error::EOF());
        }
        let a = reader.read_i32()?;
        let b = reader.read_i32()?;
        let u = reader.read_i32()?;
        let c = reader.read_i32()?;
        let d = reader.read_i32()?;
        let v = reader.read_i32()?;
        let x = reader.read_i32()?;
        let y = reader.read_i32()?;
        let w = reader.read_i32()?;
        Ok(Matrix { a, b, u, c, d, v, x, y, w })
    }

    /// The unity transform.
    pub fn default() -> (r: Matrix)
        ensures
            r == (Matrix { a: 0x10000, b: 0, u: 0, c: 0, d: 0x10000, v: 0, x: 0, y: 0, w: 0x40000000 }),
    {
        Matrix { a: 0x00010000, b: 0, u: 0, c: 0, d: 0x00010000, v: 0, x: 0, y: 0, w: 0x40000000 }
    }
}

} // verus!
