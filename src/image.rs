use vstd::prelude::*;

use crate::error::TesseractError;

verus! {

/// The first shape rule a raw image breaks, if any, in the order they are
/// checked: both dimensions strictly positive, bytes per pixel strictly
/// positive, each row long enough for its pixels, the buffer long enough for
/// every row.
pub open spec fn image_error(
    len: int,
    width: int,
    height: int,
    bytes_per_pixel: int,
    bytes_per_line: int,
) -> Option<TesseractError> {
    if width <= 0 || height <= 0 {
        Some(TesseractError::InvalidDimensions)
    } else if bytes_per_pixel <= 0 {
        Some(TesseractError::InvalidBytesPerPixel)
    } else if bytes_per_line < width * bytes_per_pixel {
        Some(TesseractError::InvalidBytesPerLine)
    } else if len < height * bytes_per_line {
        Some(TesseractError::InvalidImageData)
    } else {
        None
    }
}

/// Checks a raw image before it may be handed to the engine, which reads
/// `height * bytes_per_line` bytes of it. The products are taken exactly, with
/// no overflow.
pub fn validate_image(
    image_data: &[u8],
    width: i32,
    height: i32,
    bytes_per_pixel: i32,
    bytes_per_line: i32,
) -> (r: Result<(), TesseractError>)
    ensures
        r == match image_error(
            image_data@.len() as int,
            width as int,
            height as int,
            bytes_per_pixel as int,
            bytes_per_line as int,
        ) {
            Some(e) => Err(e),
            None => Ok(()),
        },
{
    if width <= 0 || height <= 0 {
        return Err(TesseractError::InvalidDimensions);
    }
    if bytes_per_pixel <= 0 {
        return Err(TesseractError::InvalidBytesPerPixel);
    }
    let row_bytes: i64 = multiply(width, bytes_per_pixel);
    if (bytes_per_line as i64) < row_bytes {
        return Err(TesseractError::InvalidBytesPerLine);
    }
    let needed: i64 = multiply(height, bytes_per_line);
    if (image_data.len() as u128) < (needed as u128) {
        return Err(TesseractError::InvalidImageData);
    }
    Ok(())
}

/// The exact product of two positive `i32` values.
fn multiply(a: i32, b: i32) -> (r: i64)
    requires
        a > 0,
        b > 0,
    ensures
        r == a * b,
        r > 0,
{
    proof {
        assert(0 < a * b <= 0x7fff_ffff * 0x7fff_ffff) by (nonlinear_arith)
            requires
                0 < a <= 0x7fff_ffff,
                0 < b <= 0x7fff_ffff,
        ;
    }
    (a as i64) * (b as i64)
}

} // verus!
