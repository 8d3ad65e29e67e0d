//! The plain-text portable pixmap format (`P3`).
//!
//! An image is a header line `P3`, a line with width and height, a line with
//! the largest colour value, and then one line of three numbers for each
//! pixel. All numbers are written in decimal.

use vstd::prelude::*;

verus! {

/// The decimal digits of `n` as ASCII bytes, most significant first.
pub open spec fn digits(n: nat) -> Seq<u8>
    decreases n,
{
    if n < 10 {
        seq![(48 + n) as u8]
    } else {
        digits(n / 10).push((48 + n % 10) as u8)
    }
}

/// The decimal form of `n`: a minus sign for a negative number, then the
/// digits of its magnitude.
pub open spec fn decimal(n: int) -> Seq<u8> {
    if n < 0 {
        seq![45u8] + digits((-n) as nat)
    } else {
        digits(n as nat)
    }
}

/// The three header lines of an image.
pub open spec fn header_bytes(width: int, height: int, max_color: int) -> Seq<u8> {
    seq![80u8, 51u8, 10u8] + decimal(width) + seq![32u8] + decimal(height) + seq![10u8] + decimal(
        max_color,
    ) + seq![10u8]
}

/// The line of one pixel.
pub open spec fn pixel_bytes(red: int, green: int, blue: int) -> Seq<u8> {
    decimal(red) + seq![32u8] + decimal(green) + seq![32u8] + decimal(blue) + seq![10u8]
}

fn push_digits(out: &mut Vec<u8>, n: u32)
    ensures
        final(out)@ == old(out)@ + digits(n as nat),
    decreases n,
{
    if n < 10 {
        out.push(48 + n as u8);
    } else {
        push_digits(out, n / 10);
        out.push(48 + (n % 10) as u8);
    }
}

fn push_decimal(out: &mut Vec<u8>, n: i32)
    ensures
        final(out)@ == old(out)@ + decimal(n as int),
{
    if n < 0 {
        out.push(45);
        push_digits(out, (-(n as i64)) as u32);
    } else {
        push_digits(out, n as u32);
    }
}

/// The header of an image of `width` by `height` pixels whose colour values
/// go up to `max_color`: `P3`, the two sizes, and the largest value, each on
/// a line of its own.
pub fn header(width: i32, height: i32, max_color: i32) -> (out: Vec<u8>)
    ensures
        out@ == header_bytes(width as int, height as int, max_color as int),
{
    let mut out: Vec<u8> = Vec::new();
    out.push(80);
    out.push(51);
    out.push(10);
    push_decimal(&mut out, width);
    out.push(32);
    push_decimal(&mut out, height);
    out.push(10);
    push_decimal(&mut out, max_color);
    out.push(10);
    out
}

/// The line of one pixel: its red, green and blue values, separated by
/// single spaces.
pub fn pixel(red: i32, green: i32, blue: i32) -> (out: Vec<u8>)
    ensures
        out@ == pixel_bytes(red as int, green as int, blue as int),
{
    let mut out: Vec<u8> = Vec::new();
    push_decimal(&mut out, red);
    out.push(32);
    push_decimal(&mut out, green);
    out.push(32);
    push_decimal(&mut out, blue);
    out.push(10);
    out
}

} // verus!
