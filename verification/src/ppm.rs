//! The ASCII PPM ("P3") image encoding.
//!
//! The artifact is plain text: the magic line, the dimensions, the
//! channel maximum, then one `R G B` line per pixel in row-major
//! order.  The encoder is specified byte for byte, so the sink in
//! front of the file only ever writes an exact encoding.

use vstd::prelude::*;

verus! {

/// The decimal digits of a non-negative number, most significant
/// first, without leading zeros (zero itself is the digit `0`).
pub open spec fn dec_s(n: nat) -> Seq<u8>
    decreases n,
{
    if n < 10 {
        seq![(48 + n) as u8]
    } else {
        dec_s((n / 10) as nat).push((48 + n % 10) as u8)
    }
}

/// One pixel's output line: the three channel values in decimal,
/// separated by single spaces, closed by a newline.
pub open spec fn pixel_line_s(p: [u8; 3]) -> Seq<u8> {
    dec_s(p[0] as nat) + seq![32u8] + dec_s(p[1] as nat) + seq![32u8] + dec_s(p[2] as nat)
        + seq![10u8]
}

/// The pixel lines of a whole frame, in buffer order.
pub open spec fn pixel_lines_s(pixels: Seq<[u8; 3]>) -> Seq<u8>
    decreases pixels.len(),
{
    if pixels.len() == 0 {
        Seq::empty()
    } else {
        pixel_lines_s(pixels.drop_last()) + pixel_line_s(pixels.last())
    }
}

/// The header: `P3`, the dimensions, and the channel maximum 255,
/// each on its own line.
pub open spec fn ppm_header_s(width: nat, height: nat) -> Seq<u8> {
    seq![80u8, 51u8, 10u8] + dec_s(width) + seq![32u8] + dec_s(height) + seq![10u8] + seq![
        50u8,
        53u8,
        53u8,
        10u8,
    ]
}

/// The whole artifact.
pub open spec fn ppm_s(width: nat, height: nat, pixels: Seq<[u8; 3]>) -> Seq<u8> {
    ppm_header_s(width, height) + pixel_lines_s(pixels)
}

/// Appends the decimal digits of `n`.
fn push_dec(out: &mut Vec<u8>, n: u64)
    ensures
        final(out)@ == old(out)@ + dec_s(n as nat),
    decreases n,
{
    if n >= 10 {
        push_dec(out, n / 10);
        out.push(48 + (n % 10) as u8);
    } else {
        out.push(48 + n as u8);
    }
    proof {
        assert(out@ =~= old(out)@ + dec_s(n as nat));
    }
}

/// Encodes a frame as the bytes of its PPM file.
pub fn ppm_bytes(width: u64, height: u64, pixels: &Vec<[u8; 3]>) -> (out: Vec<u8>)
    ensures
        out@ == ppm_s(width as nat, height as nat, pixels@),
{
    let mut out: Vec<u8> = Vec::new();
    out.push(80);  // 'P'
    out.push(51);  // '3'
    out.push(10);
    push_dec(&mut out, width);
    out.push(32);
    push_dec(&mut out, height);
    out.push(10);
    out.push(50);  // '2'
    out.push(53);  // '5'
    out.push(53);  // '5'
    out.push(10);
    proof {
        assert(out@ =~= ppm_header_s(width as nat, height as nat));
    }

    let mut i: usize = 0;
    while i < pixels.len()
        invariant
            i <= pixels@.len(),
            out@ == ppm_header_s(width as nat, height as nat) + pixel_lines_s(pixels@.take(
                i as int)),
        decreases pixels@.len() - i,
    {
        let p: [u8; 3] = pixels[i];
        push_dec(&mut out, p[0] as u64);
        out.push(32);
        push_dec(&mut out, p[1] as u64);
        out.push(32);
        push_dec(&mut out, p[2] as u64);
        out.push(10);
        proof {
            assert(pixels@.take(i + 1).drop_last() =~= pixels@.take(i as int));
            assert(pixels@.take(i + 1).last() == pixels@[i as int]);
            assert(out@ =~= ppm_header_s(width as nat, height as nat) + pixel_lines_s(
                pixels@.take(i + 1)));
        }
        i = i + 1;
    }
    proof {
        assert(pixels@.take(pixels@.len() as int) =~= pixels@);
    }
    out
}

} // verus!
