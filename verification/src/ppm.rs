//! The text of a plain-text pixel map: a header, then one line of three
//! numbers for each pixel.
use vstd::prelude::*;

verus! {

/// The decimal digits of `n`, as ASCII.
pub open spec fn decimal(n: nat) -> Seq<u8>
    decreases n,
{
    if n < 10 {
        seq![(48 + n) as u8]
    } else {
        decimal(n / 10).push((48 + n % 10) as u8)
    }
}

/// The format's magic number, the width and the height, and the largest
/// channel value, 255, each on a line.
pub open spec fn header_text(width: nat, height: nat) -> Seq<u8> {
    seq![80u8, 51, 10] + decimal(width) + seq![32u8] + decimal(height) + seq![10u8, 50, 53, 53, 10]
}

/// The three channels of a pixel, and a line feed.
pub open spec fn pixel_text(r: nat, g: nat, b: nat) -> Seq<u8> {
    decimal(r) + seq![32u8] + decimal(g) + seq![32u8] + decimal(b) + seq![10u8]
}

/// Appends the decimal digits of `n`.
pub fn push_decimal(out: &mut Vec<u8>, n: u32)
    ensures
        final(out)@ == old(out)@ + decimal(n as nat),
    decreases n,
{
    if n >= 10 {
        push_decimal(out, n / 10);
    }
    out.push(48 + (n % 10) as u8);
}

/// Appends the header of an image of this size.
pub fn push_header(out: &mut Vec<u8>, width: u32, height: u32)
    ensures
        final(out)@ == old(out)@ + header_text(width as nat, height as nat),
{
    out.push(80);
    out.push(51);
    out.push(10);
    push_decimal(out, width);
    out.push(32);
    push_decimal(out, height);
    out.push(10);
    out.push(50);
    out.push(53);
    out.push(53);
    out.push(10);
}

/// Appends the line of a pixel.
pub fn push_pixel(out: &mut Vec<u8>, r: u32, g: u32, b: u32)
    ensures
        final(out)@ == old(out)@ + pixel_text(r as nat, g as nat, b as nat),
{
    push_decimal(out, r);
    out.push(32);
    push_decimal(out, g);
    out.push(32);
    push_decimal(out, b);
    out.push(10);
}

/// The number of line feeds in a text, which is the number of its lines.
pub open spec fn line_feeds(text: Seq<u8>) -> nat
    decreases text.len(),
{
    if text.len() == 0 {
        0
    } else {
        line_feeds(text.drop_last()) + if text.last() == 10 {
            1nat
        } else {
            0nat
        }
    }
}

/// The lines of two texts, one behind the other, are those of both.
pub proof fn lemma_line_feeds_add(a: Seq<u8>, b: Seq<u8>)
    ensures
        line_feeds(a + b) == line_feeds(a) + line_feeds(b),
    decreases b.len(),
{
    if b.len() == 0 {
        assert(a + b =~= a);
    } else {
        assert((a + b).drop_last() =~= a + b.drop_last());
        lemma_line_feeds_add(a, b.drop_last());
    }
}

/// A text of one byte is a line where that byte is the line feed.
proof fn lemma_line_feeds_of_one(byte: u8)
    ensures
        line_feeds(seq![byte]) == if byte == 10 {
            1nat
        } else {
            0nat
        },
{
    reveal_with_fuel(line_feeds, 2);
    assert(seq![byte].drop_last() =~= Seq::<u8>::empty());
}

/// The digits of a number hold no line feed.
pub proof fn lemma_decimal_is_no_line(n: nat)
    ensures
        line_feeds(decimal(n)) == 0,
    decreases n,
{
    if n < 10 {
        lemma_line_feeds_of_one((48 + n) as u8);
    } else {
        lemma_decimal_is_no_line(n / 10);
        assert(decimal(n).drop_last() =~= decimal(n / 10));
    }
}

/// The text of a pixel is one line.
pub proof fn lemma_pixel_is_one_line(r: nat, g: nat, b: nat)
    ensures
        line_feeds(pixel_text(r, g, b)) == 1,
{
    lemma_decimal_is_no_line(r);
    lemma_decimal_is_no_line(g);
    lemma_decimal_is_no_line(b);
    lemma_line_feeds_of_one(32);
    lemma_line_feeds_of_one(10);
    let t1 = decimal(r) + seq![32u8];
    let t2 = t1 + decimal(g);
    let t3 = t2 + seq![32u8];
    let t4 = t3 + decimal(b);
    lemma_line_feeds_add(decimal(r), seq![32u8]);
    lemma_line_feeds_add(t1, decimal(g));
    lemma_line_feeds_add(t2, seq![32u8]);
    lemma_line_feeds_add(t3, decimal(b));
    lemma_line_feeds_add(t4, seq![10u8]);
}

/// The header is three lines.
pub proof fn lemma_header_is_three_lines(width: nat, height: nat)
    ensures
        line_feeds(header_text(width, height)) == 3,
{
    lemma_decimal_is_no_line(width);
    lemma_decimal_is_no_line(height);
    lemma_line_feeds_of_one(80);
    lemma_line_feeds_of_one(51);
    lemma_line_feeds_of_one(10);
    lemma_line_feeds_of_one(32);
    lemma_line_feeds_of_one(50);
    lemma_line_feeds_of_one(53);
    let magic = seq![80u8, 51, 10];
    assert(magic =~= seq![80u8] + seq![51u8] + seq![10u8]);
    lemma_line_feeds_add(seq![80u8], seq![51u8]);
    lemma_line_feeds_add(seq![80u8] + seq![51u8], seq![10u8]);
    let limit = seq![10u8, 50, 53, 53, 10];
    assert(limit =~= seq![10u8] + seq![50u8] + seq![53u8] + seq![53u8] + seq![10u8]);
    lemma_line_feeds_add(seq![10u8], seq![50u8]);
    lemma_line_feeds_add(seq![10u8] + seq![50u8], seq![53u8]);
    lemma_line_feeds_add(seq![10u8] + seq![50u8] + seq![53u8], seq![53u8]);
    lemma_line_feeds_add(seq![10u8] + seq![50u8] + seq![53u8] + seq![53u8], seq![10u8]);
    let t1 = magic + decimal(width);
    let t2 = t1 + seq![32u8];
    let t3 = t2 + decimal(height);
    lemma_line_feeds_add(magic, decimal(width));
    lemma_line_feeds_add(t1, seq![32u8]);
    lemma_line_feeds_add(t2, decimal(height));
    lemma_line_feeds_add(t3, limit);
}

/// A number has as many digits as it needs, and none is anything but a
/// digit.
pub proof fn lemma_decimal_is_digits(n: nat)
    ensures
        decimal(n).len() >= 1,
        forall|i: int| 0 <= i < decimal(n).len() ==> 48 <= #[trigger] decimal(n)[i] <= 57,
        n < 10 <==> decimal(n).len() == 1,
        decimal(n)[0] == 48 <==> n == 0,
    decreases n,
{
    if n >= 10 {
        lemma_decimal_is_digits(n / 10);
    }
}

} // verus!
