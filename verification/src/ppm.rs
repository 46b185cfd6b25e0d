//! The image as text: the plain variant of the portable pixmap format.
//!
//! Three header lines (the tag of the format, width and height, the largest
//! channel value 255) are followed by one line per pixel, row after row from
//! the top and each row from the left. Every line ends in a line feed.
use vstd::prelude::*;
use crate::color::Pixel;
use crate::text::{decimal, decimal_is_digits, push_decimal};

verus! {

/// The three header lines of an image of the given size.
pub open spec fn header_spec(width: nat, height: nat) -> Seq<char> {
    seq!['P', '3', '\n'] + decimal(width) + seq![' '] + decimal(height) + seq![
        '\n',
        '2',
        '5',
        '5',
        '\n',
    ]
}

/// One line for each pixel, in order.
pub open spec fn lines_spec(pixels: Seq<Pixel>) -> Seq<char>
    decreases pixels.len(),
{
    if pixels.len() == 0 {
        Seq::empty()
    } else {
        lines_spec(pixels.drop_last()) + pixels.last().text() + seq!['\n']
    }
}

/// The text of an image: the header, then the lines of its pixels.
pub open spec fn image_text(width: nat, height: nat, pixels: Seq<Pixel>) -> Seq<char> {
    header_spec(width, height) + lines_spec(pixels)
}

/// How many lines a text has: the number of line feeds in it.
pub open spec fn line_count(s: Seq<char>) -> nat
    decreases s.len(),
{
    if s.len() == 0 {
        0
    } else if s.last() == '\n' {
        line_count(s.drop_last()) + 1
    } else {
        line_count(s.drop_last())
    }
}

/// The lines of two texts, one after the other, are the lines of both.
pub proof fn line_count_concat(a: Seq<char>, b: Seq<char>)
    ensures
        line_count(a + b) == line_count(a) + line_count(b),
    decreases b.len(),
{
    if b.len() == 0 {
        assert(a + b =~= a);
    } else {
        assert((a + b).drop_last() =~= a + b.drop_last());
        line_count_concat(a, b.drop_last());
    }
}

/// A text without a line feed has no line.
pub proof fn line_count_none(s: Seq<char>)
    requires
        forall|i: int| 0 <= i < s.len() ==> s[i] != '\n',
    ensures
        line_count(s) == 0,
    decreases s.len(),
{
    if s.len() > 0 {
        line_count_none(s.drop_last());
    }
}

/// A numeral has no line.
pub proof fn line_count_decimal(n: nat)
    ensures
        line_count(decimal(n)) == 0,
{
    assert forall|i: int| 0 <= i < decimal(n).len() implies decimal(n)[i] != '\n' by {
        decimal_is_digits(n, i);
    }
    line_count_none(decimal(n));
}

/// One text with a line feed at its end and nowhere else is one line.
pub proof fn line_count_one(s: Seq<char>)
    requires
        line_count(s) == 0,
    ensures
        line_count(s + seq!['\n']) == 1,
{
    assert((s + seq!['\n']).drop_last() =~= s);
}

/// The text of a pixel, with its line feed, is one line.
pub proof fn pixel_is_one_line(p: Pixel)
    ensures
        line_count(p.text() + seq!['\n']) == 1,
{
    let r = decimal(p.r as nat);
    let g = decimal(p.g as nat);
    let b = decimal(p.b as nat);
    line_count_decimal(p.r as nat);
    line_count_decimal(p.g as nat);
    line_count_decimal(p.b as nat);
    assert(line_count(seq![' ']) == 0) by {
        line_count_none(seq![' ']);
    }
    line_count_concat(r, seq![' ']);
    line_count_concat(r + seq![' '], g);
    line_count_concat(r + seq![' '] + g, seq![' ']);
    line_count_concat(r + seq![' '] + g + seq![' '], b);
    line_count_one(p.text());
}

/// The pixels of an image take as many lines as there are pixels.
pub proof fn lines_count(pixels: Seq<Pixel>)
    ensures
        line_count(lines_spec(pixels)) == pixels.len(),
    decreases pixels.len(),
{
    if pixels.len() > 0 {
        lines_count(pixels.drop_last());
        pixel_is_one_line(pixels.last());
        let front = lines_spec(pixels.drop_last());
        let line = pixels.last().text() + seq!['\n'];
        assert(lines_spec(pixels) =~= front + line);
        line_count_concat(front, line);
    }
}

/// The header takes three lines.
pub proof fn header_count(width: nat, height: nat)
    ensures
        line_count(header_spec(width, height)) == 3,
{
    let tag = seq!['P', '3'];
    let w = decimal(width);
    let h = decimal(height);
    let top = seq!['2', '5', '5'];
    line_count_decimal(width);
    line_count_decimal(height);
    line_count_none(tag);
    line_count_none(seq![' ']);
    line_count_none(top);
    line_count_concat(w, seq![' ']);
    line_count_concat(w + seq![' '], h);
    line_count_one(tag);
    line_count_one(w + seq![' '] + h);
    line_count_one(top);
    let first = tag + seq!['\n'];
    let second = w + seq![' '] + h + seq!['\n'];
    let third = top + seq!['\n'];
    line_count_concat(first, second);
    line_count_concat(first + second, third);
    assert(header_spec(width, height) =~= first + second + third);
}

/// An image takes three lines for its header and one line for each pixel.
pub proof fn image_line_count(width: nat, height: nat, pixels: Seq<Pixel>)
    ensures
        line_count(image_text(width, height, pixels)) == 3 + pixels.len(),
{
    header_count(width, height);
    lines_count(pixels);
    line_count_concat(header_spec(width, height), lines_spec(pixels));
}

/// Writes an image as text.
pub fn encode(width: usize, height: usize, pixels: &Vec<Pixel>) -> (out: String)
    ensures
        out@ == image_text(width as nat, height as nat, pixels@),
{
    let mut out = String::new();
    out.push('P');
    out.push('3');
    out.push('\n');
    push_decimal(&mut out, width);
    out.push(' ');
    push_decimal(&mut out, height);
    out.push('\n');
    out.push('2');
    out.push('5');
    out.push('5');
    out.push('\n');
    assert(out@ =~= header_spec(width as nat, height as nat));
    let mut i: usize = 0;
    while i < pixels.len()
        invariant
            i <= pixels.len(),
            out@ == header_spec(width as nat, height as nat) + lines_spec(pixels@.take(i as int)),
        decreases pixels.len() - i,
    {
        let ghost so_far = out@;
        pixels[i].push_text(&mut out);
        out.push('\n');
        proof {
            let next = pixels@.take(i as int + 1);
            assert(next.drop_last() =~= pixels@.take(i as int));
            assert(out@ =~= header_spec(width as nat, height as nat) + lines_spec(next));
        }
        i = i + 1;
    }
    assert(pixels@.take(i as int) =~= pixels@);
    out
}

} // verus!
