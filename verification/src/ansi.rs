use vstd::prelude::*;

verus! {

/// Decimal digit bytes of an 8-bit value, without leading zeros.
pub open spec fn dec_of(n: int) -> Seq<u8> {
    if n < 10 {
        seq![(48 + n) as u8]
    } else if n < 100 {
        seq![(48 + n / 10) as u8, (48 + n % 10) as u8]
    } else {
        seq![(48 + n / 100) as u8, (48 + (n / 10) % 10) as u8, (48 + n % 10) as u8]
    }
}

/// Append the decimal digits of `n`.
pub fn push_dec(out: &mut Vec<u8>, n: u8)
    ensures
        final(out)@ == old(out)@ + dec_of(n as int),
{
    if n < 10 {
        out.push(48 + n);
    } else if n < 100 {
        out.push(48 + n / 10);
        out.push(48 + n % 10);
    } else {
        out.push(48 + n / 100);
        out.push(48 + (n / 10) % 10);
        out.push(48 + n % 10);
    }
    proof {
        assert(out@ =~= old(out)@ + dec_of(n as int));
    }
}

/// The UTF-8 bytes of one character.
pub open spec fn utf8_of(c: char) -> Seq<u8> {
    let u = c as int;
    if u < 0x80 {
        seq![u as u8]
    } else if u < 0x800 {
        seq![(0xc0 + u / 0x40) as u8, (0x80 + u % 0x40) as u8]
    } else if u < 0x10000 {
        seq![(0xe0 + u / 0x1000) as u8, (0x80 + (u / 0x40) % 0x40) as u8, (0x80 + u % 0x40) as u8]
    } else {
        seq![
            (0xf0 + u / 0x40000) as u8,
            (0x80 + (u / 0x1000) % 0x40) as u8,
            (0x80 + (u / 0x40) % 0x40) as u8,
            (0x80 + u % 0x40) as u8,
        ]
    }
}

/// Append the UTF-8 encoding of one character.
pub fn push_utf8(out: &mut Vec<u8>, c: char)
    ensures
        final(out)@ == old(out)@ + utf8_of(c),
{
    let u: u32 = c as u32;
    if u < 0x80 {
        out.push(u as u8);
    } else if u < 0x800 {
        out.push(0xc0 + (u / 0x40) as u8);
        out.push(0x80 + (u % 0x40) as u8);
    } else if u < 0x10000 {
        out.push(0xe0 + (u / 0x1000) as u8);
        out.push(0x80 + ((u / 0x40) % 0x40) as u8);
        out.push(0x80 + (u % 0x40) as u8);
    } else {
        out.push(0xf0 + (u / 0x40000) as u8);
        out.push(0x80 + ((u / 0x1000) % 0x40) as u8);
        out.push(0x80 + ((u / 0x40) % 0x40) as u8);
        out.push(0x80 + (u % 0x40) as u8);
    }
    proof {
        assert(out@ =~= old(out)@ + utf8_of(c));
    }
}

/// The decimal color triplet `R;G;B`.
pub open spec fn color_triplet_of(c: (u8, u8, u8)) -> Seq<u8> {
    dec_of(c.0 as int) + seq![59u8] + dec_of(c.1 as int) + seq![59u8] + dec_of(c.2 as int)
}

/// Append a decimal color triplet `R;G;B`.
fn push_color_triplet(out: &mut Vec<u8>, c: (u8, u8, u8))
    ensures
        final(out)@ == old(out)@ + color_triplet_of(c),
{
    push_dec(out, c.0);
    out.push(59);
    push_dec(out, c.1);
    out.push(59);
    push_dec(out, c.2);
    proof {
        assert(out@ =~= old(out)@ + color_triplet_of(c));
    }
}

/// The select-graphic-rendition prefix for one cell: `ESC [`, an optional
/// bold flag, the 24-bit foreground color, an optional 24-bit background
/// color, then `m`. Byte-exact, as the terminal requires.
pub open spec fn sgr_prefix_of(bold: bool, fg: (u8, u8, u8), bg: Option<(u8, u8, u8)>) -> Seq<u8> {
    seq![27u8, 91u8]
        + (if bold { seq![49u8, 59u8] } else { Seq::<u8>::empty() })
        + seq![51u8, 56u8, 59u8, 50u8, 59u8]
        + color_triplet_of(fg)
        + (match bg {
            Some(b) => seq![59u8, 52u8, 56u8, 59u8, 50u8, 59u8] + color_triplet_of(b),
            None => Seq::<u8>::empty(),
        })
        + seq![109u8]
}

/// Append the escape sequence that selects the cell's colors.
pub fn push_sgr_prefix(out: &mut Vec<u8>, bold: bool, fg: (u8, u8, u8), bg: Option<(u8, u8, u8)>)
    ensures
        final(out)@ == old(out)@ + sgr_prefix_of(bold, fg, bg),
{
    out.push(27);
    out.push(91);
    if bold {
        out.push(49);
        out.push(59);
    }
    out.push(51);
    out.push(56);
    out.push(59);
    out.push(50);
    out.push(59);
    proof {
        assert(out@ =~= old(out)@
            + seq![27u8, 91u8]
            + (if bold { seq![49u8, 59u8] } else { Seq::<u8>::empty() })
            + seq![51u8, 56u8, 59u8, 50u8, 59u8]);
    }
    push_color_triplet(out, fg);
    match bg {
        Some(b) => {
            out.push(59);
            out.push(52);
            out.push(56);
            out.push(59);
            out.push(50);
            out.push(59);
            push_color_triplet(out, b);
        },
        None => {},
    }
    out.push(109);
    proof {
        assert(out@ =~= old(out)@ + sgr_prefix_of(bold, fg, bg));
    }
}

/// The style-reset sequence `ESC [ 0 m`.
pub open spec fn sgr_reset_of() -> Seq<u8> {
    seq![27u8, 91u8, 48u8, 109u8]
}

/// Append the style-reset sequence.
pub fn push_sgr_reset(out: &mut Vec<u8>)
    ensures
        final(out)@ == old(out)@ + sgr_reset_of(),
{
    out.push(27);
    out.push(91);
    out.push(48);
    out.push(109);
    proof {
        assert(out@ =~= old(out)@ + sgr_reset_of());
    }
}

} // verus!
