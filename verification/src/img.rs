//! Inline-image escape sequences.
//!
//! A terminal that understands the inline-file escape protocol displays an
//! image sent as one escape sequence holding its size, the requested display
//! dimensions and the image bytes in base64. Building that sequence is pure
//! text work; fetching the bytes is the caller's business.

use vstd::prelude::*;

use crate::numfmt::{dec_rep, u64_to_dec};

verus! {

/// What `base64::encode` makes of a byte string: a function of the bytes
/// alone.
pub uninterp spec fn base64_of(b: Seq<u8>) -> Seq<char>;

/// Relies on `base64::encode`: the standard-alphabet base64 text of the
/// bytes.
#[verifier::external_body]
fn to_base64(b: &Vec<u8>) -> (r: String)
    ensures
        r@ == base64_of(b@),
{
    base64::encode(b)
}

/// A display dimension: terminal cells, pixels, a percentage, or left to the
/// terminal.
#[derive(Clone, Copy, Debug, PartialEq, Eq)]
pub enum Size {
    Char(u16),
    Px(u16),
    Percent(u16),
    Auto,
}

/// The text a dimension contributes to the escape sequence.
pub open spec fn size_text(s: Size) -> Seq<char> {
    match s {
        Size::Char(n) => dec_rep(n as nat),
        Size::Px(n) => dec_rep(n as nat) + seq!['p', 'x'],
        Size::Percent(n) => dec_rep(n as nat) + seq!['%'],
        Size::Auto => seq!['a', 'u', 't', 'o'],
    }
}

impl Size {
    /// Writes this dimension as the escape sequence spells it.
    pub fn to_string(&self) -> (r: String)
        ensures
            r@ == size_text(*self),
    {
        match self {
            Size::Char(n) => u64_to_dec(*n as u64),
            Size::Px(n) => {
                let mut s = u64_to_dec(*n as u64);
                s.append("px");
                proof {
                    reveal_strlit("px");
                    assert("px"@ =~= seq!['p', 'x']);
                    assert(s@ =~= size_text(*self));
                }
                s
            },
            Size::Percent(n) => {
                let mut s = u64_to_dec(*n as u64);
                s.append("%");
                proof {
                    reveal_strlit("%");
                    assert("%"@ =~= seq!['%']);
                    assert(s@ =~= size_text(*self));
                }
                s
            },
            Size::Auto => {
                let s = String::from_str("auto");
                proof {
                    reveal_strlit("auto");
                    assert("auto"@ =~= seq!['a', 'u', 't', 'o']);
                }
                s
            },
        }
    }
}

/// The two dimensions an image is displayed at.
#[derive(Clone, Copy, Debug, PartialEq, Eq)]
pub struct Config {
    pub width: Size,
    pub height: Size,
}

impl Config {
    /// This configuration with the width replaced.
    pub fn width(self, width: Size) -> (r: Self)
        ensures
            r.width == width,
            r.height == self.height,
    {
        Self { width, ..self }
    }

    /// This configuration with the height replaced.
    pub fn height(self, height: Size) -> (r: Self)
        ensures
            r.height == height,
            r.width == self.width,
    {
        Self { height, ..self }
    }
}

impl Default for Config {
    /// Both dimensions left to the terminal.
    fn default() -> (r: Self)
        ensures
            r.width is Auto,
            r.height is Auto,
    {
        Self { width: Size::Auto, height: Size::Auto }
    }
}

/// An image held as its raw bytes.
pub struct Image {
    img: Vec<u8>,
}

impl Image {
    /// The image bytes this value holds.
    pub closed spec fn bytes(&self) -> Seq<u8> {
        self.img@
    }
}

/// The inline-file escape sequence for image bytes at the given dimensions.
pub open spec fn osc_text(img: Seq<u8>, w: Size, h: Size) -> Seq<char> {
    seq![
        '\u{1b}',
        ']',
        '1',
        '3',
        '3',
        '7',
        ';',
        'F',
        'i',
        'l',
        'e',
        '=',
        's',
        'i',
        'z',
        'e',
        '=',
    ] + dec_rep(img.len()) + seq![';', 'w', 'i', 'd', 't', 'h', '='] + size_text(w) + seq![
        ';',
        'h',
        'e',
        'i',
        'g',
        'h',
        't',
        '=',
    ] + size_text(h) + seq![';', 'i', 'n', 'l', 'i', 'n', 'e', '=', '1', ':'] + base64_of(img)
        + seq!['\u{7}']
}

impl Image {
    /// Wraps raw image bytes.
    pub fn new(img: Vec<u8>) -> (r: Self)
        ensures
            r.bytes() == img@,
    {
        Self { img }
    }

    /// The escape sequence showing this image at the terminal's own choice of
    /// dimensions.
    pub fn view(&self) -> (r: String)
        ensures
            r@ == osc_text(self.bytes(), Size::Auto, Size::Auto),
    {
        self.view_with_config(Config { width: Size::Auto, height: Size::Auto })
    }

    /// The escape sequence showing this image at the configured dimensions.
    pub fn view_with_config(&self, config: Config) -> (r: String)
        ensures
            r@ == osc_text(self.bytes(), config.width, config.height),
    {
        let mut out = String::new();
        out.append("\u{1b}]1337;File=size=");
        let len64: u64 = self.img.len() as u64;
        let len_text = u64_to_dec(len64);
        out.append(len_text.as_str());
        out.append(";width=");
        let w_text = config.width.to_string();
        out.append(w_text.as_str());
        out.append(";height=");
        let h_text = config.height.to_string();
        out.append(h_text.as_str());
        out.append(";inline=1:");
        let b64 = to_base64(&self.img);
        out.append(b64.as_str());
        out.push('\u{7}');
        proof {
            reveal_strlit("\u{1b}]1337;File=size=");
            reveal_strlit(";width=");
            reveal_strlit(";height=");
            reveal_strlit(";inline=1:");
            assert("\u{1b}]1337;File=size="@ =~= seq![
                '\u{1b}',
                ']',
                '1',
                '3',
                '3',
                '7',
                ';',
                'F',
                'i',
                'l',
                'e',
                '=',
                's',
                'i',
                'z',
                'e',
                '=',
            ]);
            assert(";width="@ =~= seq![';', 'w', 'i', 'd', 't', 'h', '=']);
            assert(";height="@ =~= seq![';', 'h', 'e', 'i', 'g', 'h', 't', '=']);
            assert(";inline=1:"@ =~= seq![';', 'i', 'n', 'l', 'i', 'n', 'e', '=', '1', ':']);
            assert(out@ =~= osc_text(self.bytes(), config.width, config.height));
        }
        out
    }
}

} // verus!
