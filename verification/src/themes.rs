//! Colors and the two terminal palettes, with verified hexadecimal
//! rendering of color values.

use vstd::prelude::*;
use vstd::string::*;

use crate::text::{spec_digit, digit_str};

verus! {

/// An RGB color.
#[derive(Clone, Copy, PartialEq, Eq, Structural, Debug)]
pub struct Color {
    pub r: u8,
    pub g: u8,
    pub b: u8,
}

/// The lower-case hexadecimal digit character for a value below sixteen.
pub open spec fn spec_hex_digit(d: nat) -> char {
    if d < 10 {
        spec_digit(d)
    } else if d == 10 {
        'a'
    } else if d == 11 {
        'b'
    } else if d == 12 {
        'c'
    } else if d == 13 {
        'd'
    } else if d == 14 {
        'e'
    } else {
        'f'
    }
}

/// A byte as two lower-case hexadecimal digits.
pub open spec fn spec_byte_hex(b: nat) -> Seq<char> {
    seq![spec_hex_digit(b / 16), spec_hex_digit(b % 16)]
}

/// A color as `#rrggbb`.
pub open spec fn spec_color_hex(c: Color) -> Seq<char> {
    seq!['#'] + spec_byte_hex(c.r as nat) + spec_byte_hex(c.g as nat) + spec_byte_hex(c.b as nat)
}

/// A color as an inline style fragment, `color: #rrggbb`.
pub open spec fn spec_style_text(c: Color) -> Seq<char> {
    "color: "@ + spec_color_hex(c)
}

fn hex_digit_str(d: u64) -> (r: String)
    requires
        d < 16,
    ensures
        r@ =~= seq![spec_hex_digit(d as nat)],
{
    if d < 10 {
        digit_str(d)
    } else if d == 10 {
        let r = String::from_str("a");
        proof {
            reveal_strlit("a");
            assert("a"@ =~= seq!['a']);
        }
        r
    } else if d == 11 {
        let r = String::from_str("b");
        proof {
            reveal_strlit("b");
            assert("b"@ =~= seq!['b']);
        }
        r
    } else if d == 12 {
        let r = String::from_str("c");
        proof {
            reveal_strlit("c");
            assert("c"@ =~= seq!['c']);
        }
        r
    } else if d == 13 {
        let r = String::from_str("d");
        proof {
            reveal_strlit("d");
            assert("d"@ =~= seq!['d']);
        }
        r
    } else if d == 14 {
        let r = String::from_str("e");
        proof {
            reveal_strlit("e");
            assert("e"@ =~= seq!['e']);
        }
        r
    } else {
        let r = String::from_str("f");
        proof {
            reveal_strlit("f");
            assert("f"@ =~= seq!['f']);
        }
        r
    }
}

fn byte_hex(b: u8) -> (r: String)
    ensures
        r@ == spec_byte_hex(b as nat),
{
    let mut r = hex_digit_str((b / 16) as u64);
    let lo = hex_digit_str((b % 16) as u64);
    r.append(lo.as_str());
    r
}

impl Color {
    /// The color as `#rrggbb` in lower-case hexadecimal.
    pub fn hex(&self) -> (r: String)
        ensures
            r@ == spec_color_hex(*self),
    {
        let mut r = String::from_str("#");
        proof {
            reveal_strlit("#");
            assert("#"@ =~= seq!['#']);
        }
        let rr = byte_hex(self.r);
        let gg = byte_hex(self.g);
        let bb = byte_hex(self.b);
        r.append(rr.as_str());
        r.append(gg.as_str());
        r.append(bb.as_str());
        r
    }

    /// The color as an inline style fragment, `color: #rrggbb`.
    pub fn style_text(&self) -> (r: String)
        ensures
            r@ == spec_style_text(*self),
    {
        let mut r = String::from_str("color: ");
        let hx = self.hex();
        r.append(hx.as_str());
        r
    }
}

/// The colors a terminal theme supplies to the renderer.
#[derive(Debug, Clone)]
pub struct TerminalTheme {
    pub name: String,
    pub crust: Color,
    pub red: Color,
    pub green: Color,
    pub sapphire: Color,
    pub peach: Color,
    pub text: Color,
}

/// The dark palette.
pub open spec fn is_mocha(t: TerminalTheme) -> bool {
    &&& t.name@ == "mocha"@
    &&& t.red == (Color { r: 243, g: 139, b: 168 })
    &&& t.green == (Color { r: 166, g: 227, b: 161 })
    &&& t.sapphire == (Color { r: 116, g: 199, b: 236 })
    &&& t.peach == (Color { r: 250, g: 179, b: 135 })
    &&& t.text == (Color { r: 205, g: 214, b: 244 })
    &&& t.crust == (Color { r: 17, g: 17, b: 27 })
}

/// The light palette.
pub open spec fn is_latte(t: TerminalTheme) -> bool {
    &&& t.name@ == "latte"@
    &&& t.red == (Color { r: 210, g: 15, b: 57 })
    &&& t.green == (Color { r: 64, g: 160, b: 43 })
    &&& t.sapphire == (Color { r: 32, g: 159, b: 181 })
    &&& t.peach == (Color { r: 254, g: 100, b: 11 })
    &&& t.text == (Color { r: 76, g: 79, b: 105 })
    &&& t.crust == (Color { r: 220, g: 224, b: 232 })
}

/// Build the dark palette.
pub fn mocha() -> (t: TerminalTheme)
    ensures
        is_mocha(t),
{
    TerminalTheme {
        name: String::from_str("mocha"),
        red: Color { r: 243, g: 139, b: 168 },
        green: Color { r: 166, g: 227, b: 161 },
        sapphire: Color { r: 116, g: 199, b: 236 },
        peach: Color { r: 250, g: 179, b: 135 },
        text: Color { r: 205, g: 214, b: 244 },
        crust: Color { r: 17, g: 17, b: 27 },
    }
}

/// Build the light palette.
pub fn latte() -> (t: TerminalTheme)
    ensures
        is_latte(t),
{
    TerminalTheme {
        name: String::from_str("latte"),
        red: Color { r: 210, g: 15, b: 57 },
        green: Color { r: 64, g: 160, b: 43 },
        sapphire: Color { r: 32, g: 159, b: 181 },
        peach: Color { r: 254, g: 100, b: 11 },
        text: Color { r: 76, g: 79, b: 105 },
        crust: Color { r: 220, g: 224, b: 232 },
    }
}

} // verus!
