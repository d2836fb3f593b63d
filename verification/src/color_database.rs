//! Colours and the name-to-colour lookup table.

use vstd::prelude::*;
use vstd::string::StrSliceExecFns;
use vstd::string::StringExecFns;

use crate::fmt::dec_digits;
use crate::fmt::hex2_digits;
use crate::fmt::push_hex2;
use crate::fmt::push_u64;

verus! {

/// A colour as a `u32`: `255 - alpha` in the top byte, then red, green and
/// blue in the bottom three bytes.
#[derive(Debug, Clone, Copy, PartialEq, Eq, Structural)]
pub struct Rgba(pub u32);

impl Rgba {
    /// A colour from a `u32` holding alpha, red, green and blue from the
    /// top byte down.
    pub fn of_rgba(rgba: u32) -> (r: Rgba)
        ensures
            r.0 == ((rgba & 0xffffff) | ((((255 - ((rgba >> 24) & 0xff)) as u32) as u32) << 24)),
    {
        let alpha = (rgba >> 24) as u8;
        let base = Rgba(rgba & 0xffffff);
        proof {
            assert((rgba >> 24) & 0xff == rgba >> 24 && (rgba & 0xffffff) & 0xffffff == rgba
                & 0xffffff && (rgba >> 24) < 256) by (bit_vector);
        }
        base.set_alpha(alpha)
    }

    /// A colour from a red, green, blue triple, fully opaque.
    pub fn from_tuple_rgb(rgb: (u8, u8, u8)) -> (r: Rgba)
        ensures
            r.0 == ((rgb.2 as u32) | ((rgb.1 as u32) << 8) | ((rgb.0 as u32) << 16)),
    {
        let (red, green, blue) = rgb;
        Rgba((blue as u32) | ((green as u32) << 8) | ((red as u32) << 16))
    }

    /// A colour from a red, green, blue, alpha quadruple.
    pub fn from_tuple_rgba(rgba: (u8, u8, u8, u8)) -> (r: Rgba)
        ensures
            r.0 == ((rgba.2 as u32) | ((rgba.1 as u32) << 8) | ((rgba.0 as u32) << 16) | (((
            255 - rgba.3 as u32) as u32) << 24)),
    {
        let (red, green, blue, alpha) = rgba;
        Rgba(
            (blue as u32) | ((green as u32) << 8) | ((red as u32) << 16) | (((255 - alpha
                as u32) as u32) << 24),
        )
    }

    /// The red, green, blue and alpha components.
    pub fn as_tuple_rgba(self) -> (r: (u8, u8, u8, u8))
        ensures
            r.0 == ((self.0 >> 16) & 0xff) as u8,
            r.1 == ((self.0 >> 8) & 0xff) as u8,
            r.2 == (self.0 & 0xff) as u8,
            r.3 == (255 - (((self.0 >> 24) & 0xff) as u8)) as u8,
    {
        proof {
            let v = self.0;
            assert(((v >> 16) & 0xff) < 256 && ((v >> 8) & 0xff) < 256 && (v & 0xff) < 256 && ((
            v >> 24) & 0xff) < 256) by (bit_vector);
        }
        (
            ((self.0 >> 16) & 0xff) as u8,
            ((self.0 >> 8) & 0xff) as u8,
            (self.0 & 0xff) as u8,
            255 - (((self.0 >> 24) & 0xff) as u8),
        )
    }

    /// The alpha component: 255 is fully opaque.
    pub fn alpha(self) -> (a: u8)
        ensures
            a == (255 - (((self.0 >> 24) & 0xff) as u8)) as u8,
    {
        proof {
            let v = self.0;
            assert(((v >> 24) & 0xff) < 256) by (bit_vector);
        }
        255 - (((self.0 >> 24) & 0xff) as u8)
    }

    /// The same colour with the alpha component replaced.
    pub fn set_alpha(self, alpha: u8) -> (r: Rgba)
        ensures
            r.0 == ((self.0 & 0xffffff) | (((255 - alpha as u32) as u32) << 24)),
    {
        Rgba((self.0 & 0xffffff) | (((255 - alpha as u32) as u32) << 24))
    }

    /// The colour as SVG text: `#rrggbb` when fully opaque, otherwise
    /// `rgba(r,g,b,a)`.
    pub fn as_svg_string(self) -> (s: String)
        ensures
            s@ == rgba_svg_text(self),
    {
        let (red, green, blue, alpha) = self.as_tuple_rgba();
        let mut s = String::new();
        if alpha == 255 {
            s.append("#");
            push_hex2(&mut s, red);
            push_hex2(&mut s, green);
            push_hex2(&mut s, blue);
        } else {
            s.append("rgba(");
            push_u64(&mut s, red as u64);
            s.append(",");
            push_u64(&mut s, green as u64);
            s.append(",");
            push_u64(&mut s, blue as u64);
            s.append(",");
            push_u64(&mut s, alpha as u64);
            s.append(")");
        }
        proof {
            reveal_strlit("#");
            reveal_strlit("rgba(");
            reveal_strlit(",");
            reveal_strlit(")");
            let v = self.0;
            assert(((v >> 16) & 0xff) < 256 && ((v >> 8) & 0xff) < 256 && (v & 0xff) < 256 && ((
            v >> 24) & 0xff) < 256) by (bit_vector);
            assert(s@ =~= rgba_svg_text(self));
        }
        s
    }
}

/// The SVG text of a colour: `#rrggbb` when fully opaque, otherwise
/// `rgba(r,g,b,a)` with decimal components.
pub open spec fn rgba_svg_text(c: Rgba) -> Seq<char> {
    let red = ((c.0 >> 16) & 0xff) as nat;
    let green = ((c.0 >> 8) & 0xff) as nat;
    let blue = (c.0 & 0xff) as nat;
    let alpha = (255 - (((c.0 >> 24) & 0xff) as u8)) as nat;
    if alpha == 255 {
        ("#")@ + hex2_digits(red) + hex2_digits(green) + hex2_digits(blue)
    } else {
        ("rgba(")@ + dec_digits(red) + (",")@ + dec_digits(green) + (",")@ + dec_digits(blue) + (
        ",")@ + dec_digits(alpha) + (")")@
    }
}

/// The SVG text a colour renders as: its name text while fully opaque,
/// otherwise its component rendering.
pub open spec fn color_text(c: Color) -> Seq<char> {
    if (255 - (((c.rgba.0 >> 24) & 0xff) as u8)) as u8 == 255 {
        c.text@
    } else {
        rgba_svg_text(c.rgba)
    }
}

/// A named colour: its SVG text (used while it is fully opaque) and its
/// component value.
#[derive(Debug, Clone)]
pub struct Color {
    /// Text representation, used while the colour is fully opaque
    pub text: String,
    /// The component value
    pub rgba: Rgba,
}

impl Color {
    /// A colour from its text and its components.
    pub fn new(text: &str, rgba: Rgba) -> (r: Color)
        ensures
            r.text@ == text@,
            r.rgba == rgba,
    {
        Color { text: text.to_owned(), rgba }
    }

    /// The same colour with the alpha component replaced.
    pub fn set_alpha(self, alpha: u8) -> (r: Color)
        ensures
            r.text@ == self.text@,
            r.rgba.0 == ((self.rgba.0 & 0xffffff) | (((255 - alpha as u32) as u32) << 24)),
    {
        let rgba = self.rgba.set_alpha(alpha);
        Color { rgba, ..self }
    }

    /// An unnamed colour from its components: its text is the component
    /// rendering.
    pub fn of_rgb(rgba: Rgba) -> (r: Color)
        ensures
            r.rgba == rgba,
            r.text@ == rgba_svg_text(rgba),
    {
        let text = rgba.as_svg_string();
        Color { text, rgba }
    }

    /// The reserved non-colour: `None`, `none` or `NONE` names the absence
    /// of a colour, fully opaque black under the name `none`.
    pub fn name_is_none(name: &str) -> (r: Option<Color>)
        ensures
            name@ == ("None")@ || name@ == ("none")@ || name@ == ("NONE")@ <==> r is Some,
            r matches Some(c) ==> c.text@ == ("none")@ && c.rgba.0 == 0,
    {
        if str_eq(name, "None") || str_eq(name, "none") || str_eq(name, "NONE") {
            proof {
                assert((0u32 | ((0u32) << 8) | ((0u32) << 16) | (((255u32 - 255u32) as u32)
                    << 24)) == 0u32) by (bit_vector);
            }
            Some(Color::new("none", Rgba::from_tuple_rgba((0, 0, 0, 255))))
        } else {
            None
        }
    }

    /// The colour as SVG text: its name while fully opaque, otherwise the
    /// component rendering.
    pub fn as_str(&self) -> (s: String)
        ensures
            s@ == color_text(*self),
    {
        if self.rgba.alpha() == 255 {
            clone_string(&self.text)
        } else {
            self.rgba.as_svg_string()
        }
    }
}

/// Copy a string.
fn clone_string(s: &String) -> (r: String)
    ensures
        r@ == s@,
{
    s.clone()
}

/// Whether two string slices hold the same characters.
pub fn str_eq(a: &str, b: &str) -> (r: bool)
    ensures
        r == (a@ == b@),
{
    let na = a.unicode_len();
    let nb = b.unicode_len();
    if na != nb {
        proof {
            assert(a@.len() != b@.len() ==> a@ != b@);
        }
        return false;
    }
    let mut i: usize = 0;
    while i < na
        invariant
            i <= na,
            na == a@.len(),
            na == b@.len(),
            forall|j: int| 0 <= j < i ==> a@[j] == b@[j],
        decreases na - i,
    {
        if a.get_char(i) != b.get_char(i) {
            return false;
        }
        i = i + 1;
    }
    proof {
        assert(a@ =~= b@);
    }
    true
}

/// The canonical form of a colour name: every underscore dropped and every
/// ASCII capital lowered.
pub open spec fn canonical_of(s: Seq<char>) -> Seq<char>
    decreases s.len(),
{
    if s.len() == 0 {
        Seq::empty()
    } else {
        canonical_of(s.drop_last()) + (if s.last() == '_' {
            Seq::<char>::empty()
        } else {
            seq![lower_char(s.last())]
        })
    }
}

/// An ASCII capital lowered; any other character unchanged.
pub open spec fn lower_char(c: char) -> char {
    if 'A' <= c <= 'Z' {
        ((c as u8) + 32) as char
    } else {
        c
    }
}

/// The colour-name lookup table: a list of lowercase names and their
/// component values.
pub struct ColorDatabase<'a> {
    /// The names and values, in lookup order.
    pub colors: &'a [(&'a str, u32)],
}

impl<'a> ColorDatabase<'a> {
    /// The index of the first entry whose name matches exactly.
    fn find_color_exact_index(&self, name: &str) -> (r: Option<usize>)
        ensures
            r matches Some(i) ==> i < self.colors@.len() && self.colors@[i as int].0@ == name@
                && forall|j: int| 0 <= j < i ==> self.colors@[j].0@ != name@,
            r is None ==> forall|j: int|
                0 <= j < self.colors@.len() ==> self.colors@[j].0@ != name@,
    {
        let n = slice_len(self.colors);
        let mut i: usize = 0;
        while i < n
            invariant
                i <= n,
                n == self.colors@.len(),
                forall|j: int| 0 <= j < i ==> self.colors@[j].0@ != name@,
            decreases n - i,
        {
            let entry = slice_get(self.colors, i);
            if str_eq(entry.0, name) {
                return Some(i);
            }
            i = i + 1;
        }
        None
    }

    /// The canonical form of a colour name, as an owned string.
    fn canonicalize_name(name: &str) -> (r: Option<String>)
        ensures
            r matches Some(s) && s@ == canonical_of(name@),
    {
        let mut out = String::new();
        let n = name.unicode_len();
        let mut i: usize = 0;
        while i < n
            invariant
                i <= n,
                n == name@.len(),
                out@ == canonical_of(name@.take(i as int)),
            decreases n - i,
        {
            let c = name.get_char(i);
            proof {
                assert(name@.take(i + 1).drop_last() =~= name@.take(i as int));
                assert(name@.take(i + 1).last() == name@[i as int]);
            }
            if c != '_' {
                let lc = lower_char_exec(c);
                push_char(&mut out, lc);
            }
            i = i + 1;
        }
        proof {
            assert(name@.take(n as int) =~= name@);
        }
        Some(out)
    }

    /// The index of the entry matching the canonical form of a name.
    fn find_color_index(&self, name: &str) -> (r: Option<usize>)
        ensures
            r matches Some(i) ==> i < self.colors@.len() && self.colors@[i as int].0@
                == canonical_of(name@) && forall|j: int|
                0 <= j < i ==> self.colors@[j].0@ != canonical_of(name@),
            r is None ==> forall|j: int|
                0 <= j < self.colors@.len() ==> self.colors@[j].0@ != canonical_of(name@),
    {
        match Self::canonicalize_name(name) {
            Some(s) => self.find_color_exact_index(s.as_str()),
            None => None,
        }
    }

    /// The stored name of a colour, looked up by the canonical form of the
    /// given name; `None` when the table has no such colour.
    pub fn find_color_name(&self, name: &str) -> (r: Option<&'a str>)
        ensures
            r matches Some(s) ==> exists|i: int|
                0 <= i < self.colors@.len() && self.colors@[i].0@ == canonical_of(name@)
                    && s@ == self.colors@[i].0@,
            r is None ==> forall|j: int|
                0 <= j < self.colors@.len() ==> self.colors@[j].0@ != canonical_of(name@),
    {
        match self.find_color_index(name) {
            Some(i) => Some(slice_get(self.colors, i).0),
            None => None,
        }
    }

    /// The component value of a colour, looked up by the canonical form of
    /// the given name; `None` when the table has no such colour.
    pub fn find_color_rgb(&self, name: &str) -> (r: Option<u32>)
        ensures
            r matches Some(v) ==> exists|i: int|
                0 <= i < self.colors@.len() && self.colors@[i].0@ == canonical_of(name@) && v
                    == self.colors@[i].1,
            r is None ==> forall|j: int|
                0 <= j < self.colors@.len() ==> self.colors@[j].0@ != canonical_of(name@),
    {
        match self.find_color_index(name) {
            Some(i) => Some(slice_get(self.colors, i).1),
            None => None,
        }
    }

    /// The named colour: the reserved non-colour names give the non-colour,
    /// any other name is looked up by its canonical form.
    pub fn find_color(&self, name: &str) -> (r: Option<Color>)
        ensures
            name@ == ("None")@ || name@ == ("none")@ || name@ == ("NONE")@ ==> r is Some,
            r matches Some(c) ==> ((name@ == ("None")@ || name@ == ("none")@ || name@ == (
            "NONE")@) ==> c.text@ == ("none")@ && c.rgba.0 == 0),
            r matches Some(c) ==> (!(name@ == ("None")@ || name@ == ("none")@ || name@ == (
            "NONE")@) ==> exists|i: int|
                {
                    &&& 0 <= i < self.colors@.len()
                    &&& (#[trigger] self.colors@[i]).0@ == canonical_of(name@)
                    &&& forall|j: int| 0 <= j < i ==> self.colors@[j].0@ != canonical_of(name@)
                    &&& c.text@ == self.colors@[i].0@
                    &&& c.rgba == Rgba(self.colors@[i].1)
                }),
            r is None ==> forall|j: int|
                0 <= j < self.colors@.len() ==> self.colors@[j].0@ != canonical_of(name@),
    {
        if let Some(color_none) = Color::name_is_none(name) {
            Some(color_none)
        } else {
            match self.find_color_index(name) {
                Some(i) => {
                    let entry = slice_get(self.colors, i);
                    Some(Color::new(entry.0, Rgba(entry.1)))
                },
                None => None,
            }
        }
    }
}

/// The ASCII-lowering of a character.
fn lower_char_exec(c: char) -> (r: char)
    ensures
        r == lower_char(c),
{
    if 'A' <= c && c <= 'Z' {
        (((c as u8) + 32) as char)
    } else {
        c
    }
}

/// Append one character to a string.
///
/// Relies on `String::push`, which appends the given character to the end
/// of the string.
#[verifier::external_body]
fn push_char(out: &mut String, c: char)
    ensures
        final(out)@ == old(out)@ + seq![c],
{
    out.push(c);
}

/// The length of a slice.
fn slice_len<T>(s: &[T]) -> (n: usize)
    ensures
        n == s@.len(),
{
    s.len()
}

/// Borrow an element of a slice.
fn slice_get<'a, T>(s: &'a [T], i: usize) -> (r: &'a T)
    requires
        i < s@.len(),
    ensures
        *r == s@[i as int],
{
    &s[i]
}

/// The colour names recognised by the SVG output layer, with their
/// component values.
pub fn svg_colors() -> (r: ColorDatabase<'static>)
{
    ColorDatabase {
        colors: &[
            ("aliceblue", 0xf0f8ff),
            ("aqua", 0x00ffff),
            ("black", 0x000000),
            ("blue", 0x0000ff),
            ("brown", 0xa52a2a),
            ("coral", 0xff7f50),
            ("crimson", 0xdc143c),
            ("cyan", 0x00ffff),
            ("darkblue", 0x00008b),
            ("darkgreen", 0x006400),
            ("darkgrey", 0xa9a9a9),
            ("fuchsia", 0xff00ff),
            ("gold", 0xffd700),
            ("gray", 0x808080),
            ("green", 0x008000),
            ("grey", 0x808080),
            ("indigo", 0x4b0082),
            ("ivory", 0xfffff0),
            ("khaki", 0xf0e68c),
            ("lavender", 0xe6e6fa),
            ("lime", 0x00ff00),
            ("magenta", 0xff00ff),
            ("maroon", 0x800000),
            ("navy", 0x000080),
            ("olive", 0x808000),
            ("orange", 0xffa500),
            ("pink", 0xffc0cb),
            ("purple", 0x800080),
            ("red", 0xff0000),
            ("salmon", 0xfa8072),
            ("silver", 0xc0c0c0),
            ("teal", 0x008080),
            ("violet", 0xee82ee),
            ("white", 0xffffff),
            ("yellow", 0xffff00),
        ],
    }
}

} // verus!
