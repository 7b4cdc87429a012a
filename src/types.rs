use vstd::prelude::*;

verus! {

/// Intensity of one 8-bit color channel.
pub type NumColor = u8;

/// Largest value of an 8-bit color channel.
pub const NUM_COLOR_MAX: NumColor = 255;

/// A color value that images are made of.
///
/// A type that sets `obeys_pixel_spec` describes its colors through the
/// spec functions here, and its methods keep to them: `rgb8` is the color
/// seen through 8-bit channels, `sum` is what accumulating one color into
/// another gives where `can_add` holds, and `black_spec` is black. For other
/// types the contracts of this trait say nothing.
pub trait Pixel: Sized + Copy {
    open spec fn obeys_pixel_spec() -> bool {
        false
    }

    open spec fn rgb8(&self) -> (NumColor, NumColor, NumColor) {
        (0, 0, 0)
    }

    open spec fn black_spec() -> Self {
        arbitrary()
    }

    open spec fn can_add(&self, other: Self) -> bool {
        true
    }

    open spec fn sum(&self, other: Self) -> Self {
        *self
    }

    fn red8(&self) -> (r: NumColor)
        ensures
            Self::obeys_pixel_spec() ==> r == self.rgb8().0,
    ;

    fn green8(&self) -> (r: NumColor)
        ensures
            Self::obeys_pixel_spec() ==> r == self.rgb8().1,
    ;

    fn blue8(&self) -> (r: NumColor)
        ensures
            Self::obeys_pixel_spec() ==> r == self.rgb8().2,
    ;

    fn black() -> (r: Self)
        ensures
            Self::obeys_pixel_spec() ==> r == Self::black_spec(),
            Self::obeys_pixel_spec() ==> r.rgb8() == (0u8, 0u8, 0u8),
            Self::obeys_pixel_spec() ==> forall|p: Self| #[trigger] r.can_add(p),
            Self::obeys_pixel_spec() ==> forall|p: Self| #[trigger] r.sum(p) == p,
    ;

    /// Adds `other` into this color.
    fn accumulate(&mut self, other: Self)
        requires
            Self::obeys_pixel_spec() ==> old(self).can_add(other),
        ensures
            Self::obeys_pixel_spec() ==> *final(self) == old(self).sum(other),
    ;
}

/// Black is neutral for accumulation: it can take any color, and the
/// result is that color.
pub open spec fn black_is_neutral<T: Pixel>() -> bool {
    &&& forall|p: T| #[trigger] T::black_spec().can_add(p)
    &&& forall|p: T| #[trigger] T::black_spec().sum(p) == p
}

/// The decimal digit `d` as a character.
pub open spec fn digit_char(d: nat) -> char {
    seq!['0', '1', '2', '3', '4', '5', '6', '7', '8', '9'][d as int]
}

/// Decimal digits of `n` as text, most significant first, without leading zeros.
pub open spec fn decimal_text(n: nat) -> Seq<char>
    decreases n,
{
    if n < 10 {
        seq![digit_char(n)]
    } else {
        decimal_text(n / 10) + seq![digit_char(n % 10)]
    }
}

/// How an 8-bit color reads as text: `Pixel8(r=R, g=G, b=B)` with decimal channels.
pub open spec fn pixel_text(r: NumColor, g: NumColor, b: NumColor) -> Seq<char> {
    seq!['P', 'i', 'x', 'e', 'l', '8', '(', 'r', '='] + decimal_text(r as nat) + seq![
        ',',
        ' ',
        'g',
        '=',
    ] + decimal_text(g as nat) + seq![',', ' ', 'b', '='] + decimal_text(b as nat) + seq![')']
}

/// The decimal digit `d` as a one-character string.
fn digit_str(d: u8) -> (s: &'static str)
    requires
        d < 10,
    ensures
        s@ == seq![digit_char(d as nat)],
{
    proof {
        reveal_strlit("0");
        reveal_strlit("1");
        reveal_strlit("2");
        reveal_strlit("3");
        reveal_strlit("4");
        reveal_strlit("5");
        reveal_strlit("6");
        reveal_strlit("7");
        reveal_strlit("8");
        reveal_strlit("9");
    }
    match d {
        0 => "0",
        1 => "1",
        2 => "2",
        3 => "3",
        4 => "4",
        5 => "5",
        6 => "6",
        7 => "7",
        8 => "8",
        _ => "9",
    }
}

/// Appends the decimal digits of `n`.
fn append_decimal(s: &mut String, n: u8)
    ensures
        final(s)@ == old(s)@ + decimal_text(n as nat),
    decreases n,
{
    if n >= 10 {
        append_decimal(s, n / 10);
    }
    s.append(digit_str(n % 10));
    assert(final(s)@ =~= old(s)@ + decimal_text(n as nat));
}

/// The text `Pixel8(r=R, g=G, b=B)` of three channels.
fn format_channels(r: NumColor, g: NumColor, b: NumColor) -> (s: String)
    ensures
        s@ == pixel_text(r, g, b),
{
    proof {
        reveal_strlit("Pixel8(r=");
        reveal_strlit(", g=");
        reveal_strlit(", b=");
        reveal_strlit(")");
    }
    let mut s = String::from_str("Pixel8(r=");
    append_decimal(&mut s, r);
    s.append(", g=");
    append_decimal(&mut s, g);
    s.append(", b=");
    append_decimal(&mut s, b);
    s.append(")");
    assert(s@ =~= pixel_text(r, g, b));
    s
}

/// A color with three 8-bit channels.
#[derive(Clone, Copy, PartialEq, Eq, Structural)]
pub struct PixelU8 {
    r: NumColor,
    g: NumColor,
    b: NumColor,
}

impl PixelU8 {
    pub fn from_rgb8(r: NumColor, g: NumColor, b: NumColor) -> (p: PixelU8)
        ensures
            p.rgb8() == (r, g, b),
    {
        PixelU8 { r, g, b }
    }

    /// The color as text, such as `Pixel8(r=1, g=20, b=255)`.
    pub fn to_string(&self) -> (s: String)
        ensures
            s@ == pixel_text(self.rgb8().0, self.rgb8().1, self.rgb8().2),
    {
        format_channels(self.r, self.g, self.b)
    }

    /// The 8-bit color of any pixel.
    pub fn from<P: Pixel>(value: &P) -> (p: PixelU8)
        ensures
            P::obeys_pixel_spec() ==> p.rgb8() == value.rgb8(),
    {
        PixelU8 { r: value.red8(), g: value.green8(), b: value.blue8() }
    }

    /// The channel-wise sum of two colors; each channel sum must fit 8 bits.
    pub fn add(self, rhs: PixelU8) -> (p: PixelU8)
        requires
            self.can_add(rhs),
        ensures
            p == self.sum(rhs),
            p.rgb8().0 == self.rgb8().0 + rhs.rgb8().0,
            p.rgb8().1 == self.rgb8().1 + rhs.rgb8().1,
            p.rgb8().2 == self.rgb8().2 + rhs.rgb8().2,
    {
        PixelU8 { r: self.r + rhs.r, g: self.g + rhs.g, b: self.b + rhs.b }
    }
}

impl Pixel for PixelU8 {
    open spec fn obeys_pixel_spec() -> bool {
        true
    }

    closed spec fn rgb8(&self) -> (NumColor, NumColor, NumColor) {
        (self.r, self.g, self.b)
    }

    closed spec fn black_spec() -> Self {
        PixelU8 { r: 0, g: 0, b: 0 }
    }

    open spec fn can_add(&self, other: Self) -> bool {
        &&& self.rgb8().0 + other.rgb8().0 <= NUM_COLOR_MAX
        &&& self.rgb8().1 + other.rgb8().1 <= NUM_COLOR_MAX
        &&& self.rgb8().2 + other.rgb8().2 <= NUM_COLOR_MAX
    }

    closed spec fn sum(&self, other: Self) -> Self {
        PixelU8 {
            r: (self.r + other.r) as u8,
            g: (self.g + other.g) as u8,
            b: (self.b + other.b) as u8,
        }
    }

    fn red8(&self) -> (r: NumColor) {
        self.r
    }

    fn green8(&self) -> (r: NumColor) {
        self.g
    }

    fn blue8(&self) -> (r: NumColor) {
        self.b
    }

    fn black() -> (r: Self) {
        PixelU8 { r: 0, g: 0, b: 0 }
    }

    fn accumulate(&mut self, other: Self) {
        self.r = self.r + other.r;
        self.g = self.g + other.g;
        self.b = self.b + other.b;
    }
}

} // verus!
