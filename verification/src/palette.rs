//! The palette of paint colours and the quantizer that maps an arbitrary
//! colour to its nearest palette entry.

use vstd::prelude::*;

verus! {

/// A colour as red, green and blue channels of 8 bits each.
pub type Rgb = (u8, u8, u8);

/// Number of colours in the standard palette.
pub const MAX_COLOR_ID: usize = 25;

/// Largest number of colours a palette can hold: an index must fit in a byte.
pub const MAX_PALETTE_LEN: usize = 256;

/// The outcome of quantizing a colour: the index of the chosen palette
/// entry, and whether that entry is the colour itself.
#[derive(Clone, Copy, Debug, PartialEq, Eq, Structural)]
pub struct ColorId {
    pub id: u8,
    pub exact: bool,
}

/// Absolute difference of two channel values.
pub open spec fn channel_gap(a: u8, b: u8) -> int {
    if a >= b {
        a - b
    } else {
        b - a
    }
}

/// Squared Euclidean distance of two colours in RGB space.
pub open spec fn distance(a: Rgb, b: Rgb) -> int {
    channel_gap(a.0, b.0) * channel_gap(a.0, b.0) + channel_gap(a.1, b.1) * channel_gap(a.1, b.1)
        + channel_gap(a.2, b.2) * channel_gap(a.2, b.2)
}

/// `index` is the entry of `colors` that the quantizer picks for `color`:
/// no entry is closer, and every earlier entry is strictly farther.
pub open spec fn is_nearest(colors: Seq<Rgb>, color: Rgb, index: int) -> bool {
    &&& 0 <= index < colors.len()
    &&& forall|j: int|
        0 <= j < colors.len() ==> distance(colors[index], color) <= distance(#[trigger] colors[j], color)
    &&& forall|j: int| 0 <= j < index ==> distance(#[trigger] colors[j], color) > distance(colors[index], color)
}

/// The index that the quantizer picks for `color` among `colors`.
pub open spec fn nearest(colors: Seq<Rgb>, color: Rgb) -> int {
    choose|index: int| is_nearest(colors, color, index)
}

/// The colour that a 24-bit code `0xRRGGBB` stands for.
pub open spec fn hex_color(code: u32) -> Rgb {
    (((code / 0x10000) % 0x100) as u8, ((code / 0x100) % 0x100) as u8, (code % 0x100) as u8)
}

/// The colours of the standard palette, in palette order.
pub open spec fn standard_colors() -> Seq<Rgb> {
    seq![
        (0xFFu8, 0xFFu8, 0xFFu8),
        (0xC2u8, 0xC2u8, 0xC2u8),
        (0x85u8, 0x85u8, 0x85u8),
        (0x47u8, 0x47u8, 0x47u8),
        (0x00u8, 0x00u8, 0x00u8),
        (0x3Au8, 0xAFu8, 0xFFu8),
        (0x71u8, 0xAAu8, 0xEBu8),
        (0x4Au8, 0x76u8, 0xA8u8),
        (0x07u8, 0x4Bu8, 0xF3u8),
        (0x5Eu8, 0x30u8, 0xEBu8),
        (0xFFu8, 0x6Cu8, 0x5Bu8),
        (0xFEu8, 0x25u8, 0x00u8),
        (0xFFu8, 0x21u8, 0x8Bu8),
        (0x99u8, 0x24u8, 0x4Fu8),
        (0x4Du8, 0x2Cu8, 0x9Cu8),
        (0xFFu8, 0xCFu8, 0x4Au8),
        (0xFEu8, 0xB4u8, 0x3Fu8),
        (0xFEu8, 0x86u8, 0x48u8),
        (0xFFu8, 0x5Bu8, 0x36u8),
        (0xDAu8, 0x51u8, 0x00u8),
        (0x94u8, 0xE0u8, 0x44u8),
        (0x5Cu8, 0xBFu8, 0x0Du8),
        (0xC3u8, 0xD1u8, 0x17u8),
        (0xFCu8, 0xC7u8, 0x00u8),
        (0xD3u8, 0x83u8, 0x01u8),
    ]
}

/// A square is never negative, and is zero only for zero.
proof fn lemma_square(g: int)
    ensures
        g * g >= 0,
        g * g == 0 <==> g == 0,
{
    assert(g * g >= 0 && (g * g == 0 <==> g == 0)) by (nonlinear_arith);
}

/// The square of a channel gap fits comfortably in 32 bits.
proof fn lemma_gap_square_bound(g: int)
    requires
        0 <= g <= 255,
    ensures
        0 <= g * g <= 65025,
{
    assert(0 <= g * g <= 65025) by (nonlinear_arith)
        requires
            0 <= g <= 255,
    ;
}

/// Distance is never negative, and two colours are at distance zero
/// exactly when they are the same colour.
pub proof fn lemma_distance_zero(a: Rgb, b: Rgb)
    ensures
        distance(a, b) >= 0,
        distance(a, b) == 0 <==> a == b,
{
    lemma_square(channel_gap(a.0, b.0));
    lemma_square(channel_gap(a.1, b.1));
    lemma_square(channel_gap(a.2, b.2));
}

/// The quantizer's choice is unique: two indices that both satisfy
/// `is_nearest` are the same index.
pub proof fn lemma_nearest_unique(colors: Seq<Rgb>, color: Rgb, i: int, j: int)
    requires
        is_nearest(colors, color, i),
        is_nearest(colors, color, j),
    ensures
        i == j,
{
    if i < j {
        assert(distance(colors[i], color) > distance(colors[j], color));
        assert(distance(colors[j], color) <= distance(colors[i], color));
    } else if j < i {
        assert(distance(colors[j], color) > distance(colors[i], color));
        assert(distance(colors[i], color) <= distance(colors[j], color));
    }
}

/// Whatever index satisfies `is_nearest` is the one that `nearest` names.
pub proof fn lemma_nearest_is(colors: Seq<Rgb>, color: Rgb, index: int)
    requires
        is_nearest(colors, color, index),
    ensures
        nearest(colors, color) == index,
{
    lemma_nearest_unique(colors, color, index, nearest(colors, color));
}

/// A colour that occurs in the palette is resolved to its first
/// occurrence, at distance zero.
pub proof fn lemma_member_resolves_to_first(colors: Seq<Rgb>, color: Rgb, index: int)
    requires
        is_nearest(colors, color, index),
        colors.contains(color),
    ensures
        colors[index] == color,
        forall|j: int| 0 <= j < index ==> #[trigger] colors[j] != color,
{
    let k = choose|k: int| 0 <= k < colors.len() && colors[k] == color;
    lemma_distance_zero(colors[k], color);
    lemma_distance_zero(colors[index], color);
    assert forall|j: int| 0 <= j < index implies #[trigger] colors[j] != color by {
        lemma_distance_zero(colors[j], color);
    }
}

/// A colour that the palette lacks is resolved to an entry at a
/// positive distance, the least there is, and to the earliest such entry.
pub proof fn lemma_stranger_resolves_to_closest(colors: Seq<Rgb>, color: Rgb, index: int)
    requires
        is_nearest(colors, color, index),
        !colors.contains(color),
    ensures
        colors[index] != color,
        distance(colors[index], color) > 0,
        forall|j: int|
            0 <= j < colors.len() ==> distance(colors[index], color) <= distance(#[trigger] colors[j], color),
        forall|j: int|
            0 <= j < colors.len() && distance(#[trigger] colors[j], color) == distance(colors[index], color)
                ==> index <= j,
{
    assert(colors.contains(colors[index]));
    lemma_distance_zero(colors[index], color);
}

/// Decodes a 24-bit colour code `0xRRGGBB`.
pub fn decode_hex(code: u32) -> (color: Rgb)
    ensures
        color == hex_color(code),
{
    (((code / 0x10000) % 0x100) as u8, ((code / 0x100) % 0x100) as u8, (code % 0x100) as u8)
}

/// Squared Euclidean distance of two colours.
pub fn color_distance(a: Rgb, b: Rgb) -> (d: u32)
    ensures
        d == distance(a, b),
        d <= 195075,
{
    let dr: u32 = if a.0 >= b.0 {
        (a.0 - b.0) as u32
    } else {
        (b.0 - a.0) as u32
    };
    let dg: u32 = if a.1 >= b.1 {
        (a.1 - b.1) as u32
    } else {
        (b.1 - a.1) as u32
    };
    let db: u32 = if a.2 >= b.2 {
        (a.2 - b.2) as u32
    } else {
        (b.2 - a.2) as u32
    };
    proof {
        lemma_gap_square_bound(dr as int);
        lemma_gap_square_bound(dg as int);
        lemma_gap_square_bound(db as int);
    }
    dr * dr + dg * dg + db * db
}

/// An ordered, immutable list of between 1 and 256 colours.
pub struct Palette {
    colors: Vec<Rgb>,
}

impl View for Palette {
    type V = Seq<Rgb>;

    closed spec fn view(&self) -> Seq<Rgb> {
        self.colors@
    }
}

impl Palette {
    #[verifier::type_invariant]
    spec fn inv(&self) -> bool {
        0 < self.colors.len() <= MAX_PALETTE_LEN
    }

    /// The standard palette of 25 colours, decoded from their hex codes.
    pub fn new() -> (palette: Palette)
        ensures
            palette@ == standard_colors(),
            palette@.len() == MAX_COLOR_ID,
    {
        let mut colors: Vec<Rgb> = Vec::new();
        colors.push(decode_hex(0xFFFFFF));
        colors.push(decode_hex(0xC2C2C2));
        colors.push(decode_hex(0x858585));
        colors.push(decode_hex(0x474747));
        colors.push(decode_hex(0x000000));
        colors.push(decode_hex(0x3AAFFF));
        colors.push(decode_hex(0x71AAEB));
        colors.push(decode_hex(0x4A76A8));
        colors.push(decode_hex(0x074BF3));
        colors.push(decode_hex(0x5E30EB));
        colors.push(decode_hex(0xFF6C5B));
        colors.push(decode_hex(0xFE2500));
        colors.push(decode_hex(0xFF218B));
        colors.push(decode_hex(0x99244F));
        colors.push(decode_hex(0x4D2C9C));
        colors.push(decode_hex(0xFFCF4A));
        colors.push(decode_hex(0xFEB43F));
        colors.push(decode_hex(0xFE8648));
        colors.push(decode_hex(0xFF5B36));
        colors.push(decode_hex(0xDA5100));
        colors.push(decode_hex(0x94E044));
        colors.push(decode_hex(0x5CBF0D));
        colors.push(decode_hex(0xC3D117));
        colors.push(decode_hex(0xFCC700));
        colors.push(decode_hex(0xD38301));
        assert(colors@ =~= standard_colors());
        Palette { colors }
    }

    /// A palette of the given colours, in the given order. There is none
    /// of no colours, nor of more than 256.
    pub fn from_colors(colors: Vec<Rgb>) -> (palette: Option<Palette>)
        ensures
            palette is Some <==> 0 < colors@.len() <= MAX_PALETTE_LEN,
            palette matches Some(p) ==> p@ == colors@,
    {
        if colors.len() == 0 || colors.len() > MAX_PALETTE_LEN {
            None
        } else {
            Some(Palette { colors })
        }
    }

    /// Number of colours in the palette.
    pub fn len(&self) -> (n: usize)
        ensures
            n == self@.len(),
            0 < n <= MAX_PALETTE_LEN,
    {
        proof {
            use_type_invariant(self);
        }
        self.colors.len()
    }

    /// The colour at `index`, if the palette has that many.
    pub fn get(&self, index: usize) -> (color: Option<Rgb>)
        ensures
            color == (if index < self@.len() {
                Some(self@[index as int])
            } else {
                None
            }),
    {
        if index < self.colors.len() {
            Some(self.colors[index])
        } else {
            None
        }
    }

    /// Maps a colour to the palette entry nearest to it by squared
    /// Euclidean distance, the earliest one where several are equally near.
    /// The result is `exact` when that entry is the colour itself.
    pub fn resolve_color_id(&self, r: u8, g: u8, b: u8) -> (res: ColorId)
        ensures
            is_nearest(self@, (r, g, b), res.id as int),
            res.id as int == nearest(self@, (r, g, b)),
            res.exact == self@.contains((r, g, b)),
            res.exact == (self@[res.id as int] == (r, g, b)),
    {
        proof {
            use_type_invariant(self);
        }
        let color: Rgb = (r, g, b);
        let mut best: usize = 0;
        let mut best_distance: u32 = color_distance(self.colors[0], color);
        let mut index: usize = 0;
        while index < self.colors.len()
            invariant
                0 < self.colors.len() <= MAX_PALETTE_LEN,
                color == (r, g, b),
                index <= self.colors.len(),
                best < self.colors.len(),
                best <= index,
                best_distance == distance(self.colors@[best as int], color),
                forall|j: int| 0 <= j < index ==> best_distance <= distance(#[trigger] self.colors@[j], color),
                forall|j: int| 0 <= j < best ==> distance(#[trigger] self.colors@[j], color) > best_distance,
                forall|j: int| 0 <= j < index ==> distance(#[trigger] self.colors@[j], color) > 0,
            decreases self.colors.len() - index,
        {
            let d: u32 = color_distance(self.colors[index], color);
            if d == 0 {
                proof {
                    lemma_distance_zero(self.colors@[index as int], color);
                    assert forall|j: int| 0 <= j < self.colors@.len() implies 0 <= distance(
                        #[trigger] self.colors@[j],
                        color,
                    ) by {
                        lemma_distance_zero(self.colors@[j], color);
                    }
                    lemma_nearest_is(self@, color, index as int);
                }
                return ColorId { id: index as u8, exact: true };
            }
            if d < best_distance {
                best = index;
                best_distance = d;
            }
            index += 1;
        }
        proof {
            assert(!self@.contains(color)) by {
                if self@.contains(color) {
                    let k = choose|k: int| 0 <= k < self@.len() && self@[k] == color;
                    lemma_distance_zero(self@[k], color);
                }
            }
            lemma_distance_zero(self@[best as int], color);
            lemma_nearest_is(self@, color, best as int);
        }
        ColorId { id: best as u8, exact: false }
    }
}

} // verus!
