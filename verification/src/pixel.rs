//! Pixel records and the source that walks an image to produce them.

use crate::palette::{nearest, standard_colors, Palette, Rgb, MAX_PALETTE_LEN};
use crate::raster::{lemma_index_in_grid, Raster, RasterView};
use crate::wire::{le_bytes, wire_value, MAX_HEIGHT, MAX_WIDTH, SIZE};
use vstd::arithmetic::div_mod::lemma_fundamental_div_mod_converse;
use vstd::prelude::*;

verus! {

/// A pixel record as plain numbers: canvas coordinates and a colour index.
pub struct Pixel {
    pub x: int,
    pub y: int,
    pub color_id: int,
}

impl Pixel {
    /// The number that the command for this pixel carries.
    pub open spec fn wire_value(self) -> int {
        wire_value(self.x, self.y, self.color_id)
    }

    /// The pixel has a command: its number is a non-negative signed
    /// 32-bit value.
    pub open spec fn encodable(self) -> bool {
        &&& 0 <= self.x
        &&& 0 <= self.y
        &&& 0 <= self.color_id
        &&& self.wire_value() <= i32::MAX
    }

    /// The command for this pixel.
    pub open spec fn encoded(self) -> Seq<u8> {
        le_bytes(self.wire_value())
    }

    /// Row-major order on the canvas: an earlier row, or the same row and
    /// an earlier column.
    pub open spec fn precedes(self, other: Pixel) -> bool {
        self.y < other.y || (self.y == other.y && self.x < other.x)
    }
}

/// Two pixels with the same command are the same pixel, as long as both
/// lie on the canvas: the format loses nothing there.
pub proof fn lemma_command_identifies_pixel(a: Pixel, b: Pixel)
    requires
        0 <= a.x < MAX_WIDTH,
        0 <= a.y < MAX_HEIGHT,
        0 <= b.x < MAX_WIDTH,
        0 <= b.y < MAX_HEIGHT,
        a.wire_value() == b.wire_value(),
    ensures
        a == b,
{
}

/// One unit of paint work: a colour index for a place on the canvas, in
/// absolute canvas coordinates. Every record has a command.
#[derive(Clone, Copy, Debug, PartialEq, Eq)]
pub struct PixelInfo {
    x: u32,
    y: u32,
    color_id: u8,
}

impl View for PixelInfo {
    type V = Pixel;

    closed spec fn view(&self) -> Pixel {
        Pixel { x: self.x as int, y: self.y as int, color_id: self.color_id as int }
    }
}

impl PixelInfo {
    #[verifier::type_invariant]
    spec fn inv(&self) -> bool {
        self@.encodable()
    }

    /// The record for colour `color_id` at `(x, y)`, where it has a
    /// command.
    pub fn new(x: u32, y: u32, color_id: u8) -> (info: Option<PixelInfo>)
        ensures
            info is Some <==> wire_value(x as int, y as int, color_id as int) <= i32::MAX,
            info matches Some(p) ==> p@ == (Pixel { x: x as int, y: y as int, color_id: color_id as int }),
    {
        assert(y * MAX_WIDTH == y * 1590 && color_id * SIZE == color_id * 636000);
        let value: u64 = x as u64 + y as u64 * (MAX_WIDTH as u64) + color_id as u64 * (SIZE as u64);
        if value <= i32::MAX as u64 {
            Some(PixelInfo { x, y, color_id })
        } else {
            None
        }
    }

    /// Column on the canvas.
    pub fn x(&self) -> (x: u32)
        ensures
            x == self@.x,
    {
        self.x
    }

    /// Row on the canvas.
    pub fn y(&self) -> (y: u32)
        ensures
            y == self@.y,
    {
        self.y
    }

    /// Index of the colour in the palette.
    pub fn color_id(&self) -> (color_id: u8)
        ensures
            color_id == self@.color_id,
    {
        self.color_id
    }
}

/// Why a pixel source could not be made: the origin lies off the canvas.
#[derive(Clone, Copy, Debug, PartialEq, Eq, Structural)]
pub enum OutOfRangeError {
    /// The origin's column is not on the canvas.
    XAxis,
    /// The origin's row is not on the canvas.
    YAxis,
}

impl OutOfRangeError {
    /// What went wrong, in words.
    pub fn message(&self) -> (text: &'static str)
        ensures
            text@ == (match self {
                OutOfRangeError::XAxis => "X axis is out of range"@,
                OutOfRangeError::YAxis => "Y axis is out of range"@,
            }),
    {
        match self {
            OutOfRangeError::XAxis => "X axis is out of range",
            OutOfRangeError::YAxis => "Y axis is out of range",
        }
    }
}

/// A pixel source as plain values: the image, the palette, where on the
/// canvas the image's top left corner goes, where in the image the walk
/// stands, and whether the walk is over.
pub struct PixelSource {
    pub image: RasterView,
    pub palette: Seq<Rgb>,
    pub origin: (int, int),
    pub cursor: (int, int),
    pub exhausted: bool,
}

impl PixelSource {
    /// The source at the start of its walk over `image`, anchored at
    /// `(x, y)`, with the standard palette.
    pub open spec fn start(image: RasterView, x: int, y: int) -> PixelSource {
        PixelSource {
            image,
            palette: standard_colors(),
            origin: (x, y),
            cursor: (0, 0),
            exhausted: false,
        }
    }

    /// The origin is on the canvas, and the cursor is inside the image,
    /// or just past the end of a row, until the walk is over.
    pub open spec fn wf(self) -> bool {
        &&& self.image.wf()
        &&& 0 < self.palette.len() <= MAX_PALETTE_LEN
        &&& 0 <= self.origin.0 < MAX_WIDTH
        &&& 0 <= self.origin.1 < MAX_HEIGHT
        &&& 0 <= self.cursor.0
        &&& 0 <= self.cursor.1
        &&& (self.exhausted || (self.cursor.0 <= self.image.width && self.cursor.1
            < self.image.height) || self.cursor == (0int, 0int))
    }

    /// Number of records that the whole walk produces: one for each pixel
    /// of the image.
    pub open spec fn total(self) -> int {
        self.image.width * self.image.height
    }

    /// The record for the image's pixel in column `x` of row `y`: its
    /// place on the canvas, and the palette's nearest colour.
    pub open spec fn record_at(self, x: int, y: int) -> Pixel {
        Pixel {
            x: self.origin.0 + x,
            y: self.origin.1 + y,
            color_id: nearest(self.palette, self.image.at(x, y)),
        }
    }

    /// The records of the whole walk, in the order in which they come:
    /// row by row, each row from left to right.
    pub open spec fn records(self) -> Seq<Pixel> {
        Seq::new(
            self.total() as nat,
            |k: int| self.record_at(k % self.image.width, k / self.image.width),
        )
    }

    /// Number of records that the walk has produced so far.
    pub open spec fn produced(self) -> int {
        if self.exhausted {
            self.total()
        } else {
            self.cursor.1 * self.image.width + self.cursor.0
        }
    }

    /// The cursor as the next pull first moves it: from past the end of a
    /// row to the start of the next row, by one row and no more.
    pub open spec fn advanced(self) -> (int, int) {
        if self.cursor.0 >= self.image.width {
            (0, self.cursor.1 + 1)
        } else {
            self.cursor
        }
    }

    /// What the next pull returns: nothing once the walk is over, or where
    /// the cursor, moved to the next row if need be, is below the image or
    /// in a row without pixels; else the record under the cursor.
    pub open spec fn pulled(self) -> Option<Pixel> {
        let (x, y) = self.advanced();
        if self.exhausted || y >= self.image.height || x >= self.image.width {
            None
        } else {
            Some(self.record_at(x, y))
        }
    }

    /// The source after the next pull: over, if the cursor came below the
    /// image; else with the cursor one pixel on, if a record was produced.
    pub open spec fn after_pull(self) -> PixelSource {
        let (x, y) = self.advanced();
        if self.exhausted {
            self
        } else if y >= self.image.height {
            PixelSource { cursor: (x, y), exhausted: true, ..self }
        } else if x >= self.image.width {
            PixelSource { cursor: (x, y), ..self }
        } else {
            PixelSource { cursor: (x + 1, y), ..self }
        }
    }

    /// The source after `n` pulls.
    pub open spec fn after_pulls(self, n: nat) -> PixelSource
        decreases n,
    {
        if n == 0 {
            self
        } else {
            self.after_pull().after_pulls((n - 1) as nat)
        }
    }

    /// A pull hands out the records one by one in their order: the next
    /// record while there is one, and nothing afterwards. It changes
    /// neither the image, the palette nor the origin, and never takes back
    /// that the walk is over.
    pub proof fn lemma_pull_is_next_record(self)
        requires
            self.wf(),
        ensures
            self.after_pull().wf(),
            self.after_pull().image == self.image,
            self.after_pull().palette == self.palette,
            self.after_pull().origin == self.origin,
            self.after_pull().records() == self.records(),
            self.exhausted ==> self.after_pull().exhausted,
            0 <= self.produced() <= self.records().len(),
            self.produced() < self.records().len() ==> self.pulled() == Some(
                self.records()[self.produced()],
            ) && self.after_pull().produced() == self.produced() + 1,
            self.produced() == self.records().len() ==> self.pulled() is None
                && self.after_pull().produced() == self.produced(),
    {
        let w = self.image.width;
        let h = self.image.height;
        let (cx, cy) = self.cursor;
        let (x, y) = self.advanced();
        assert(w * h >= 0) by (nonlinear_arith)
            requires
                w >= 0,
                h >= 0,
        ;
        assert(w == 0 || h == 0 ==> w * h == 0) by (nonlinear_arith);
        assert(cy * w >= 0 && (cy + 1) * w == cy * w + w && y * w >= 0) by (nonlinear_arith)
            requires
                cy >= 0,
                y >= 0,
                w >= 0,
        ;
        if !self.exhausted {
            if cy < h {
                assert((cy + 1) * w <= h * w && h * w == w * h) by (nonlinear_arith)
                    requires
                        cy + 1 <= h,
                        w >= 0,
                ;
            }
            if y < h && x < w {
                lemma_index_in_grid(w, h, x, y);
                lemma_fundamental_div_mod_converse(y * w + x, w, y, x);
            }
        }
    }

    /// The walk produces one record for each pixel of the image, and they
    /// come in row-major order of their place on the canvas: each record
    /// lies in a later row than the one before it, or in the same row and
    /// a later column.
    pub proof fn lemma_records_in_canvas_order(self, i: int, j: int)
        requires
            self.wf(),
            0 <= i < j < self.records().len(),
        ensures
            self.records().len() == self.image.width * self.image.height,
            self.records()[i].precedes(self.records()[j]),
            self.records()[i] != self.records()[j],
    {
        let w = self.image.width;
        assert(w > 0) by {
            assert(w == 0 ==> w * self.image.height == 0) by (nonlinear_arith);
        }
        vstd::arithmetic::div_mod::lemma_fundamental_div_mod(i, w);
        vstd::arithmetic::div_mod::lemma_fundamental_div_mod(j, w);
        vstd::arithmetic::div_mod::lemma_mod_pos_bound(i, w);
        vstd::arithmetic::div_mod::lemma_mod_pos_bound(j, w);
        let (qi, qj) = (i / w, j / w);
        if qi > qj {
            assert(w * qi >= w * qj + w) by (nonlinear_arith)
                requires
                    qi >= qj + 1,
                    w > 0,
            ;
        }
    }

    /// However many pulls are made, and whoever makes them, the `n`-th of
    /// them (counting from 0) gets the record that is `n` places after the
    /// ones produced before, and nothing if there is none: no record is
    /// handed out twice and none is left out, and after the last record
    /// every pull gets nothing.
    pub proof fn lemma_pulls_are_consecutive(self, n: nat)
        requires
            self.wf(),
        ensures
            self.after_pulls(n).wf(),
            self.after_pulls(n).records() == self.records(),
            self.after_pulls(n).produced() == if self.produced() + n <= self.records().len() {
                self.produced() + n
            } else {
                self.records().len() as int
            },
            self.after_pulls(n).pulled() == if self.produced() + n < self.records().len() {
                Some(self.records()[self.produced() + n])
            } else {
                None
            },
        decreases n,
    {
        self.lemma_pull_is_next_record();
        if n == 0 {
        } else {
            self.after_pull().lemma_pulls_are_consecutive((n - 1) as nat);
        }
    }
}

/// A producer of pixel records: it walks an image once, row by row, and
/// hands out one record for each pixel.
pub struct PixelProvider {
    image: Raster,
    palette: Palette,
    initial: (u32, u32),
    current: (u32, u32),
    end: bool,
}

impl View for PixelProvider {
    type V = PixelSource;

    closed spec fn view(&self) -> PixelSource {
        PixelSource {
            image: self.image@,
            palette: self.palette@,
            origin: (self.initial.0 as int, self.initial.1 as int),
            cursor: (self.current.0 as int, self.current.1 as int),
            exhausted: self.end,
        }
    }
}

impl PixelProvider {
    #[verifier::type_invariant]
    spec fn inv(&self) -> bool {
        self@.wf()
    }

    /// Whether `(x, y)` can be the origin of a source: it must lie on the
    /// canvas. The column is looked at first, then the row.
    pub fn check_origin(x: u32, y: u32) -> (res: Result<(), OutOfRangeError>)
        ensures
            x >= MAX_WIDTH ==> res == Err::<(), _>(OutOfRangeError::XAxis),
            x < MAX_WIDTH && y >= MAX_HEIGHT ==> res == Err::<(), _>(OutOfRangeError::YAxis),
            x < MAX_WIDTH && y < MAX_HEIGHT ==> res is Ok,
    {
        if x >= MAX_WIDTH {
            return Err(OutOfRangeError::XAxis);
        }
        if y >= MAX_HEIGHT {
            return Err(OutOfRangeError::YAxis);
        }
        Ok(())
    }

    /// A source for `image` with its top left corner at `(x, y)` of the
    /// canvas, using the standard palette. It fails exactly when `(x, y)`
    /// is off the canvas, whatever the image: on `x` first, then on `y`.
    pub fn new(image: Raster, x: u32, y: u32) -> (res: Result<PixelProvider, OutOfRangeError>)
        ensures
            x >= MAX_WIDTH ==> res == Err::<PixelProvider, _>(OutOfRangeError::XAxis),
            x < MAX_WIDTH && y >= MAX_HEIGHT ==> res == Err::<PixelProvider, _>(
                OutOfRangeError::YAxis,
            ),
            x < MAX_WIDTH && y < MAX_HEIGHT ==> res is Ok && res->Ok_0@ == PixelSource::start(
                image@,
                x as int,
                y as int,
            ) && res->Ok_0@.wf(),
    {
        match Self::check_origin(x, y) {
            Err(error) => Err(error),
            Ok(()) => {
                let _ = image.dimensions();
                let palette = Palette::new();
                Ok(PixelProvider { image, palette, initial: (x, y), current: (0, 0), end: false })
            },
        }
    }

    /// The command for a record: the number `x + y * 1590 + color_id *
    /// 636000` as four bytes, least significant first.
    pub fn pack(info: PixelInfo) -> (bytes: Vec<u8>)
        ensures
            info@.encodable(),
            bytes@ == info@.encoded(),
    {
        proof {
            use_type_invariant(&info);
        }
        let value: u32 = info.x + info.y * MAX_WIDTH + SIZE * (info.color_id as u32);
        let mut bytes: Vec<u8> = Vec::new();
        bytes.push((value % 0x100) as u8);
        bytes.push(((value / 0x100) % 0x100) as u8);
        bytes.push(((value / 0x1_0000) % 0x100) as u8);
        bytes.push(((value / 0x100_0000) % 0x100) as u8);
        assert(bytes@ =~= info@.encoded());
        bytes
    }

    /// Pulls the next record, or nothing when there is none left.
    pub fn get_pixel(&mut self) -> (res: Option<PixelInfo>)
        ensures
            old(self)@.wf(),
            final(self)@.wf(),
            final(self)@ == old(self)@.after_pull(),
            match res {
                Some(info) => old(self)@.pulled() == Some(info@),
                None => old(self)@.pulled() is None,
            },
    {
        proof {
            use_type_invariant(&*self);
        }
        if self.end {
            return None;
        }
        let (width, height) = self.image.dimensions();
        let mut x: u32 = self.current.0;
        let mut y: u32 = self.current.1;
        if x >= width {
            x = 0;
            y = y + 1;
        }
        if y >= height {
            self.end = true;
            self.current = (x, y);
            return None;
        }
        if x >= width {
            self.current = (x, y);
            return None;
        }
        let color = self.image.get_pixel(x, y).unwrap();
        let id = self.palette.resolve_color_id(color.0, color.1, color.2).id;
        proof {
            assert((self.initial.1 + y) * MAX_WIDTH == (self.initial.1 + y) * 1590);
            assert((MAX_HEIGHT - 1 + (height - 1)) * MAX_WIDTH == (399 + (height - 1)) * 1590);
            assert(id * SIZE == id * 636000);
            assert(255 * SIZE == 255 * 636000);
        }
        let info = PixelInfo { x: self.initial.0 + x, y: self.initial.1 + y, color_id: id };
        self.current = (x + 1, y);
        Some(info)
    }

    /// Pulls the next record and returns its command, or nothing when there
    /// is no record left.
    pub fn get_packed_pixel(&mut self) -> (res: Option<Vec<u8>>)
        ensures
            old(self)@.wf(),
            final(self)@.wf(),
            final(self)@ == old(self)@.after_pull(),
            match res {
                Some(bytes) => old(self)@.pulled() is Some && bytes@ == old(
                    self,
                )@.pulled()->Some_0.encoded(),
                None => old(self)@.pulled() is None,
            },
    {
        let info = match self.get_pixel() {
            Some(pixel) => pixel,
            None => return None,
        };
        Some(Self::pack(info))
    }
}

} // verus!
