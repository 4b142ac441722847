//! Who is speaking: the coloured ring that a meeting application draws around a
//! speaking participant, found in the pixels of its window.
use vstd::prelude::*;

use crate::text::{comes_before, copy_texts, same_text};

verus! {

/// Time between two looks at the participants.
pub const SPEAKER_POLL_MS: u64 = 100;

/// How wide a border of a tile is looked at.
pub const BORDER_WIDTH: u32 = 8;

/// More newly coloured pixels than this mean that a ring is appearing.
pub const CHANGED_PIXELS: u64 = 200;

/// An image of four bytes per pixel, row by row: red, green, blue and alpha.
#[derive(Debug, Clone, PartialEq, Eq)]
pub struct Image {
    pub width: u32,
    pub height: u32,
    pub pixels: Vec<u8>,
}

impl Image {
    /// The image has all its pixels.
    pub open spec fn wf(&self) -> bool {
        self.pixels@.len() == self.width * self.height * 4
    }
}

/// Which part of an image to look at, in pixels; it may reach beyond the image.
#[derive(Debug, Clone, Copy, PartialEq, Eq, Structural)]
pub struct Area {
    pub left: i32,
    pub top: i32,
    pub right: i32,
    pub bottom: i32,
}

/// The tile of a participant in an image.
#[derive(Debug, Clone, PartialEq, Eq)]
pub struct PlacedTile {
    pub name: String,
    pub area: Area,
}

/// How many pixels were looked at, and how many of them are coloured.
#[derive(Debug, Clone, Copy, PartialEq, Eq, Structural)]
pub struct Counts {
    pub coloured: u64,
    pub looked: u64,
}

/// How many pixels were looked at, and how many of them are coloured.
pub struct Tally {
    pub coloured: nat,
    pub looked: nat,
}

impl View for Counts {
    type V = Tally;

    open spec fn view(&self) -> Tally {
        Tally { coloured: self.coloured as nat, looked: self.looked as nat }
    }
}

impl Tally {
    pub open spec fn zero() -> Tally {
        Tally { coloured: 0, looked: 0 }
    }

    pub open spec fn plus(self, other: Tally) -> Tally {
        Tally {
            coloured: self.coloured + other.coloured,
            looked: self.looked + other.looked,
        }
    }
}

/// The largest of three.
pub open spec fn max3(a: int, b: int, c: int) -> int {
    if a >= b && a >= c {
        a
    } else if b >= c {
        b
    } else {
        c
    }
}

/// The least of three.
pub open spec fn min3(a: int, b: int, c: int) -> int {
    if a <= b && a <= c {
        a
    } else if b <= c {
        b
    } else {
        c
    }
}

/// The colour is vivid: its components differ, and it is not too dark.
pub open spec fn saturated(r: int, g: int, b: int) -> bool {
    max3(r, g, b) - min3(r, g, b) > 35 && max3(r, g, b) > 40
}

/// Whether a colour is vivid: its components differ, and it is not too dark.
pub fn is_saturated(r: u8, g: u8, b: u8) -> (vivid: bool)
    ensures
        vivid == saturated(r as int, g as int, b as int),
{
    let mut high: u8 = r;
    if g > high {
        high = g;
    }
    if b > high {
        high = b;
    }
    let mut low: u8 = r;
    if g < low {
        low = g;
    }
    if b < low {
        low = b;
    }
    high - low > 35 && high > 40
}

/// The pixel at position `i`, counted row by row, is coloured.
pub open spec fn coloured_at(pixels: Seq<u8>, i: int) -> bool {
    saturated(pixels[4 * i] as int, pixels[4 * i + 1] as int, pixels[4 * i + 2] as int)
}

/// A look at the pixel in column `x` and row `y`; nothing is there outside the
/// image.
pub open spec fn look(image: Image, x: int, y: int) -> Tally {
    if 0 <= x < image.width && 0 <= y < image.height {
        Tally {
            coloured: if coloured_at(image.pixels@, y * image.width + x) {
                1
            } else {
                0
            },
            looked: 1,
        }
    } else {
        Tally::zero()
    }
}

/// Looks along row `y`, at every `step`-th pixel from column `x` to column `x1`.
pub open spec fn along_row(image: Image, x: int, x1: int, step: int, y: int) -> Tally
    decreases larger(x1 - x + 1, 0),
{
    if x > x1 || step <= 0 {
        Tally::zero()
    } else {
        look(image, x, y).plus(along_row(image, x + step, x1, step, y))
    }
}

/// Looks down column `x`, at every `step`-th pixel from row `y` to row `y1`.
pub open spec fn down_column(image: Image, x: int, y: int, y1: int, step: int) -> Tally
    decreases larger(y1 - y + 1, 0),
{
    if y > y1 || step <= 0 {
        Tally::zero()
    } else {
        look(image, x, y).plus(down_column(image, x, y + step, y1, step))
    }
}

/// Looks along the four sides of the rectangle that lies `inset` pixels inside the
/// one from `(x0, y0)` to `(x1, y1)`, at every second pixel.
pub open spec fn ring(image: Image, x0: int, y0: int, x1: int, y1: int, inset: int) -> Tally {
    along_row(image, x0, x1, 2, y0 + inset).plus(along_row(image, x0, x1, 2, y1 - inset)).plus(
        down_column(image, x0 + inset, y0, y1, 2),
    ).plus(down_column(image, x1 - inset, y0, y1, 2))
}

/// Looks along the first `n` rings.
pub open spec fn rings(image: Image, x0: int, y0: int, x1: int, y1: int, n: nat) -> Tally
    decreases n,
{
    if n == 0 {
        Tally::zero()
    } else {
        rings(image, x0, y0, x1, y1, (n - 1) as nat).plus(
            ring(image, x0, y0, x1, y1, n - 1),
        )
    }
}

/// Looks at every fourth pixel of every fourth row, from row `y` on.
pub open spec fn grid(image: Image, x0: int, x1: int, y: int, y1: int) -> Tally
    decreases larger(y1 - y + 1, 0),
{
    if y > y1 {
        Tally::zero()
    } else {
        along_row(image, x0, x1, 4, y).plus(grid(image, x0, x1, y + 4, y1))
    }
}

/// The larger of two numbers.
pub open spec fn larger(a: int, b: int) -> int {
    if a >= b {
        a
    } else {
        b
    }
}

/// The smaller of two numbers.
pub open spec fn smaller(a: int, b: int) -> int {
    if a <= b {
        a
    } else {
        b
    }
}

/// What is found in an area of an image, first in its border, where the ring is
/// while the camera is on, and then in all of it, where the ring is around the
/// avatar while the camera is off.
pub open spec fn samples(image: Image, area: Area) -> (Tally, Tally) {
    let x0 = larger(area.left as int, 0);
    let y0 = larger(area.top as int, 0);
    let x1 = smaller(area.right as int, image.width - 1);
    let y1 = smaller(area.bottom as int, image.height - 1);
    if x1 <= x0 || y1 <= y0 {
        (Tally::zero(), Tally::zero())
    } else {
        (
            rings(image, x0, y0, x1, y1, BORDER_WIDTH as nat),
            grid(image, x0, x1, y0, y1),
        )
    }
}

/// More than one pixel in fifty is coloured.
pub open spec fn chromatic(t: Tally) -> bool {
    50 * t.coloured > t.looked
}

/// A look finds one pixel at most.
proof fn lemma_row_bound(image: Image, x: int, x1: int, step: int, y: int)
    requires
        step > 0,
    ensures
        along_row(image, x, x1, step, y).coloured <= along_row(image, x, x1, step, y).looked,
        along_row(image, x, x1, step, y).looked <= larger(x1 - x + 1, 0),
    decreases larger(x1 - x + 1, 0),
{
    if x <= x1 {
        lemma_row_bound(image, x + step, x1, step, y);
    }
}

/// A look finds one pixel at most.
proof fn lemma_column_bound(image: Image, x: int, y: int, y1: int, step: int)
    requires
        step > 0,
    ensures
        down_column(image, x, y, y1, step).coloured <= down_column(image, x, y, y1, step).looked,
        down_column(image, x, y, y1, step).looked <= larger(y1 - y + 1, 0),
    decreases larger(y1 - y + 1, 0),
{
    if y <= y1 {
        lemma_column_bound(image, x, y + step, y1, step);
    }
}

/// There are no more looks than pixels in the rectangle.
proof fn lemma_grid_bound(image: Image, x0: int, x1: int, y: int, y1: int)
    requires
        x0 <= x1,
    ensures
        grid(image, x0, x1, y, y1).coloured <= grid(image, x0, x1, y, y1).looked,
        y <= y1 ==> grid(image, x0, x1, y, y1).looked <= (x1 - x0 + 1) * (y1 - y + 1),
        y > y1 ==> grid(image, x0, x1, y, y1).looked == 0,
    decreases larger(y1 - y + 1, 0),
{
    if y <= y1 {
        lemma_row_bound(image, x0, x1, 4, y);
        lemma_grid_bound(image, x0, x1, y + 4, y1);
        let w = x1 - x0 + 1;
        let h = y1 - y + 1;
        assert(w + w * (h - 4) <= w * h) by (nonlinear_arith)
            requires
                w >= 1,
        ;
        assert(w <= w * h) by (nonlinear_arith)
            requires
                w >= 1,
                h >= 1,
        ;
    }
}

/// The bytes of a pixel of the image are there.
proof fn lemma_pixel_in_image(image: Image, x: int, y: int)
    requires
        image.wf(),
        0 <= x < image.width,
        0 <= y < image.height,
    ensures
        0 <= y * image.width + x,
        4 * (y * image.width + x) + 3 < image.pixels@.len(),
{
    let w = image.width as int;
    let h = image.height as int;
    assert(0 <= y * w + x && 4 * (y * w + x) + 3 < w * h * 4) by (nonlinear_arith)
        requires
            0 <= x < w,
            0 <= y < h,
    ;
}

/// A look at the pixel in column `x` and row `y`.
fn look_at(image: &Image, x: i64, y: i64) -> (counts: Counts)
    requires
        image.wf(),
    ensures
        counts@ == look(*image, x as int, y as int),
{
    if x < 0 || x >= image.width as i64 || y < 0 || y >= image.height as i64 {
        return Counts { coloured: 0, looked: 0 };
    }
    let size: usize = image.pixels.len();
    let column: u64 = x as u64;
    let row: u64 = y as u64;
    proof {
        lemma_pixel_in_image(*image, column as int, row as int);
        assert(size as int == image.pixels@.len());
    }
    let i: usize = (row * image.width as u64 + column) as usize;
    let o: usize = 4 * i;
    let vivid: bool = is_saturated(image.pixels[o], image.pixels[o + 1], image.pixels[o + 2]);
    Counts {
        coloured: if vivid {
            1
        } else {
            0
        },
        looked: 1,
    }
}

/// Looks along a row.
fn count_row(image: &Image, x0: i64, x1: i64, step: i64, y: i64) -> (counts: Counts)
    requires
        image.wf(),
        0 < step <= 4,
        0 <= x0 <= x1 <= u32::MAX,
    ensures
        counts@ == along_row(*image, x0 as int, x1 as int, step as int, y as int),
        counts.coloured <= counts.looked,
        counts.looked <= x1 - x0 + 1,
{
    let mut coloured: u64 = 0;
    let mut looked: u64 = 0;
    let mut x: i64 = x0;
    let ghost whole = along_row(*image, x0 as int, x1 as int, step as int, y as int);
    proof {
        lemma_row_bound(*image, x0 as int, x1 as int, step as int, y as int);
    }
    while x <= x1
        invariant
            image.wf(),
            0 < step <= 4,
            0 <= x0 <= x,
            x <= x1 + 4,
            x1 <= u32::MAX,
            whole.coloured <= whole.looked <= x1 - x0 + 1,
            (Tally { coloured: coloured as nat, looked: looked as nat }).plus(
                along_row(*image, x as int, x1 as int, step as int, y as int),
            ) == whole,
        decreases x1 + 4 - x,
    {
        let c: Counts = look_at(image, x, y);
        coloured = coloured + c.coloured;
        looked = looked + c.looked;
        x = x + step;
    }
    Counts { coloured, looked }
}

/// Looks down a column.
fn count_column(image: &Image, x: i64, y0: i64, y1: i64, step: i64) -> (counts: Counts)
    requires
        image.wf(),
        0 < step <= 4,
        0 <= y0 <= y1 <= u32::MAX,
    ensures
        counts@ == down_column(*image, x as int, y0 as int, y1 as int, step as int),
        counts.coloured <= counts.looked,
        counts.looked <= y1 - y0 + 1,
{
    let mut coloured: u64 = 0;
    let mut looked: u64 = 0;
    let mut y: i64 = y0;
    let ghost whole = down_column(*image, x as int, y0 as int, y1 as int, step as int);
    proof {
        lemma_column_bound(*image, x as int, y0 as int, y1 as int, step as int);
    }
    while y <= y1
        invariant
            image.wf(),
            0 < step <= 4,
            0 <= y0 <= y,
            y <= y1 + 4,
            y1 <= u32::MAX,
            whole.coloured <= whole.looked <= y1 - y0 + 1,
            (Tally { coloured: coloured as nat, looked: looked as nat }).plus(
                down_column(*image, x as int, y as int, y1 as int, step as int),
            ) == whole,
        decreases y1 + 4 - y,
    {
        let c: Counts = look_at(image, x, y);
        coloured = coloured + c.coloured;
        looked = looked + c.looked;
        y = y + step;
    }
    Counts { coloured, looked }
}

/// Looks along the border of a rectangle.
fn count_border(image: &Image, x0: i64, y0: i64, x1: i64, y1: i64) -> (counts: Counts)
    requires
        image.wf(),
        0 <= x0 <= x1 <= u32::MAX,
        0 <= y0 <= y1 <= u32::MAX,
    ensures
        counts@ == rings(
            *image,
            x0 as int,
            y0 as int,
            x1 as int,
            y1 as int,
            BORDER_WIDTH as nat,
        ),
{
    let mut coloured: u64 = 0;
    let mut looked: u64 = 0;
    let mut inset: u32 = 0;
    while inset < BORDER_WIDTH
        invariant
            image.wf(),
            0 <= x0 <= x1 <= u32::MAX,
            0 <= y0 <= y1 <= u32::MAX,
            inset <= BORDER_WIDTH,
            coloured <= looked,
            looked <= inset * 0x4_0000_0000,
            (Tally { coloured: coloured as nat, looked: looked as nat }) == rings(
                *image,
                x0 as int,
                y0 as int,
                x1 as int,
                y1 as int,
                inset as nat,
            ),
        decreases BORDER_WIDTH - inset,
    {
        let d: i64 = inset as i64;
        let top: Counts = count_row(image, x0, x1, 2, y0 + d);
        let bottom: Counts = count_row(image, x0, x1, 2, y1 - d);
        let left: Counts = count_column(image, x0 + d, y0, y1, 2);
        let right: Counts = count_column(image, x1 - d, y0, y1, 2);
        coloured = coloured + top.coloured + bottom.coloured + left.coloured + right.coloured;
        looked = looked + top.looked + bottom.looked + left.looked + right.looked;
        inset = inset + 1;
    }
    Counts { coloured, looked }
}

/// Looks at every fourth pixel of every fourth row of a rectangle.
fn count_grid(image: &Image, x0: i64, y0: i64, x1: i64, y1: i64) -> (counts: Counts)
    requires
        image.wf(),
        0 <= x0 <= x1 < image.width,
        0 <= y0 <= y1 < image.height,
    ensures
        counts@ == grid(*image, x0 as int, x1 as int, y0 as int, y1 as int),
{
    let mut coloured: u64 = 0;
    let mut looked: u64 = 0;
    let mut y: i64 = y0;
    let ghost whole = grid(*image, x0 as int, x1 as int, y0 as int, y1 as int);
    let size: usize = image.pixels.len();
    proof {
        lemma_grid_bound(*image, x0 as int, x1 as int, y0 as int, y1 as int);
        let w = x1 - x0 + 1;
        let h = y1 - y0 + 1;
        let iw = image.width as int;
        let ih = image.height as int;
        assert(w * h <= iw * ih) by (nonlinear_arith)
            requires
                0 <= w <= iw,
                0 <= h <= ih,
        ;
        assert(iw * ih * 4 == size);
    }
    while y <= y1
        invariant
            image.wf(),
            0 <= x0 <= x1 < image.width,
            0 <= y0 <= y,
            y <= y1 + 4,
            y1 < image.height,
            whole.coloured <= whole.looked <= u64::MAX,
            (Tally { coloured: coloured as nat, looked: looked as nat }).plus(
                grid(*image, x0 as int, x1 as int, y as int, y1 as int),
            ) == whole,
        decreases y1 + 4 - y,
    {
        let row: Counts = count_row(image, x0, x1, 4, y);
        proof {
            lemma_grid_bound(*image, x0 as int, x1 as int, y + 4, y1 as int);
        }
        coloured = coloured + row.coloured;
        looked = looked + row.looked;
        y = y + 4;
    }
    Counts { coloured, looked }
}

/// What is found in an area of an image: in its border, and in all of it.
pub fn sample_border(image: &Image, area: Area) -> (found: (Counts, Counts))
    requires
        image.wf(),
    ensures
        (found.0@, found.1@) == samples(*image, area),
{
    let x0: i64 = if area.left >= 0 {
        area.left as i64
    } else {
        0
    };
    let y0: i64 = if area.top >= 0 {
        area.top as i64
    } else {
        0
    };
    let last_column: i64 = image.width as i64 - 1;
    let last_row: i64 = image.height as i64 - 1;
    let x1: i64 = if area.right as i64 <= last_column {
        area.right as i64
    } else {
        last_column
    };
    let y1: i64 = if area.bottom as i64 <= last_row {
        area.bottom as i64
    } else {
        last_row
    };
    if x1 <= x0 || y1 <= y0 {
        return (Counts { coloured: 0, looked: 0 }, Counts { coloured: 0, looked: 0 });
    }
    (count_border(image, x0, y0, x1, y1), count_grid(image, x0, y0, x1, y1))
}

impl Counts {
    /// Whether more than one pixel in fifty is coloured.
    pub fn is_chromatic(&self) -> (yes: bool)
        ensures
            yes == chromatic(self@),
    {
        50 * self.coloured as u128 > self.looked as u128
    }
}

/// The distance of two numbers.
pub open spec fn distance(a: int, b: int) -> int {
    if a >= b {
        a - b
    } else {
        b - a
    }
}

/// The pixel at position `i` has changed noticeably and is coloured now.
pub open spec fn newly_coloured(now: Seq<u8>, before: Seq<u8>, i: int) -> bool {
    let delta = distance(now[4 * i] as int, before[4 * i] as int) + distance(
        now[4 * i + 1] as int,
        before[4 * i + 1] as int,
    ) + distance(now[4 * i + 2] as int, before[4 * i + 2] as int);
    delta > 20 && coloured_at(now, i)
}

/// How many of the first `n` pixels are newly coloured.
pub open spec fn newly_coloured_count(now: Seq<u8>, before: Seq<u8>, n: nat) -> nat
    decreases n,
{
    if n == 0 {
        0
    } else {
        newly_coloured_count(now, before, (n - 1) as nat) + if newly_coloured(now, before, n - 1) {
            1nat
        } else {
            0nat
        }
    }
}

/// How many pixels are newly coloured; none where the images differ in size.
pub open spec fn changed(now: Seq<u8>, before: Seq<u8>) -> nat {
    if now.len() == before.len() {
        newly_coloured_count(now, before, now.len() / 4)
    } else {
        0
    }
}

/// The distance of two numbers.
fn byte_distance(a: u8, b: u8) -> (d: u32)
    ensures
        d == distance(a as int, b as int),
        d <= 255,
{
    if a >= b {
        (a - b) as u32
    } else {
        (b - a) as u32
    }
}

/// How many pixels are newly coloured since the image before; none where the images
/// differ in size.
pub fn changed_pixels(now: &Vec<u8>, before: &Vec<u8>) -> (count: u64)
    ensures
        count == changed(now@, before@),
{
    if now.len() != before.len() {
        return 0;
    }
    let n: usize = now.len() / 4;
    let mut count: u64 = 0;
    let mut i: usize = 0;
    while i < n
        invariant
            i <= n,
            n == now@.len() / 4,
            now@.len() == before@.len(),
            now@.len() <= usize::MAX,
            count <= i,
            count == newly_coloured_count(now@, before@, i as nat),
        decreases n - i,
    {
        let o: usize = 4 * i;
        let delta: u32 = byte_distance(now[o], before[o]) + byte_distance(
            now[o + 1],
            before[o + 1],
        ) + byte_distance(now[o + 2], before[o + 2]);
        let vivid: bool = is_saturated(now[o], now[o + 1], now[o + 2]);
        if delta > 20 && vivid {
            count = count + 1;
        }
        i = i + 1;
    }
    count
}

/// A participant is speaking: there is a coloured ring at the tile, or one is
/// appearing somewhere in the window.
pub open spec fn speaking(found: (Tally, Tally), changed: nat) -> bool {
    chromatic(found.0) || chromatic(found.1) || changed > CHANGED_PIXELS
}

/// Whether a participant is speaking, from what is found at the tile and from how
/// many pixels of the window are newly coloured.
pub fn is_speaking(border: Counts, whole: Counts, changed: u64) -> (yes: bool)
    ensures
        yes == speaking((border@, whole@), changed as nat),
{
    border.is_chromatic() || whole.is_chromatic() || changed > CHANGED_PIXELS
}

/// The names of those who are speaking, in the order of their tiles.
pub open spec fn speaking_names(image: Image, tiles: Seq<PlacedTile>, changed: nat) -> Seq<
    Seq<char>,
>
    decreases tiles.len(),
{
    if tiles.len() == 0 {
        Seq::empty()
    } else {
        let before = speaking_names(image, tiles.drop_last(), changed);
        if speaking(samples(image, tiles.last().area), changed) {
            before.push(tiles.last().name@)
        } else {
            before
        }
    }
}

/// Looks at one image of a meeting window after the other.
#[derive(Debug)]
pub struct SpeakerProbe {
    previous: Vec<u8>,
}

impl View for SpeakerProbe {
    type V = Seq<u8>;

    /// The pixels of the image before; empty at first.
    closed spec fn view(&self) -> Seq<u8> {
        self.previous@
    }
}

impl SpeakerProbe {
    /// A probe that has seen no image.
    pub fn new() -> (probe: SpeakerProbe)
        ensures
            probe@ == Seq::<u8>::empty(),
    {
        SpeakerProbe { previous: Vec::new() }
    }

    /// Takes in the next image, with the tiles that stand in it. Returns the names of
    /// those who are speaking.
    pub fn probe_once(&mut self, image: Image, tiles: &Vec<PlacedTile>) -> (speakers: Vec<String>)
        requires
            image.wf(),
        ensures
            final(self)@ == image.pixels@,
            crate::text::texts(speakers@) == speaking_names(
                image,
                tiles@,
                changed(image.pixels@, old(self)@),
            ),
            crate::text::texts(speakers@) == tiles@.filter(
                |t: PlacedTile|
                    speaking(samples(image, t.area), changed(image.pixels@, old(self)@)),
            ).map_values(|t: PlacedTile| t.name@),
    {
        let ghost differing = changed(image.pixels@, self@);
        let changed: u64 = changed_pixels(&image.pixels, &self.previous);
        let mut speakers: Vec<String> = Vec::new();
        let mut i: usize = 0;
        proof {
            assert(crate::text::texts(speakers@) =~= Seq::<Seq<char>>::empty());
        }
        while i < tiles.len()
            invariant
                image.wf(),
                i <= tiles@.len(),
                crate::text::texts(speakers@) == speaking_names(
                    image,
                    tiles@.take(i as int),
                    changed as nat,
                ),
            decreases tiles@.len() - i,
        {
            let found: (Counts, Counts) = sample_border(&image, tiles[i].area);
            let ghost before = speakers@;
            if is_speaking(found.0, found.1, changed) {
                speakers.push(tiles[i].name.clone());
            }
            proof {
                assert(tiles@.take(i + 1).drop_last() =~= tiles@.take(i as int));
                if speakers@.len() > before.len() {
                    assert(crate::text::texts(speakers@) =~= crate::text::texts(before).push(
                        tiles@[i as int].name@,
                    ));
                }
            }
            i = i + 1;
        }
        proof {
            assert(tiles@.take(tiles@.len() as int) =~= tiles@);
            law_every_speaker_is_named(image, tiles@, differing);
        }
        self.previous = image.pixels;
        speakers
    }
}

/// The texts stand in order, none of them twice.
pub open spec fn in_order(list: Seq<Seq<char>>) -> bool {
    forall|i: int, j: int|
        0 <= i < j < list.len() ==> crate::text::text_less(#[trigger] list[i], #[trigger] list[j])
}

/// The two lists hold the same texts.
pub open spec fn same_texts(a: Seq<Seq<char>>, b: Seq<Seq<char>>) -> bool {
    forall|t: Seq<char>| #[trigger] a.contains(t) <==> b.contains(t)
}

/// The list holds the texts of `names`, in order and each of them once.
pub open spec fn set_of(list: Seq<Seq<char>>, names: Seq<Seq<char>>) -> bool {
    in_order(list) && same_texts(list, names)
}

/// Lists in order that hold the same texts are the same: what is reported does not
/// depend on the order in which the tiles were found.
pub proof fn law_order_is_unique(a: Seq<Seq<char>>, b: Seq<Seq<char>>)
    requires
        in_order(a),
        in_order(b),
        same_texts(a, b),
    ensures
        a == b,
    decreases a.len(),
{
    if a.len() == 0 {
        if b.len() > 0 {
            assert(b.contains(b[0]));
            assert(a.contains(b[0]));
        }
        assert(a =~= b);
    } else {
        let x = a.last();
        assert(a[a.len() - 1] == x);
        assert(a.contains(x));
        assert(b.contains(x));
        let y = b.last();
        assert(b[b.len() - 1] == y);
        assert(b.contains(y));
        assert(a.contains(y));
        let i = choose|i: int| 0 <= i < a.len() && a[i] == y;
        let j = choose|j: int| 0 <= j < b.len() && b[j] == x;
        if x != y {
            assert(crate::text::text_less(a[i], a[a.len() - 1]));
            assert(crate::text::text_less(b[j], b[b.len() - 1]));
            crate::text::lemma_less_transitive(x, y, x);
            crate::text::lemma_less_irreflexive(x);
        }
        let c = a.drop_last();
        let d = b.drop_last();
        assert forall|t: Seq<char>| #[trigger] c.contains(t) <==> d.contains(t) by {
            lemma_without_last(a, t);
            lemma_without_last(b, t);
        }
        assert forall|p: int, q: int| 0 <= p < q < c.len() implies crate::text::text_less(
            #[trigger] c[p],
            #[trigger] c[q],
        ) by {
            assert(c[p] == a[p] && c[q] == a[q]);
        }
        assert forall|p: int, q: int| 0 <= p < q < d.len() implies crate::text::text_less(
            #[trigger] d[p],
            #[trigger] d[q],
        ) by {
            assert(d[p] == b[p] && d[q] == b[q]);
        }
        law_order_is_unique(c, d);
        assert(a =~= c.push(x));
        assert(b =~= d.push(y));
    }
}

/// Without its last text a list in order holds all others.
proof fn lemma_without_last(a: Seq<Seq<char>>, t: Seq<char>)
    requires
        in_order(a),
        a.len() > 0,
    ensures
        a.drop_last().contains(t) <==> a.contains(t) && t != a.last(),
{
    let c = a.drop_last();
    if c.contains(t) {
        let i = choose|i: int| 0 <= i < c.len() && c[i] == t;
        assert(a[i] == t);
        assert(crate::text::text_less(a[i], a[a.len() - 1]));
        crate::text::lemma_less_irreflexive(t);
    }
    if a.contains(t) && t != a.last() {
        let i = choose|i: int| 0 <= i < a.len() && a[i] == t;
        assert(c[i] == t);
    }
}

/// Puts a name into a list in order, unless it is in it.
fn insert_name(list: &mut Vec<String>, name: &String)
    requires
        in_order(crate::text::texts(old(list)@)),
    ensures
        in_order(crate::text::texts(final(list)@)),
        forall|t: Seq<char>| #[trigger]
            crate::text::texts(final(list)@).contains(t) <==> crate::text::texts(
                old(list)@,
            ).contains(t) || t == name@,
{
    let ghost a = crate::text::texts(list@);
    let mut i: usize = 0;
    while i < list.len() && comes_before(list[i].as_str(), name.as_str())
        invariant
            a == crate::text::texts(list@),
            list@ == old(list)@,
            i <= list@.len(),
            forall|k: int| 0 <= k < i ==> crate::text::text_less(#[trigger] a[k], name@),
        decreases list@.len() - i,
    {
        proof {
            assert(a[i as int] == list@[i as int]@);
        }
        i = i + 1;
    }
    if i < list.len() && same_text(list[i].as_str(), name.as_str()) {
        proof {
            assert(a[i as int] == name@);
            assert(a.contains(name@));
        }
        return;
    }
    list.insert(i, name.clone());
    proof {
        let b = crate::text::texts(list@);
        assert(b =~= a.insert(i as int, name@));
        if i < a.len() {
            assert(a[i as int] == old(list)@[i as int]@);
            crate::text::lemma_less_total(a[i as int], name@);
        }
        assert forall|k: int| i <= k < a.len() implies crate::text::text_less(
            name@,
            #[trigger] a[k],
        ) by {
            if k > i {
                assert(crate::text::text_less(a[i as int], a[k]));
                crate::text::lemma_less_transitive(name@, a[i as int], a[k]);
            }
        }
        assert forall|p: int, q: int| 0 <= p < q < b.len() implies crate::text::text_less(
            #[trigger] b[p],
            #[trigger] b[q],
        ) by {
            let pa = if p < i {
                p
            } else {
                p - 1
            };
            let qa = if q < i {
                q
            } else {
                q - 1
            };
            if p != i && q != i {
                assert(b[p] == a[pa] && b[q] == a[qa]);
                assert(crate::text::text_less(a[pa], a[qa]));
            } else if p == i {
                assert(b[q] == a[qa]);
            } else {
                assert(b[p] == a[pa]);
            }
        }
        assert forall|t: Seq<char>| #[trigger] b.contains(t) <==> a.contains(t) || t == name@ by {
            if b.contains(t) {
                let k = choose|k: int| 0 <= k < b.len() && b[k] == t;
                if k < i {
                    assert(a[k] == t);
                } else if k > i {
                    assert(a[k - 1] == t);
                }
            }
            if a.contains(t) {
                let k = choose|k: int| 0 <= k < a.len() && a[k] == t;
                if k < i {
                    assert(b[k] == t);
                } else {
                    assert(b[k + 1] == t);
                }
            }
            if t == name@ {
                assert(b[i as int] == t);
            }
        }
    }
}

/// The names, in order and each of them once.
pub fn ordered_names(names: &Vec<String>) -> (list: Vec<String>)
    ensures
        set_of(crate::text::texts(list@), crate::text::texts(names@)),
        forall|t: Seq<char>| #[trigger]
            crate::text::texts(list@).contains(t) <==> crate::text::texts(names@).contains(t),
        forall|i: int, j: int|
            0 <= i < j < list@.len() ==> crate::text::text_less(
                #[trigger] list@[i]@,
                #[trigger] list@[j]@,
            ),
{
    let mut list: Vec<String> = Vec::new();
    let mut i: usize = 0;
    let ghost all = crate::text::texts(names@);
    while i < names.len()
        invariant
            i <= names@.len(),
            all == crate::text::texts(names@),
            in_order(crate::text::texts(list@)),
            forall|t: Seq<char>| #[trigger]
                crate::text::texts(list@).contains(t) <==> all.take(i as int).contains(t),
        decreases names@.len() - i,
    {
        insert_name(&mut list, &names[i]);
        proof {
            assert forall|t: Seq<char>| #[trigger]
                crate::text::texts(list@).contains(t) <==> all.take(i + 1).contains(t) by {
                let x = all.take(i as int);
                let y = all.take(i + 1);
                assert(all[i as int] == names@[i as int]@);
                if y.contains(t) {
                    let k = choose|k: int| 0 <= k < y.len() && y[k] == t;
                    if k < i {
                        assert(x[k] == t);
                    }
                }
                if x.contains(t) {
                    let k = choose|k: int| 0 <= k < x.len() && x[k] == t;
                    assert(y[k] == t);
                }
                if t == names@[i as int]@ {
                    assert(y[i as int] == t);
                }
            }
        }
        i = i + 1;
    }
    proof {
        assert(all.take(all.len() as int) =~= all);
        let texts = crate::text::texts(list@);
        assert forall|i: int, j: int| 0 <= i < j < list@.len() implies crate::text::text_less(
            #[trigger] list@[i]@,
            #[trigger] list@[j]@,
        ) by {
            assert(texts[i] == list@[i]@ && texts[j] == list@[j]@);
        }
    }
    list
}

/// Whether two lists of texts are the same.
fn same_lists(a: &Vec<String>, b: &Vec<String>) -> (same: bool)
    ensures
        same == (crate::text::texts(a@) == crate::text::texts(b@)),
{
    let ghost x = crate::text::texts(a@);
    let ghost y = crate::text::texts(b@);
    proof {
        assert(x.len() == a@.len() && y.len() == b@.len());
    }
    if a.len() != b.len() {
        return false;
    }
    let mut i: usize = 0;
    while i < a.len()
        invariant
            i <= a@.len(),
            a@.len() == b@.len(),
            x == crate::text::texts(a@),
            y == crate::text::texts(b@),
            forall|k: int| 0 <= k < i ==> #[trigger] x[k] == y[k],
        decreases a@.len() - i,
    {
        if !same_text(a[i].as_str(), b[i].as_str()) {
            proof {
                assert(x[i as int] != y[i as int]);
            }
            return false;
        }
        i = i + 1;
    }
    proof {
        assert(x =~= y);
    }
    true
}

/// Reports who is speaking whenever that changes.
#[derive(Debug)]
pub struct SpeakerWatcher {
    last: Vec<String>,
}

impl View for SpeakerWatcher {
    type V = Seq<Seq<char>>;

    /// Who was speaking at the last look, in order.
    closed spec fn view(&self) -> Seq<Seq<char>> {
        crate::text::texts(self.last@)
    }
}

impl SpeakerWatcher {
    /// A watcher; nobody is speaking at first.
    pub fn start() -> (watcher: SpeakerWatcher)
        ensures
            watcher@ == Seq::<Seq<char>>::empty(),
            in_order(watcher@),
    {
        let watcher = SpeakerWatcher { last: Vec::new() };
        proof {
            assert(watcher@ =~= Seq::<Seq<char>>::empty());
        }
        watcher
    }

    /// Takes in who is speaking now. Returns them, in order and each once, if they are
    /// others than at the last look.
    pub fn observe(&mut self, speakers: &Vec<String>) -> (change: Option<Vec<String>>)
        requires
            in_order(old(self)@),
        ensures
            in_order(final(self)@),
            set_of(final(self)@, crate::text::texts(speakers@)),
            match change {
                Some(list) => final(self)@ != old(self)@ && crate::text::texts(list@) == final(
                    self)@,
                None => final(self)@ == old(self)@,
            },
            forall|t: Seq<char>| #[trigger]
                final(self)@.contains(t) <==> crate::text::texts(speakers@).contains(t),
            change is None <==> (forall|t: Seq<char>| #[trigger]
                old(self)@.contains(t) <==> crate::text::texts(speakers@).contains(t)),
            change matches Some(list) ==> forall|t: Seq<char>| #[trigger]
                crate::text::texts(list@).contains(t) <==> crate::text::texts(speakers@).contains(t),
    {
        let now: Vec<String> = ordered_names(speakers);
        proof {
            law_report_tells_change(
                self@,
                crate::text::texts(now@),
                crate::text::texts(speakers@),
            );
        }
        if same_lists(&now, &self.last) {
            return None;
        }
        let list: Vec<String> = copy_texts(&now);
        self.last = now;
        Some(list)
    }
}

/// A change is reported exactly if the set of those who are speaking has changed;
/// in which order and how often they were named plays no part.
pub proof fn law_report_tells_change(
    before: Seq<Seq<char>>,
    after: Seq<Seq<char>>,
    names: Seq<Seq<char>>,
)
    requires
        in_order(before),
        set_of(after, names),
    ensures
        before == after <==> same_texts(before, names),
{
    if same_texts(before, names) {
        assert(same_texts(before, after));
        law_order_is_unique(before, after);
    }
}

/// Of the pixels along a row none is coloured where the image has no coloured pixel.
proof fn lemma_row_colourless(image: Image, x: int, x1: int, step: int, y: int)
    requires
        colourless(image),
    ensures
        along_row(image, x, x1, step, y).coloured == 0,
    decreases larger(x1 - x + 1, 0),
{
    if x <= x1 && step > 0 {
        lemma_look_colourless(image, x, y);
        lemma_row_colourless(image, x + step, x1, step, y);
    }
}

/// Of the pixels down a column none is coloured where the image has no coloured pixel.
proof fn lemma_column_colourless(image: Image, x: int, y: int, y1: int, step: int)
    requires
        colourless(image),
    ensures
        down_column(image, x, y, y1, step).coloured == 0,
    decreases larger(y1 - y + 1, 0),
{
    if y <= y1 && step > 0 {
        lemma_look_colourless(image, x, y);
        lemma_column_colourless(image, x, y + step, y1, step);
    }
}

/// A look finds nothing coloured where the image has no coloured pixel.
proof fn lemma_look_colourless(image: Image, x: int, y: int)
    requires
        colourless(image),
    ensures
        look(image, x, y).coloured == 0,
{
    if 0 <= x < image.width && 0 <= y < image.height {
        let w = image.width as int;
        let h = image.height as int;
        assert(0 <= y * w + x < w * h) by (nonlinear_arith)
            requires
                0 <= x < w,
                0 <= y < h,
        ;
        assert(!coloured_at(image.pixels@, y * w + x));
    }
}

/// The rings have no coloured pixel where the image has none.
proof fn lemma_rings_colourless(image: Image, x0: int, y0: int, x1: int, y1: int, n: nat)
    requires
        colourless(image),
    ensures
        rings(image, x0, y0, x1, y1, n).coloured == 0,
    decreases n,
{
    if n > 0 {
        let inset = n - 1;
        lemma_rings_colourless(image, x0, y0, x1, y1, (n - 1) as nat);
        lemma_row_colourless(image, x0, x1, 2, y0 + inset);
        lemma_row_colourless(image, x0, x1, 2, y1 - inset);
        lemma_column_colourless(image, x0 + inset, y0, y1, 2);
        lemma_column_colourless(image, x1 - inset, y0, y1, 2);
    }
}

/// The grid has no coloured pixel where the image has none.
proof fn lemma_grid_colourless(image: Image, x0: int, x1: int, y: int, y1: int)
    requires
        colourless(image),
    ensures
        grid(image, x0, x1, y, y1).coloured == 0,
    decreases larger(y1 - y + 1, 0),
{
    if y <= y1 {
        lemma_row_colourless(image, x0, x1, 4, y);
        lemma_grid_colourless(image, x0, x1, y + 4, y1);
    }
}

/// No pixel of the image is coloured.
pub open spec fn colourless(image: Image) -> bool {
    forall|i: int|
        0 <= i < image.width * image.height ==> !#[trigger] coloured_at(image.pixels@, i)
}

/// In an image without colour nobody is speaking, as long as no more pixels have
/// changed than those of a ring that has just appeared.
pub proof fn law_no_colour_no_speaker(image: Image, tiles: Seq<PlacedTile>, changed: nat)
    requires
        colourless(image),
        changed <= CHANGED_PIXELS,
    ensures
        speaking_names(image, tiles, changed).len() == 0,
    decreases tiles.len(),
{
    if tiles.len() > 0 {
        let area = tiles.last().area;
        law_no_colour_no_speaker(image, tiles.drop_last(), changed);
        let x0 = larger(area.left as int, 0);
        let y0 = larger(area.top as int, 0);
        let x1 = smaller(area.right as int, image.width - 1);
        let y1 = smaller(area.bottom as int, image.height - 1);
        lemma_rings_colourless(image, x0, y0, x1, y1, BORDER_WIDTH as nat);
        lemma_grid_colourless(image, x0, x1, y0, y1);
    }
}

/// Whoever is speaking has a tile.
pub proof fn law_speakers_have_tiles(image: Image, tiles: Seq<PlacedTile>, changed: nat, i: int)
    requires
        0 <= i < speaking_names(image, tiles, changed).len(),
    ensures
        exists|k: int|
            0 <= k < tiles.len() && (#[trigger] tiles[k]).name@ == speaking_names(
                image,
                tiles,
                changed,
            )[i],
    decreases tiles.len(),
{
    if tiles.len() > 0 {
        let before = tiles.drop_last();
        let names = speaking_names(image, before, changed);
        if i < names.len() {
            law_speakers_have_tiles(image, before, changed, i);
            let k = choose|k: int|
                0 <= k < before.len() && (#[trigger] before[k]).name@ == names[i];
            assert(tiles[k] == before[k]);
        } else {
            assert(tiles[tiles.len() - 1] == tiles.last());
        }
    }
}

/// A colour is vivid exactly where two of its components lie more than 35 apart and one
/// of them is larger than 40.
pub proof fn law_vivid_colour(r: int, g: int, b: int)
    ensures
        saturated(r, g, b) <==> (r - g > 35 || g - r > 35 || r - b > 35 || b - r > 35 || g - b > 35
            || b - g > 35) && (r > 40 || g > 40 || b > 40),
{
}

/// A look at a pixel of the image counts it once, and counts it as coloured where the
/// three bytes that begin at its place, row by row and four to a pixel, are a vivid
/// colour; a look elsewhere counts nothing.
pub proof fn law_look_counts_the_pixel(image: Image, x: int, y: int)
    ensures
        0 <= x < image.width && 0 <= y < image.height ==> {
            let o = 4 * (y * image.width + x);
            let p = image.pixels@;
            &&& look(image, x, y).looked == 1
            &&& saturated(p[o] as int, p[o + 1] as int, p[o + 2] as int) ==> look(
                image,
                x,
                y,
            ).coloured == 1
            &&& !saturated(p[o] as int, p[o + 1] as int, p[o + 2] as int) ==> look(
                image,
                x,
                y,
            ).coloured == 0
        },
        !(0 <= x < image.width && 0 <= y < image.height) ==> look(image, x, y).looked == 0 && look(
            image,
            x,
            y,
        ).coloured == 0,
{
}

/// Looks along a row add up: those at the first `k` pixels and those from there on are
/// those along all of it. A row of one pixel is a look at it, and behind the end of a row
/// there is nothing.
pub proof fn law_rows_add_up(image: Image, x: int, x1: int, step: int, y: int, k: nat)
    requires
        step > 0,
        x + k * step <= x1 + 1,
    ensures
        ({
            let whole = along_row(image, x, x1, step, y);
            let first = along_row(image, x, x + k * step - 1, step, y);
            let second = along_row(image, x + k * step, x1, step, y);
            &&& whole.looked == first.looked + second.looked
            &&& whole.coloured == first.coloured + second.coloured
        }),
        along_row(image, x, x, step, y) == look(image, x, y),
        x > x1 ==> along_row(image, x, x1, step, y).looked == 0 && along_row(
            image,
            x,
            x1,
            step,
            y,
        ).coloured == 0,
    decreases k,
{
    assert(along_row(image, x + step, x, step, y) == Tally::zero());
    if k > 0 {
        assert(x + k * step == (x + step) + (k - 1) * step && k * step >= step) by (nonlinear_arith)
            requires
                k >= 1,
                step > 0,
        ;
        law_rows_add_up(image, x + step, x1, step, y, (k - 1) as nat);
    } else {
        assert(k * step == 0) by (nonlinear_arith)
            requires
                k == 0,
        ;
    }
}

/// Looks down a column add up as those along a row do.
pub proof fn law_columns_add_up(image: Image, x: int, y: int, y1: int, step: int, k: nat)
    requires
        step > 0,
        y + k * step <= y1 + 1,
    ensures
        ({
            let whole = down_column(image, x, y, y1, step);
            let first = down_column(image, x, y, y + k * step - 1, step);
            let second = down_column(image, x, y + k * step, y1, step);
            &&& whole.looked == first.looked + second.looked
            &&& whole.coloured == first.coloured + second.coloured
        }),
        down_column(image, x, y, y, step) == look(image, x, y),
        y > y1 ==> down_column(image, x, y, y1, step).looked == 0 && down_column(
            image,
            x,
            y,
            y1,
            step,
        ).coloured == 0,
    decreases k,
{
    assert(down_column(image, x, y + step, y, step) == Tally::zero());
    if k > 0 {
        assert(y + k * step == (y + step) + (k - 1) * step && k * step >= step) by (nonlinear_arith)
            requires
                k >= 1,
                step > 0,
        ;
        law_columns_add_up(image, x, y + step, y1, step, (k - 1) as nat);
    } else {
        assert(k * step == 0) by (nonlinear_arith)
            requires
                k == 0,
        ;
    }
}

/// What is looked at in an area: the area is cut to the image, and where less than two
/// pixels are left of its width or of its height nothing is looked at. Otherwise the
/// border is eight rings, each of every second pixel of two rows and two columns that lie
/// one pixel further inside than those before; and the whole is every fourth pixel of
/// every fourth row.
pub proof fn law_area_is_looked_at(image: Image, area: Area, d: nat, y: int)
    ensures
        ({
            let x0 = if area.left < 0 {
                0
            } else {
                area.left as int
            };
            let y0 = if area.top < 0 {
                0
            } else {
                area.top as int
            };
            let x1 = if area.right < image.width {
                area.right as int
            } else {
                image.width - 1
            };
            let y1 = if area.bottom < image.height {
                area.bottom as int
            } else {
                image.height - 1
            };
            &&& x1 <= x0 || y1 <= y0 ==> samples(image, area).0.looked == 0 && samples(
                image,
                area,
            ).1.looked == 0 && samples(image, area).0.coloured == 0 && samples(
                image,
                area,
            ).1.coloured == 0
            &&& x1 > x0 && y1 > y0 ==> samples(image, area).0 == rings(image, x0, y0, x1, y1, 8)
                && samples(image, area).1 == grid(image, x0, x1, y0, y1)
            &&& rings(image, x0, y0, x1, y1, 0).looked == 0
            &&& rings(image, x0, y0, x1, y1, 0).coloured == 0
            &&& rings(image, x0, y0, x1, y1, d + 1).looked == rings(
                image,
                x0,
                y0,
                x1,
                y1,
                d,
            ).looked + along_row(image, x0, x1, 2, y0 + d).looked + along_row(
                image,
                x0,
                x1,
                2,
                y1 - d,
            ).looked + down_column(image, x0 + d, y0, y1, 2).looked + down_column(
                image,
                x1 - d,
                y0,
                y1,
                2,
            ).looked
            &&& rings(image, x0, y0, x1, y1, d + 1).coloured == rings(
                image,
                x0,
                y0,
                x1,
                y1,
                d,
            ).coloured + along_row(image, x0, x1, 2, y0 + d).coloured + along_row(
                image,
                x0,
                x1,
                2,
                y1 - d,
            ).coloured + down_column(image, x0 + d, y0, y1, 2).coloured + down_column(
                image,
                x1 - d,
                y0,
                y1,
                2,
            ).coloured
            &&& y > y1 ==> grid(image, x0, x1, y, y1).looked == 0 && grid(
                image,
                x0,
                x1,
                y,
                y1,
            ).coloured == 0
            &&& y <= y1 ==> grid(image, x0, x1, y, y1).looked == along_row(
                image,
                x0,
                x1,
                4,
                y,
            ).looked + grid(image, x0, x1, y + 4, y1).looked
            &&& y <= y1 ==> grid(image, x0, x1, y, y1).coloured == along_row(
                image,
                x0,
                x1,
                4,
                y,
            ).coloured + grid(image, x0, x1, y + 4, y1).coloured
        }),
{
}

/// Somebody is speaking exactly where more than one in fifty of the pixels that were
/// looked at is coloured, in the border or in the whole, or where more than 200 pixels of
/// the window are newly coloured.
pub proof fn law_speaking_is_more_than_one_in_fifty(found: (Tally, Tally), changed: nat)
    ensures
        speaking(found, changed) <==> 50 * found.0.coloured > found.0.looked || 50
            * found.1.coloured > found.1.looked || changed > 200,
{
}

/// Whoever has a tile that shows a ring is named, whatever the other tiles show, once for
/// each such tile and in the order of the tiles; and nobody else is.
pub proof fn law_every_speaker_is_named(image: Image, tiles: Seq<PlacedTile>, changed: nat)
    ensures
        ({
            let names = speaking_names(image, tiles, changed);
            let shows = |t: PlacedTile| speaking(samples(image, t.area), changed);
            &&& names == tiles.filter(shows).map_values(|t: PlacedTile| t.name@)
            &&& names.len() == tiles.filter(shows).len()
            &&& forall|k: int|
                0 <= k < tiles.len() && speaking(samples(image, (#[trigger] tiles[k]).area), changed)
                    ==> names.contains(tiles[k].name@)
        }),
    decreases tiles.len(),
{
    reveal(Seq::filter);
    let names = speaking_names(image, tiles, changed);
    let shows = |t: PlacedTile| speaking(samples(image, t.area), changed);
    let name = |t: PlacedTile| t.name@;
    if tiles.len() > 0 {
        let first = tiles.drop_last();
        law_every_speaker_is_named(image, first, changed);
        let before = speaking_names(image, first, changed);
        if shows(tiles.last()) {
            assert(tiles.filter(shows) == first.filter(shows).push(tiles.last()));
            assert(tiles.filter(shows).map_values(name) =~= before.push(tiles.last().name@));
        } else {
            assert(tiles.filter(shows) == first.filter(shows));
        }
        assert forall|k: int|
            0 <= k < tiles.len() && speaking(
                samples(image, (#[trigger] tiles[k]).area),
                changed,
            ) implies names.contains(tiles[k].name@) by {
            if k < first.len() {
                assert(first[k] == tiles[k]);
                let i = choose|i: int| 0 <= i < before.len() && before[i] == tiles[k].name@;
                assert(names[i] == tiles[k].name@);
            } else {
                assert(names[names.len() - 1] == tiles[k].name@);
            }
        }
    } else {
        assert(tiles.filter(shows).map_values(name) =~= names);
    }
}

/// Who is speaking is told tile by tile: those of one list of tiles and then those of
/// another are those of both lists, and of a single tile it is its own area that tells.
pub proof fn law_tiles_do_not_touch_each_other(
    image: Image,
    first: Seq<PlacedTile>,
    second: Seq<PlacedTile>,
    tile: PlacedTile,
    changed: nat,
)
    ensures
        speaking_names(image, first + second, changed) == speaking_names(image, first, changed)
            + speaking_names(image, second, changed),
        speaking(samples(image, tile.area), changed) ==> speaking_names(image, seq![tile], changed)
            == seq![tile.name@],
        !speaking(samples(image, tile.area), changed) ==> speaking_names(
            image,
            seq![tile],
            changed,
        ).len() == 0,
    decreases second.len(),
{
    assert(seq![tile].drop_last() =~= Seq::<PlacedTile>::empty());
    assert(speaking_names(image, Seq::<PlacedTile>::empty(), changed) =~= Seq::<Seq<char>>::empty());
    assert(seq![tile].last() == tile);
    if speaking(samples(image, tile.area), changed) {
        assert(speaking_names(image, seq![tile], changed) =~= seq![tile.name@]);
    }
    if second.len() == 0 {
        assert(first + second =~= first);
        assert(speaking_names(image, first, changed) + speaking_names(image, second, changed)
            =~= speaking_names(image, first, changed));
    } else {
        law_tiles_do_not_touch_each_other(image, first, second.drop_last(), tile, changed);
        assert((first + second).drop_last() =~= first + second.drop_last());
        assert(speaking_names(image, first + second, changed) =~= speaking_names(
            image,
            first,
            changed,
        ) + speaking_names(image, second, changed));
    }
}

/// Every pixel along the row is coloured: each look finds one.
proof fn lemma_row_coloured(image: Image, x: int, x1: int, y: int)
    requires
        0 <= x,
        x1 < image.width,
        0 <= y < image.height,
        forall|u: int|
            x <= u <= x1 ==> #[trigger] coloured_at(image.pixels@, y * image.width + u),
    ensures
        along_row(image, x, x1, 2, y).coloured == along_row(image, x, x1, 2, y).looked,
        x <= x1 ==> along_row(image, x, x1, 2, y).looked > 0,
    decreases larger(x1 - x + 1, 0),
{
    if x <= x1 {
        assert(coloured_at(image.pixels@, y * image.width + x));
        lemma_row_coloured(image, x + 2, x1, y);
    }
}

/// Every pixel down the column is coloured: each look finds one.
proof fn lemma_column_coloured(image: Image, x: int, y: int, y1: int)
    requires
        0 <= y,
        y1 < image.height,
        0 <= x < image.width,
        forall|v: int|
            y <= v <= y1 ==> #[trigger] coloured_at(image.pixels@, v * image.width + x),
    ensures
        down_column(image, x, y, y1, 2).coloured == down_column(image, x, y, y1, 2).looked,
    decreases larger(y1 - y + 1, 0),
{
    if y <= y1 {
        assert(coloured_at(image.pixels@, y * image.width + x));
        lemma_column_coloured(image, x, y + 2, y1);
    }
}

/// Along no row more is looked at than along one of the image.
proof fn lemma_rows_alike(image: Image, x: int, x1: int, y: int, other: int)
    requires
        0 <= y < image.height,
    ensures
        along_row(image, x, x1, 2, other).looked <= along_row(image, x, x1, 2, y).looked,
    decreases larger(x1 - x + 1, 0),
{
    if x <= x1 {
        lemma_rows_alike(image, x + 2, x1, y, other);
    }
}

/// Down no column more is looked at than down one of the image.
proof fn lemma_columns_alike(image: Image, x: int, other: int, y: int, y1: int)
    requires
        0 <= x < image.width,
    ensures
        down_column(image, other, y, y1, 2).looked <= down_column(image, x, y, y1, 2).looked,
    decreases larger(y1 - y + 1, 0),
{
    if y <= y1 {
        lemma_columns_alike(image, x, other, y + 2, y1);
    }
}

/// In `n` rings there is no more to look at than `n` times in the outermost.
proof fn lemma_outer_ring_is_largest(image: Image, x0: int, y0: int, x1: int, y1: int, n: nat)
    requires
        0 <= x0 < x1 < image.width,
        0 <= y0 < y1 < image.height,
    ensures
        rings(image, x0, y0, x1, y1, n).looked <= n * ring(image, x0, y0, x1, y1, 0).looked,
        n >= 1 ==> rings(image, x0, y0, x1, y1, n).coloured >= ring(
            image,
            x0,
            y0,
            x1,
            y1,
            0,
        ).coloured,
    decreases n,
{
    let outer = ring(image, x0, y0, x1, y1, 0).looked;
    if n > 0 {
        let d = n - 1;
        lemma_outer_ring_is_largest(image, x0, y0, x1, y1, (n - 1) as nat);
        lemma_rows_alike(image, x0, x1, y0, y0 + d);
        lemma_rows_alike(image, x0, x1, y1, y1 - d);
        lemma_columns_alike(image, x0, x0 + d, y0, y1);
        lemma_columns_alike(image, x1, x1 - d, y0, y1);
        assert(ring(image, x0, y0, x1, y1, d).looked <= outer);
        assert((n - 1) * outer + outer == n * outer) by (nonlinear_arith);
    }
}

/// A participant whose tile has a ring around it is found to be speaking: where every
/// pixel on the outline of the area is coloured, whatever else the window shows.
pub proof fn law_ring_makes_a_speaker(image: Image, area: Area, changed: nat)
    requires
        0 <= area.left < area.right < image.width,
        0 <= area.top < area.bottom < image.height,
        forall|x: int, y: int|
            #![trigger coloured_at(image.pixels@, y * image.width + x)]
            area.left <= x <= area.right && area.top <= y <= area.bottom && (x == area.left || x
                == area.right || y == area.top || y == area.bottom) ==> coloured_at(
                image.pixels@,
                y * image.width + x,
            ),
    ensures
        speaking(samples(image, area), changed),
{
    let x0 = area.left as int;
    let y0 = area.top as int;
    let x1 = area.right as int;
    let y1 = area.bottom as int;
    lemma_row_coloured(image, x0, x1, y0);
    lemma_row_coloured(image, x0, x1, y1);
    lemma_column_coloured(image, x0, y0, y1);
    lemma_column_coloured(image, x1, y0, y1);
    let outer = ring(image, x0, y0, x1, y1, 0);
    assert(outer.coloured == outer.looked && outer.looked > 0);
    lemma_outer_ring_is_largest(image, x0, y0, x1, y1, 8);
}

/// Looks that each find nothing coloured find nothing coloured together.
proof fn lemma_row_dull(image: Image, x: int, x1: int, step: int, y: int)
    requires
        forall|u: int| x <= u <= x1 ==> (#[trigger] look(image, u, y)).coloured == 0,
        step > 0,
    ensures
        along_row(image, x, x1, step, y).coloured == 0,
    decreases larger(x1 - x + 1, 0),
{
    if x <= x1 {
        assert(look(image, x, y).coloured == 0);
        lemma_row_dull(image, x + step, x1, step, y);
    }
}

/// Looks that each find nothing coloured find nothing coloured together.
proof fn lemma_column_dull(image: Image, x: int, y: int, y1: int, step: int)
    requires
        forall|v: int| y <= v <= y1 ==> (#[trigger] look(image, x, v)).coloured == 0,
        step > 0,
    ensures
        down_column(image, x, y, y1, step).coloured == 0,
    decreases larger(y1 - y + 1, 0),
{
    if y <= y1 {
        assert(look(image, x, y).coloured == 0);
        lemma_column_dull(image, x, y + step, y1, step);
    }
}

/// The grid has nothing coloured where nothing between its corners is.
proof fn lemma_grid_dull(image: Image, x0: int, x1: int, y: int, y1: int)
    requires
        forall|u: int, v: int|
            x0 <= u <= x1 && y <= v <= y1 ==> (#[trigger] look(image, u, v)).coloured == 0,
    ensures
        grid(image, x0, x1, y, y1).coloured == 0,
    decreases larger(y1 - y + 1, 0),
{
    if y <= y1 {
        lemma_row_dull(image, x0, x1, 4, y);
        lemma_grid_dull(image, x0, x1, y + 4, y1);
    }
}

/// The rings have nothing coloured where nothing within eight pixels of them is.
proof fn lemma_rings_dull(image: Image, x0: int, y0: int, x1: int, y1: int, n: nat)
    requires
        n <= 8,
        x0 < x1,
        y0 < y1,
        forall|u: int, v: int|
            x0 - 8 < u < x1 + 8 && y0 - 8 < v < y1 + 8 ==> (#[trigger] look(
                image,
                u,
                v,
            )).coloured == 0,
    ensures
        rings(image, x0, y0, x1, y1, n).coloured == 0,
    decreases n,
{
    if n > 0 {
        let d = n - 1;
        lemma_rings_dull(image, x0, y0, x1, y1, (n - 1) as nat);
        lemma_row_dull(image, x0, x1, 2, y0 + d);
        lemma_row_dull(image, x0, x1, 2, y1 - d);
        lemma_column_dull(image, x0 + d, y0, y1, 2);
        lemma_column_dull(image, x1 - d, y0, y1, 2);
    }
}

/// A participant whose tile shows no colour is not found to be speaking, whatever the
/// rest of the window shows: only pixels in the area, or less than eight pixels from it,
/// count, as long as no ring is appearing.
pub proof fn law_dull_tile_makes_no_speaker(image: Image, area: Area, changed: nat)
    requires
        forall|x: int, y: int|
            #![trigger coloured_at(image.pixels@, y * image.width + x)]
            0 <= x < image.width && 0 <= y < image.height && area.left - 8 < x < area.right + 8
                && area.top - 8 < y < area.bottom + 8 ==> !coloured_at(
                image.pixels@,
                y * image.width + x,
            ),
        changed <= 200,
    ensures
        !speaking(samples(image, area), changed),
{
    let x0 = larger(area.left as int, 0);
    let y0 = larger(area.top as int, 0);
    let x1 = smaller(area.right as int, image.width - 1);
    let y1 = smaller(area.bottom as int, image.height - 1);
    if x1 > x0 && y1 > y0 {
        assert forall|u: int, v: int|
            x0 - 8 < u < x1 + 8 && y0 - 8 < v < y1 + 8 implies (#[trigger] look(
            image,
            u,
            v,
        )).coloured == 0 by {
            if 0 <= u < image.width && 0 <= v < image.height {
                if area.left < u + 8 && area.top < v + 8 {
                    assert(!coloured_at(image.pixels@, v * image.width + u));
                }
            }
        }
        lemma_rings_dull(image, x0, y0, x1, y1, 8);
        lemma_grid_dull(image, x0, x1, y0, y1);
    }
}

/// The count of the first pixels does not depend on what follows them.
proof fn lemma_count_of_prefix(
    now: Seq<u8>,
    before: Seq<u8>,
    p: Seq<u8>,
    q: Seq<u8>,
    n: nat,
)
    requires
        4 * n <= now.len(),
        4 * n <= before.len(),
    ensures
        newly_coloured_count(now + p, before + q, n) == newly_coloured_count(now, before, n),
    decreases n,
{
    if n > 0 {
        lemma_count_of_prefix(now, before, p, q, (n - 1) as nat);
    }
}

/// Newly coloured pixels are counted one by one: a further pixel counts where the
/// distances of its red, green and blue to those before add up to more than 20 and its
/// colour is vivid now. Where the images differ in size there is nothing to count.
pub proof fn law_changes_add_up(now: Seq<u8>, before: Seq<u8>, p: Seq<u8>, q: Seq<u8>)
    requires
        now.len() == before.len(),
        now.len() % 4 == 0,
        p.len() == 4,
        q.len() == 4,
    ensures
        ({
            let red = if p[0] > q[0] {
                p[0] - q[0]
            } else {
                q[0] - p[0]
            };
            let green = if p[1] > q[1] {
                p[1] - q[1]
            } else {
                q[1] - p[1]
            };
            let blue = if p[2] > q[2] {
                p[2] - q[2]
            } else {
                q[2] - p[2]
            };
            let counts = red + green + blue > 20 && saturated(
                p[0] as int,
                p[1] as int,
                p[2] as int,
            );
            changed(now + p, before + q) == changed(now, before) + if counts {
                1int
            } else {
                0int
            }
        }),
        changed(Seq::<u8>::empty(), Seq::<u8>::empty()) == 0,
        changed(now, before + q) == 0,
{
    let n = now.len() / 4;
    let o = 4 * (n as int);
    assert((now + p).len() / 4 == n + 1);
    lemma_count_of_prefix(now, before, p, q, n);
    assert((now + p)[o] == p[0] && (before + q)[o] == q[0]);
    assert((now + p)[o + 1] == p[1] && (before + q)[o + 1] == q[1]);
    assert((now + p)[o + 2] == p[2] && (before + q)[o + 2] == q[2]);
    assert(newly_coloured_count(now + p, before + q, n + 1) == newly_coloured_count(
        now + p,
        before + q,
        n,
    ) + if newly_coloured(now + p, before + q, n as int) {
        1nat
    } else {
        0nat
    });
}

/// The names in order are the names: who is among the one is among the other.
pub proof fn law_set_has_the_names(list: Seq<Seq<char>>, names: Seq<Seq<char>>, name: Seq<char>)
    requires
        set_of(list, names),
    ensures
        list.contains(name) <==> names.contains(name),
        forall|i: int, j: int|
            0 <= i < j < list.len() ==> crate::text::text_less(
                #[trigger] list[i],
                #[trigger] list[j],
            ),
{
}

/// Images of different sizes have no newly coloured pixels, and neither have two images that
/// are the same.
pub proof fn law_nothing_new_in_other_or_same_image(now: Seq<u8>, before: Seq<u8>)
    ensures
        now.len() != before.len() ==> changed(now, before) == 0,
        changed(now, now) == 0,
{
    lemma_same_image_counts_nothing(now, now.len() / 4);
}

/// No pixel differs from itself.
proof fn lemma_same_image_counts_nothing(now: Seq<u8>, n: nat)
    ensures
        newly_coloured_count(now, now, n) == 0,
    decreases n,
{
    if n > 0 {
        lemma_same_image_counts_nothing(now, (n - 1) as nat);
    }
}

} // verus!
