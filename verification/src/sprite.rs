use vstd::prelude::*;
use crate::arith::{spec_truncated_div, spec_truncated_rem};

verus! {

// ------------------------------------------------------------ sheets

/// The top-left pixel of sprite `index` on a sheet of `num_sprites` sprites
/// of `width` by `height` pixels laid out in rows of `num_columns`; the
/// index wraps round the number of sprites.
pub open spec fn spec_sheet_source(
    index: int,
    num_sprites: int,
    num_columns: int,
    width: int,
    height: int,
) -> (int, int) {
    let wrapped = spec_truncated_rem(index, num_sprites);
    (
        spec_truncated_rem(wrapped, num_columns) * width,
        spec_truncated_div(wrapped, num_columns) * height,
    )
}

/// The top-left pixel of sprite `index` of a sprite sheet.
pub fn sprite_sheet_source(
    index: i32,
    num_sprites: i32,
    num_columns: i32,
    width: i32,
    height: i32,
) -> (source: (i32, i32))
    requires
        num_sprites > 0,
        num_columns > 0,
        num_sprites * width <= i32::MAX,
        num_sprites * height <= i32::MAX,
        width >= 0,
        height >= 0,
    ensures
        (source.0 as int, source.1 as int) == spec_sheet_source(
            index as int,
            num_sprites as int,
            num_columns as int,
            width as int,
            height as int,
        ),
{
    let wrapped = index % num_sprites;
    let column = wrapped % num_columns;
    let row = wrapped / num_columns;
    proof {
        let s = num_sprites as int;
        let c = num_columns as int;
        let w = wrapped as int;
        let m = if w >= 0 { w } else { -w };
        vstd::arithmetic::div_mod::lemma_div_basics_5(m, c);
        vstd::arithmetic::div_mod::lemma_fundamental_div_mod(m, c);
        assert(m % c <= m) by (nonlinear_arith)
            requires
                m >= 0,
                c > 0,
                m == c * (m / c) + m % c,
                m / c >= 0,
        ;
        assert(-s < column < s);
        assert(-s < row < s);
        assert(-(s * width) <= column * width <= s * width) by (nonlinear_arith)
            requires
                -s < column < s,
                width >= 0,
        ;
        assert(-(s * height) <= row * height <= s * height) by (nonlinear_arith)
            requires
                -s < row < s,
                height >= 0,
        ;
    }
    (column * width, row * height)
}

// -------------------------------------------------------------- text

/// A letter of the game's font: where it is on the font sheet, and its
/// place in the text, in letters across and lines down.
#[derive(Clone, Copy, Debug, PartialEq, Eq, Structural)]
pub struct GlyphSprite {
    pub source_x: i32,
    pub source_y: i32,
    pub column: u32,
    pub line: u32,
}

/// The font sheet holds the printable characters from the space up, 16 to a
/// row, with the first row of characters at the bottom of the 14-row sheet.
pub open spec fn glyph_source(c: char) -> (int, int) {
    let code = (c as u32) - 32;
    ((code % 16) * 8, (13 - code / 16) * 8)
}

/// The characters that the font has: from the space to the last character
/// of the fourteenth row.
pub open spec fn in_font(c: char) -> bool {
    32 <= (c as u32) < 256
}

pub open spec fn spec_glyph(index: usize, c: char, wrap: u32) -> GlyphSprite {
    GlyphSprite {
        source_x: glyph_source(c).0 as i32,
        source_y: glyph_source(c).1 as i32,
        column: ((index as u32) % wrap) as u32,
        line: ((index as u32) / wrap) as u32,
    }
}

/// The letters of a text, drawn with the game's font. The text is given as
/// its characters with their byte offsets, and a letter's place follows
/// from its byte offset: `wrap` letters to a line (no wrapping if `None`).
pub fn text(chars: &Vec<(usize, char)>, wrap: Option<u32>) -> (glyphs: Vec<GlyphSprite>)
    requires
        wrap != Some(0u32),
        forall|i: int| 0 <= i < chars.len() ==> in_font(#[trigger] chars[i].1),
        forall|i: int| 0 <= i < chars.len() ==> #[trigger] chars[i].0 <= u32::MAX,
    ensures
        glyphs.len() == chars.len(),
        forall|i: int|
            0 <= i < chars.len() ==> #[trigger] glyphs[i] == spec_glyph(
                chars[i].0,
                chars[i].1,
                match wrap {
                    Some(w) => w,
                    None => u32::MAX,
                },
            ),
{
    let wrap: u32 = match wrap {
        Some(w) => w,
        None => u32::MAX,
    };
    let mut glyphs: Vec<GlyphSprite> = Vec::new();
    let mut i: usize = 0;
    while i < chars.len()
        invariant
            i <= chars.len(),
            wrap != 0,
            glyphs.len() == i,
            forall|j: int| 0 <= j < chars.len() ==> in_font(#[trigger] chars[j].1),
            forall|j: int| 0 <= j < chars.len() ==> #[trigger] chars[j].0 <= u32::MAX,
            forall|j: int| 0 <= j < i ==> #[trigger] glyphs[j] == spec_glyph(chars[j].0, chars[j].1, wrap),
        decreases chars.len() - i,
    {
        let (byte_index, c) = chars[i];
        let code: u32 = (c as u32) - 32;
        let sheet_row: u32 = code / 16;
        let sheet_column: u32 = code % 16;
        let adjusted: u32 = sheet_column + (13 - sheet_row) * 16;
        let (source_x, source_y) = sprite_sheet_source(adjusted as i32, 224, 16, 8, 8);
        proof {
            assert(adjusted < 224);
            assert(adjusted as int % 224 == adjusted);
            assert((adjusted as int) % 16 == sheet_column) by (nonlinear_arith)
                requires
                    adjusted == sheet_column + (13 - sheet_row) * 16,
                    sheet_column < 16,
                    sheet_row <= 13,
            ;
            assert((adjusted as int) / 16 == 13 - sheet_row) by (nonlinear_arith)
                requires
                    adjusted == sheet_column + (13 - sheet_row) * 16,
                    sheet_column < 16,
                    sheet_row <= 13,
            ;
        }
        let position = byte_index as u32;
        glyphs.push(
            GlyphSprite { source_x, source_y, column: position % wrap, line: position / wrap },
        );
        i = i + 1;
    }
    glyphs
}


// -------------------------------------------------------- tiled boxes

/// Which side of a box a position is measured from.
#[derive(Clone, Copy, Debug, PartialEq, Eq, Structural)]
pub enum Anchor {
    /// The left side (for `x`) or the top side (for `y`).
    Start,
    /// The right side (for `x`) or the bottom side (for `y`).
    End,
}

/// One 8-pixel tile (or a cut part of one) of a tiled box. The source is
/// the tile's corner on the 24-pixel tile set, before the set's own offset
/// on the texture; the centre is given in half pixels from the anchored
/// side of the box.
#[derive(Clone, Copy, Debug, PartialEq, Eq, Structural)]
pub struct BoxTile {
    pub source_x: i32,
    pub source_y: i32,
    pub width: i32,
    pub height: i32,
    pub anchor_x: Anchor,
    pub centre_x2: i64,
    pub anchor_y: Anchor,
    pub centre_y2: i64,
}

pub open spec fn tile_at(
    source_x: int,
    source_y: int,
    width: int,
    height: int,
    anchor_x: Anchor,
    centre_x2: int,
    anchor_y: Anchor,
    centre_y2: int,
) -> BoxTile {
    BoxTile {
        source_x: source_x as i32,
        source_y: source_y as i32,
        width: width as i32,
        height: height as i32,
        anchor_x,
        centre_x2: centre_x2 as i64,
        anchor_y,
        centre_y2: centre_y2 as i64,
    }
}

/// The number of whole tiles along a side of `pixels` pixels, and the width
/// of the cut tile after them (both as Rust's integer division gives them).
pub open spec fn whole_tiles(pixels: int) -> int {
    spec_truncated_div(pixels, 8)
}

pub open spec fn cut_tile(pixels: int) -> int {
    spec_truncated_rem(pixels, 8)
}

/// `n` tiles in a line, the `i`-th at `(bx + dx * i, by + dy * i)` half
/// pixels (none if `n` is not positive).
pub open spec fn run_of(
    n: int,
    sx: int,
    sy: int,
    w: int,
    h: int,
    ax: Anchor,
    bx: int,
    dx: int,
    ay: Anchor,
    by: int,
    dy: int,
) -> Seq<BoxTile> {
    Seq::new(
        if n > 0 { n as nat } else { 0 },
        |i: int| tile_at(sx, sy, w, h, ax, bx + dx * i, ay, by + dy * i),
    )
}

/// The whole tiles of the inside, a column of `fy` tiles for each of the
/// first `x` columns.
pub open spec fn inside_columns(x: int, fy: int) -> Seq<BoxTile>
    decreases x,
{
    if x <= 0 {
        Seq::empty()
    } else {
        inside_columns(x - 1, fy) + run_of(fy, 8, 8, 8, 8, Anchor::Start, 16 * (x - 1) + 8, 0, Anchor::Start, 8, 16)
    }
}

/// The tiles of a box of `w` by `h` pixels, in drawing order: the whole
/// tiles of the inside column by column, the cut tiles along its bottom and
/// right, the left and right edges, the top and bottom edges, and the four
/// corners. The inside repeats the middle tile of the tile set, the edges
/// and corners its border tiles.
pub open spec fn spec_box_tiles(w: int, h: int) -> Seq<BoxTile> {
    let fx = whole_tiles(w);
    let fy = whole_tiles(h);
    let px = cut_tile(w);
    let py = cut_tile(h);
    inside_columns(fx, fy)
        + run_of(fx, 8, 8, 8, py, Anchor::Start, 8, 16, Anchor::Start, 16 * fy + py, 0)
        + run_of(fy, 8, 8, px, 8, Anchor::Start, 16 * fx + px, 0, Anchor::Start, 8, 16)
        + seq![tile_at(8, 8, px, py, Anchor::Start, 16 * fx + px, Anchor::Start, 16 * fy + py)]
        + run_of(fy, 0, 8, 8, 8, Anchor::Start, -8, 0, Anchor::Start, 8, 16)
        + run_of(fy, 16, 8, 8, 8, Anchor::End, 8, 0, Anchor::Start, 8, 16)
        + seq![
        tile_at(0, 8, 8, py, Anchor::Start, -8, Anchor::Start, 16 * fy + py),
        tile_at(16, 8, 8, py, Anchor::End, 8, Anchor::Start, 16 * fy + py),
    ]
        + run_of(fx, 8, 0, 8, 8, Anchor::Start, 8, 16, Anchor::Start, -8, 0)
        + run_of(fx, 8, 16, 8, 8, Anchor::Start, 8, 16, Anchor::End, 8, 0)
        + seq![
        tile_at(8, 0, px, 8, Anchor::Start, 16 * fx + px, Anchor::Start, -8),
        tile_at(8, 16, px, 8, Anchor::Start, 16 * fx + px, Anchor::End, 8),
        tile_at(0, 0, 8, 8, Anchor::Start, -8, Anchor::Start, -8),
        tile_at(16, 16, 8, 8, Anchor::Start, 16 * fx + 2 * px + 8, Anchor::Start, 16 * fy + 2 * py + 8),
        tile_at(16, 0, 8, 8, Anchor::Start, 16 * fx + 2 * px + 8, Anchor::Start, -8),
        tile_at(0, 16, 8, 8, Anchor::Start, -8, Anchor::Start, 16 * fy + 2 * py + 8),
    ]
}

/// Appends the tiles of `run_of` with the same arguments.
fn push_run(
    tiles: &mut Vec<BoxTile>,
    n: i32,
    sx: i32,
    sy: i32,
    w: i32,
    h: i32,
    ax: Anchor,
    bx: i64,
    dx: i64,
    ay: Anchor,
    by: i64,
    dy: i64,
)
    requires
        0 <= dx <= 16,
        0 <= dy <= 16,
        n <= 268435456,
        -4294967296 <= bx <= 4294967296,
        -4294967296 <= by <= 4294967296,
    ensures
        final(tiles)@ == old(tiles)@ + run_of(
            n as int,
            sx as int,
            sy as int,
            w as int,
            h as int,
            ax,
            bx as int,
            dx as int,
            ay,
            by as int,
            dy as int,
        ),
{
    let ghost start = tiles@;
    let mut i: i32 = 0;
    while i < n
        invariant
            0 <= i,
            i <= n || (n <= 0 && i == 0),
            n <= 268435456,
            0 <= dx <= 16,
            0 <= dy <= 16,
            -4294967296 <= bx <= 4294967296,
            -4294967296 <= by <= 4294967296,
            tiles@ == start + run_of(i as int, sx as int, sy as int, w as int, h as int, ax, bx as int, dx as int, ay, by as int, dy as int),
        decreases n - i,
    {
        proof {
            assert(0 <= dx * i <= 16 * 268435456) by (nonlinear_arith)
                requires
                    0 <= dx <= 16,
                    0 <= i <= 268435456,
            ;
            assert(0 <= dy * i <= 16 * 268435456) by (nonlinear_arith)
                requires
                    0 <= dy <= 16,
                    0 <= i <= 268435456,
            ;
        }
        let ii = i as i64;
        tiles.push(
            BoxTile {
                source_x: sx,
                source_y: sy,
                width: w,
                height: h,
                anchor_x: ax,
                centre_x2: bx + dx * ii,
                anchor_y: ay,
                centre_y2: by + dy * ii,
            },
        );
        let ghost t = tile_at(
            sx as int,
            sy as int,
            w as int,
            h as int,
            ax,
            bx + dx * i,
            ay,
            by + dy * i,
        );
        assert(tiles@.last() == t);
        let ghost before = run_of(i as int, sx as int, sy as int, w as int, h as int, ax, bx as int, dx as int, ay, by as int, dy as int);
        let ghost after = run_of(i + 1, sx as int, sy as int, w as int, h as int, ax, bx as int, dx as int, ay, by as int, dy as int);
        assert(after =~= before.push(t));
        assert(tiles@ =~= start + after);
        i = i + 1;
    }
    assert(tiles@ =~= start + run_of(n as int, sx as int, sy as int, w as int, h as int, ax, bx as int, dx as int, ay, by as int, dy as int));
}

/// The tiles that draw a box of `width` by `height` pixels with a 3-by-3
/// tile set, in drawing order (see `spec_box_tiles`).
pub fn tiled_sprites_to_draw(width: i32, height: i32) -> (tiles: Vec<BoxTile>)
    ensures
        tiles@ == spec_box_tiles(width as int, height as int),
{
    let fx = width / 8;
    let fy = height / 8;
    let px = width % 8;
    let py = height % 8;
    assert(fx as int == whole_tiles(width as int) && fy as int == whole_tiles(height as int));
    assert(px as int == cut_tile(width as int) && py as int == cut_tile(height as int));
    let mut tiles: Vec<BoxTile> = Vec::new();
    let mut x: i32 = 0;
    while x < fx
        invariant
            0 <= x,
            x <= fx || (fx <= 0 && x == 0),
            fy == whole_tiles(height as int),
            -268435456 <= fy <= 268435456,
            -268435456 <= fx <= 268435456,
            tiles@ == inside_columns(x as int, fy as int),
        decreases fx - x,
    {
        push_run(&mut tiles, fy, 8, 8, 8, 8, Anchor::Start, 16 * (x as i64) + 8, 0, Anchor::Start, 8, 16);
        x = x + 1;
    }
    let fx2 = 16 * (fx as i64);
    let fy2 = 16 * (fy as i64);
    let px1 = px as i64;
    let py1 = py as i64;
    push_run(&mut tiles, fx, 8, 8, 8, py, Anchor::Start, 8, 16, Anchor::Start, fy2 + py1, 0);
    push_run(&mut tiles, fy, 8, 8, px, 8, Anchor::Start, fx2 + px1, 0, Anchor::Start, 8, 16);
    tiles.push(tile(8, 8, px, py, Anchor::Start, fx2 + px1, Anchor::Start, fy2 + py1));
    push_run(&mut tiles, fy, 0, 8, 8, 8, Anchor::Start, -8, 0, Anchor::Start, 8, 16);
    push_run(&mut tiles, fy, 16, 8, 8, 8, Anchor::End, 8, 0, Anchor::Start, 8, 16);
    tiles.push(tile(0, 8, 8, py, Anchor::Start, -8, Anchor::Start, fy2 + py1));
    tiles.push(tile(16, 8, 8, py, Anchor::End, 8, Anchor::Start, fy2 + py1));
    push_run(&mut tiles, fx, 8, 0, 8, 8, Anchor::Start, 8, 16, Anchor::Start, -8, 0);
    push_run(&mut tiles, fx, 8, 16, 8, 8, Anchor::Start, 8, 16, Anchor::End, 8, 0);
    tiles.push(tile(8, 0, px, 8, Anchor::Start, fx2 + px1, Anchor::Start, -8));
    tiles.push(tile(8, 16, px, 8, Anchor::Start, fx2 + px1, Anchor::End, 8));
    tiles.push(tile(0, 0, 8, 8, Anchor::Start, -8, Anchor::Start, -8));
    tiles.push(
        tile(16, 16, 8, 8, Anchor::Start, fx2 + 2 * px1 + 8, Anchor::Start, fy2 + 2 * py1 + 8),
    );
    tiles.push(tile(16, 0, 8, 8, Anchor::Start, fx2 + 2 * px1 + 8, Anchor::Start, -8));
    tiles.push(tile(0, 16, 8, 8, Anchor::Start, -8, Anchor::Start, fy2 + 2 * py1 + 8));
    assert(tiles@ =~= spec_box_tiles(width as int, height as int));
    tiles
}

fn tile(sx: i32, sy: i32, w: i32, h: i32, ax: Anchor, cx2: i64, ay: Anchor, cy2: i64) -> (t: BoxTile)
    ensures
        t == tile_at(sx as int, sy as int, w as int, h as int, ax, cx2 as int, ay, cy2 as int),
{
    BoxTile {
        source_x: sx,
        source_y: sy,
        width: w,
        height: h,
        anchor_x: ax,
        centre_x2: cx2,
        anchor_y: ay,
        centre_y2: cy2,
    }
}


/// The tile lies inside a box of `w` by `h` pixels, measured from its left
/// and top sides (in half pixels, its span is within `[0, 2w]` by
/// `[0, 2h]`).
pub open spec fn inside_box(t: BoxTile, w: int, h: int) -> bool {
    &&& t.anchor_x == Anchor::Start
    &&& t.anchor_y == Anchor::Start
    &&& 0 <= t.centre_x2 - t.width
    &&& t.centre_x2 + t.width <= 2 * w
    &&& 0 <= t.centre_y2 - t.height
    &&& t.centre_y2 + t.height <= 2 * h
}

/// The tile lies outside the box (touching it at most): left of it, right
/// of it, above it or below it.
pub open spec fn outside_box(t: BoxTile, w: int, h: int) -> bool {
    ||| t.anchor_x == Anchor::Start && t.centre_x2 + t.width <= 0
    ||| t.anchor_x == Anchor::End && t.centre_x2 - t.width >= 0
    ||| t.anchor_x == Anchor::Start && t.centre_x2 - t.width >= 2 * w
    ||| t.anchor_y == Anchor::Start && t.centre_y2 + t.height <= 0
    ||| t.anchor_y == Anchor::End && t.centre_y2 - t.height >= 0
    ||| t.anchor_y == Anchor::Start && t.centre_y2 - t.height >= 2 * h
}

proof fn lemma_inside_columns(x: int, fy: int, w: int, h: int)
    requires
        w <= i32::MAX,
        h <= i32::MAX,
        0 <= x,
        16 * x <= 2 * w,
        16 * fy <= 2 * h,
    ensures
        forall|k: int|
            0 <= k < inside_columns(x, fy).len() ==> inside_box(
                #[trigger] inside_columns(x, fy)[k],
                w,
                h,
            ) && inside_columns(x, fy)[k].source_x == 8 && inside_columns(x, fy)[k].source_y == 8,
    decreases x,
{
    if x > 0 {
        lemma_inside_columns(x - 1, fy, w, h);
        let before = inside_columns(x - 1, fy);
        let run = run_of(fy, 8, 8, 8, 8, Anchor::Start, 16 * (x - 1) + 8, 0, Anchor::Start, 8, 16);
        assert forall|k: int| 0 <= k < inside_columns(x, fy).len() implies inside_box(
            #[trigger] inside_columns(x, fy)[k],
            w,
            h,
        ) && inside_columns(x, fy)[k].source_x == 8 && inside_columns(x, fy)[k].source_y == 8 by {
            if k >= before.len() {
                let y = k - before.len();
                assert(inside_columns(x, fy)[k] == run[y]);
                assert(0 <= y < fy);
                assert(run[y] == tile_at(8, 8, 8, 8, Anchor::Start, 16 * (x - 1) + 8, Anchor::Start, 8 + 16 * y));
                assert((16 * (x - 1) + 8) as i64 == 16 * (x - 1) + 8);
                assert((8 + 16 * y) as i64 == 8 + 16 * y);
                assert(8int as i32 == 8);
            } else {
                assert(inside_columns(x, fy)[k] == before[k]);
            }
        }
    }
}

/// A tiled box is drawn with its middle tile inside the box and its border
/// tiles outside it: every tile cut from the middle of the tile set lies
/// within the box, and every other tile lies beyond one of its sides.
pub proof fn law_box_tiles_frame_the_box(w: int, h: int)
    requires
        0 <= w <= i32::MAX,
        0 <= h <= i32::MAX,
    ensures
        forall|k: int|
            0 <= k < spec_box_tiles(w, h).len() ==> {
                let t = #[trigger] spec_box_tiles(w, h)[k];
                if t.source_x == 8 && t.source_y == 8 {
                    inside_box(t, w, h)
                } else {
                    outside_box(t, w, h)
                }
            },
{
    let fx = whole_tiles(w);
    let fy = whole_tiles(h);
    let px = cut_tile(w);
    let py = cut_tile(h);
    assert(w == 8 * fx + px && 0 <= px < 8 && fx >= 0);
    assert(h == 8 * fy + py && 0 <= py < 8 && fy >= 0);
    lemma_inside_columns(fx, fy, w, h);
}

/// The tiles of a box before its top and bottom edges: the inside, the cut
/// tiles along the bottom and right, and the left and right edges.
pub open spec fn box_tiles_before_edges(w: int, h: int) -> Seq<BoxTile> {
    let fx = whole_tiles(w);
    let fy = whole_tiles(h);
    let px = cut_tile(w);
    let py = cut_tile(h);
    inside_columns(fx, fy)
        + run_of(fx, 8, 8, 8, py, Anchor::Start, 8, 16, Anchor::Start, 16 * fy + py, 0)
        + run_of(fy, 8, 8, px, 8, Anchor::Start, 16 * fx + px, 0, Anchor::Start, 8, 16)
        + seq![tile_at(8, 8, px, py, Anchor::Start, 16 * fx + px, Anchor::Start, 16 * fy + py)]
        + run_of(fy, 0, 8, 8, 8, Anchor::Start, -8, 0, Anchor::Start, 8, 16)
        + run_of(fy, 16, 8, 8, 8, Anchor::End, 8, 0, Anchor::Start, 8, 16)
        + seq![
        tile_at(0, 8, 8, py, Anchor::Start, -8, Anchor::Start, 16 * fy + py),
        tile_at(16, 8, 8, py, Anchor::End, 8, Anchor::Start, 16 * fy + py),
    ]
}

/// The tile is cut from the top edge (`row == 0`) or the bottom edge
/// (`row == 16`) of the middle column of the tile set.
pub open spec fn edge_tile(t: BoxTile, row: int) -> bool {
    t.source_x == 8 && t.source_y == row
}

/// The half-pixel columns `[centre_x2 - width, centre_x2 + width)` that a
/// tile covers contain `p`.
pub open spec fn covers_column(t: BoxTile, p: int) -> bool {
    t.centre_x2 - t.width <= p < t.centre_x2 + t.width
}

/// The tiles of the top edge of a box (and likewise of its bottom edge) are
/// laid edge to edge along it: every column of the box's width, in half
/// pixels `0 <= p < 2 * w`, is covered by one of them, and no two of them
/// overlap. The top tiles sit right above the box and the bottom tiles
/// right below it.
pub proof fn law_box_edges_laid_edge_to_edge(w: int, h: int, row: int, p: int, k1: int, k2: int)
    requires
        0 <= w <= i32::MAX,
        0 <= h <= i32::MAX,
        row == 0 || row == 16,
    ensures
        ({
            let s = spec_box_tiles(w, h);
            &&& (0 <= p < 2 * w) ==> exists|k: int|
                0 <= k < s.len() && edge_tile(#[trigger] s[k], row) && covers_column(s[k], p)
            &&& (0 <= k1 < s.len() && 0 <= k2 < s.len() && k1 != k2 && edge_tile(s[k1], row)
                && edge_tile(s[k2], row)) ==> (s[k1].centre_x2 + s[k1].width <= s[k2].centre_x2
                - s[k2].width || s[k2].centre_x2 + s[k2].width <= s[k1].centre_x2 - s[k1].width)
            &&& (0 <= k1 < s.len() && edge_tile(s[k1], row) && row == 0) ==> (s[k1].anchor_y
                == Anchor::Start && s[k1].centre_y2 + s[k1].height == 0)
            &&& (0 <= k1 < s.len() && edge_tile(s[k1], row) && row == 16) ==> (s[k1].anchor_y
                == Anchor::End && s[k1].centre_y2 - s[k1].height == 0)
        }),
{
    let fx = whole_tiles(w);
    let fy = whole_tiles(h);
    let px = cut_tile(w);
    let py = cut_tile(h);
    assert(w == 8 * fx + px && 0 <= px < 8 && fx >= 0);
    assert(h == 8 * fy + py && 0 <= py < 8 && fy >= 0);
    lemma_inside_columns(fx, fy, w, h);
    let a = box_tiles_before_edges(w, h);
    let top = run_of(fx, 8, 0, 8, 8, Anchor::Start, 8, 16, Anchor::Start, -8, 0);
    let bottom = run_of(fx, 8, 16, 8, 8, Anchor::Start, 8, 16, Anchor::End, 8, 0);
    let last = seq![
        tile_at(8, 0, px, 8, Anchor::Start, 16 * fx + px, Anchor::Start, -8),
        tile_at(8, 16, px, 8, Anchor::Start, 16 * fx + px, Anchor::End, 8),
        tile_at(0, 0, 8, 8, Anchor::Start, -8, Anchor::Start, -8),
        tile_at(16, 16, 8, 8, Anchor::Start, 16 * fx + 2 * px + 8, Anchor::Start, 16 * fy + 2 * py + 8),
        tile_at(16, 0, 8, 8, Anchor::Start, 16 * fx + 2 * px + 8, Anchor::Start, -8),
        tile_at(0, 16, 8, 8, Anchor::Start, -8, Anchor::Start, 16 * fy + 2 * py + 8),
    ];
    let s = spec_box_tiles(w, h);
    assert(s == a + top + bottom + last);
    let n = a.len();
    assert(8int as i32 == 8 && 0int as i32 == 0 && 16int as i32 == 16);
    assert((px as i32) as int == px);
    // Nothing before the edges comes from the top or bottom row of the tile set.
    assert forall|k: int| 0 <= k < n implies (#[trigger] a[k]).source_y == 8 by {
        let ins = inside_columns(fx, fy);
        let r1 = run_of(fx, 8, 8, 8, py, Anchor::Start, 8, 16, Anchor::Start, 16 * fy + py, 0);
        let r2 = run_of(fy, 8, 8, px, 8, Anchor::Start, 16 * fx + px, 0, Anchor::Start, 8, 16);
        let c1 = seq![tile_at(8, 8, px, py, Anchor::Start, 16 * fx + px, Anchor::Start, 16 * fy + py)];
        let r3 = run_of(fy, 0, 8, 8, 8, Anchor::Start, -8, 0, Anchor::Start, 8, 16);
        let r4 = run_of(fy, 16, 8, 8, 8, Anchor::End, 8, 0, Anchor::Start, 8, 16);
        let c2 = seq![
            tile_at(0, 8, 8, py, Anchor::Start, -8, Anchor::Start, 16 * fy + py),
            tile_at(16, 8, 8, py, Anchor::End, 8, Anchor::Start, 16 * fy + py),
        ];
        assert(a == ins + r1 + r2 + c1 + r3 + r4 + c2);
        if k < ins.len() {
            assert(a[k] == ins[k]);
        }
    }
    // Each edge tile, with where it lies.
    assert forall|k: int| 0 <= k < s.len() && edge_tile(#[trigger] s[k], row) implies ({
        ||| (n <= k < n + fx && row == 0 && s[k] == top[k - n])
        ||| (n + fx <= k < n + 2 * fx && row == 16 && s[k] == bottom[k - n - fx])
        ||| (k == n + 2 * fx && row == 0 && s[k] == last[0])
        ||| (k == n + 2 * fx + 1 && row == 16 && s[k] == last[1])
    }) by {
        if k < n {
            assert(s[k] == a[k]);
        } else if k < n + fx {
            assert(s[k] == top[k - n]);
        } else if k < n + 2 * fx {
            assert(s[k] == bottom[k - n - fx]);
        } else {
            assert(s[k] == last[k - n - 2 * fx]);
        }
    }
    // Covering.
    if 0 <= p < 2 * w {
        if p < 16 * fx {
            let i = p / 16;
            let k = if row == 0 { n + i } else { n + fx + i };
            if row == 0 {
                assert(s[k] == top[i]);
            } else {
                assert(s[k] == bottom[i]);
            }
            assert(((8 + 16 * i) as i64) as int == 8 + 16 * i);
            assert(covers_column(s[k], p));
            assert(edge_tile(s[k], row));
        } else {
            let k = if row == 0 { n + 2 * fx } else { n + 2 * fx + 1 };
            assert(s[k] == last[k - n - 2 * fx]);
            assert(((16 * fx + px) as i64) as int == 16 * fx + px);
            assert(covers_column(s[k], p));
            assert(edge_tile(s[k], row));
        }
    }
    // No overlap.
    if 0 <= k1 < s.len() && 0 <= k2 < s.len() && k1 != k2 && edge_tile(s[k1], row) && edge_tile(
        s[k2],
        row,
    ) {
        let i1 = if row == 0 { k1 - n } else { k1 - n - fx };
        let i2 = if row == 0 { k2 - n } else { k2 - n - fx };
        if 0 <= i1 < fx {
            assert(((8 + 16 * i1) as i64) as int == 8 + 16 * i1);
        }
        if 0 <= i2 < fx {
            assert(((8 + 16 * i2) as i64) as int == 8 + 16 * i2);
        }
        assert(((16 * fx + px) as i64) as int == 16 * fx + px);
    }
    if 0 <= k1 < s.len() && edge_tile(s[k1], row) {
        assert((-8int) as i64 == -8 && 8int as i64 == 8);
    }
}

} // verus!
