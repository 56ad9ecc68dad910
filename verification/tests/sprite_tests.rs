use longinus::sprite::{sprite_sheet_source, text, tiled_sprites_to_draw, Anchor, BoxTile, GlyphSprite};
use longinus::sprite::Anchor::{End, Start};

#[test]
fn sheet_source_wraps_and_lays_out_rows() {
    assert_eq!(sprite_sheet_source(0, 5, 5, 16, 16), (0, 0));
    assert_eq!(sprite_sheet_source(3, 5, 5, 16, 16), (48, 0));
    assert_eq!(sprite_sheet_source(7, 5, 5, 16, 16), (32, 0));
    assert_eq!(sprite_sheet_source(17, 224, 16, 8, 8), (8, 8));
}

#[test]
fn sheet_source_of_negative_index() {
    assert_eq!(sprite_sheet_source(-1, 5, 5, 16, 16), (-16, 0));
}

#[test]
fn text_places_glyphs() {
    let chars: Vec<(usize, char)> = "A b".char_indices().collect();
    let glyphs = text(&chars, Some(2));
    assert_eq!(
        glyphs,
        vec![
            GlyphSprite { source_x: 8, source_y: 88, column: 0, line: 0 },
            GlyphSprite { source_x: 0, source_y: 104, column: 1, line: 0 },
            GlyphSprite { source_x: 16, source_y: 72, column: 0, line: 1 },
        ]
    );
}

#[test]
fn text_without_wrap_stays_on_one_line() {
    let chars: Vec<(usize, char)> = "~!".char_indices().collect();
    let glyphs = text(&chars, None);
    assert_eq!(glyphs[0], GlyphSprite { source_x: 112, source_y: 64, column: 0, line: 0 });
    assert_eq!(glyphs[1], GlyphSprite { source_x: 8, source_y: 104, column: 1, line: 0 });
}

fn t(sx: i32, sy: i32, w: i32, h: i32, ax: Anchor, cx: i64, ay: Anchor, cy: i64) -> BoxTile {
    BoxTile { source_x: sx, source_y: sy, width: w, height: h, anchor_x: ax, centre_x2: cx, anchor_y: ay, centre_y2: cy }
}

#[test]
fn box_of_one_tile_and_a_cut() {
    let tiles = tiled_sprites_to_draw(12, 8);
    assert_eq!(
        tiles,
        vec![
            t(8, 8, 8, 8, Start, 8, Start, 8),
            t(8, 8, 8, 0, Start, 8, Start, 16),
            t(8, 8, 4, 8, Start, 20, Start, 8),
            t(8, 8, 4, 0, Start, 20, Start, 16),
            t(0, 8, 8, 8, Start, -8, Start, 8),
            t(16, 8, 8, 8, End, 8, Start, 8),
            t(0, 8, 8, 0, Start, -8, Start, 16),
            t(16, 8, 8, 0, End, 8, Start, 16),
            t(8, 0, 8, 8, Start, 8, Start, -8),
            t(8, 16, 8, 8, Start, 8, End, 8),
            t(8, 0, 4, 8, Start, 20, Start, -8),
            t(8, 16, 4, 8, Start, 20, End, 8),
            t(0, 0, 8, 8, Start, -8, Start, -8),
            t(16, 16, 8, 8, Start, 32, Start, 24),
            t(16, 0, 8, 8, Start, 32, Start, -8),
            t(0, 16, 8, 8, Start, -8, Start, 24),
        ]
    );
}

#[test]
fn box_tile_count() {
    assert_eq!(tiled_sprites_to_draw(24, 16).len(), 3 * 2 + 3 + 2 + 1 + 2 * 2 + 2 + 3 * 2 + 2 + 4);
    assert_eq!(tiled_sprites_to_draw(0, 0).len(), 1 + 2 + 2 + 4);
}

#[test]
fn inside_tiles_stay_inside_the_box() {
    let (w, h) = (37i64, 21i64);
    for tile in tiled_sprites_to_draw(37, 21) {
        let inside = tile.source_x == 8 && tile.source_y == 8;
        if inside {
            assert!(tile.anchor_x == Anchor::Start && tile.anchor_y == Anchor::Start);
            assert!(tile.centre_x2 - tile.width as i64 >= 0);
            assert!(tile.centre_x2 + tile.width as i64 <= 2 * w);
            assert!(tile.centre_y2 - tile.height as i64 >= 0);
            assert!(tile.centre_y2 + tile.height as i64 <= 2 * h);
        }
    }
}
