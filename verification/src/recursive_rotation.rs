//! Recursive rotation of the tiles of a square image.
//!
//! The image is cut into `rows` by `rows` square tiles. The tiles form blocks
//! of two by two, and every tile takes the content of a neighbour in its
//! block, so that each block turns by a quarter.

use vstd::prelude::*;
use vstd::arithmetic::power2::{is_pow2, lemma2_to64, lemma_pow2_strictly_increases, pow2};
use nannou::image::{DynamicImage, GenericImage, GenericImageView, Rgba, RgbaImage};
use crate::point_u32::PointU32;

verus! {

/// One tile of the image, by its place in the grid of tiles.
#[derive(Clone, Copy, Debug, PartialEq, Eq, PartialOrd, Ord, Structural)]
pub struct Tile {
    pub row: u32,
    pub column: u32,
}

/// The tile whose content moves into `tile`. With `decreased_recursion_layers`
/// the blocks turn one way, without it the other way.
pub open spec fn spec_source_tile(tile: Tile, decreased_recursion_layers: bool) -> Tile {
    let top = tile.row % 2 == 0;
    let left = tile.column % 2 == 0;
    if (top && left && decreased_recursion_layers) || (top && !left
        && !decreased_recursion_layers) {
        Tile { row: (tile.row + 1) as u32, column: tile.column }
    } else if (top && !left && decreased_recursion_layers) || (!top && !left
        && !decreased_recursion_layers) {
        Tile { row: tile.row, column: (tile.column - 1) as u32 }
    } else if (!top && left && decreased_recursion_layers) || (top && left
        && !decreased_recursion_layers) {
        Tile { row: tile.row, column: (tile.column + 1) as u32 }
    } else {
        Tile { row: (tile.row - 1) as u32, column: tile.column }
    }
}

/// The number of rows of tiles at a depth of recursion: one at depth one and
/// below, and twice as many with every further layer.
pub open spec fn spec_number_of_rows(recursion_layers: u32) -> nat {
    if recursion_layers <= 1 {
        1
    } else {
        pow2((recursion_layers - 1) as nat)
    }
}

/// The depth of recursion at which there are at least `rows` rows of tiles:
/// one more than the least exponent whose power of two reaches `rows`.
pub open spec fn spec_number_of_layers(rows: u32) -> nat
    decreases rows,
{
    if rows <= 1 {
        1
    } else {
        1 + spec_number_of_layers(((rows + 1) / 2) as u32)
    }
}

impl Tile {
    /// The top left corner of the tile in an image whose tiles are
    /// `tile_width` wide. The corner must lie within the range of `u32`.
    pub fn top_left_coords(&self, tile_width: u32) -> (corner: PointU32)
        requires
            self.row * tile_width <= u32::MAX,
            self.column * tile_width <= u32::MAX,
        ensures
            corner.x == self.row * tile_width,
            corner.y == self.column * tile_width,
    {
        PointU32::new(self.row, self.column) * tile_width
    }

    /// The tile whose content moves into this tile.
    pub fn source_tile(&self, decreased_recursion_layers: bool) -> (source: Tile)
        ensures
            source == spec_source_tile(*self, decreased_recursion_layers),
            source.row / 2 == self.row / 2,
            source.column / 2 == self.column / 2,
    {
        let top: bool = self.row % 2 == 0;
        let left: bool = self.column % 2 == 0;
        if (top && left && decreased_recursion_layers) || (top && !left
            && !decreased_recursion_layers) {
            Tile { row: self.row + 1, column: self.column }
        } else if (top && !left && decreased_recursion_layers) || (!top && !left
            && !decreased_recursion_layers) {
            Tile { row: self.row, column: self.column - 1 }
        } else if (!top && left && decreased_recursion_layers) || (top && left
            && !decreased_recursion_layers) {
            Tile { row: self.row, column: self.column + 1 }
        } else {
            Tile { row: self.row - 1, column: self.column }
        }
    }
}

/// A tile takes its content from a neighbour in its own block of two by two.
/// Turning one way and then the other way leads back, and four turns the same
/// way lead once around the block.
pub proof fn lemma_source_tile_turns(tile: Tile, decreased_recursion_layers: bool)
    ensures
        spec_source_tile(tile, decreased_recursion_layers).row / 2 == tile.row / 2,
        spec_source_tile(tile, decreased_recursion_layers).column / 2 == tile.column / 2,
        spec_source_tile(tile, decreased_recursion_layers) != tile,
        spec_source_tile(
            spec_source_tile(tile, decreased_recursion_layers),
            !decreased_recursion_layers,
        ) == tile,
        spec_source_tile(
            spec_source_tile(
                spec_source_tile(
                    spec_source_tile(tile, decreased_recursion_layers),
                    decreased_recursion_layers,
                ),
                decreased_recursion_layers,
            ),
            decreased_recursion_layers,
        ) == tile,
{
}

/// The number of rows of tiles at a depth of recursion. The depth must not
/// exceed 32, or the number leaves the range of `u32`.
pub fn find_number_of_rows(recursion_layers: u32) -> (rows: u32)
    requires
        recursion_layers <= 32,
    ensures
        rows == spec_number_of_rows(recursion_layers),
        rows >= 1,
{
    let mut rows: u32 = 1;
    let mut layer: u32 = 1;
    proof {
        lemma2_to64();
    }
    while layer < recursion_layers
        invariant
            1 <= layer,
            layer <= recursion_layers || layer == 1,
            recursion_layers <= 32,
            rows == pow2((layer - 1) as nat),
        decreases recursion_layers - layer,
    {
        proof {
            lemma2_to64();
            if layer < 32 {
                if layer < 31 {
                    lemma_pow2_strictly_increases(layer as nat, 31);
                }
            }
            vstd::arithmetic::power2::lemma_pow2_unfold(layer as nat);
        }
        rows = rows * 2;
        layer = layer + 1;
    }
    proof {
        lemma2_to64();
        vstd::arithmetic::power2::lemma_pow2_pos((layer - 1) as nat);
    }
    rows
}

/// At the depth found for `rows` there are at least `rows` rows of tiles, and
/// one layer less would give too few.
pub proof fn lemma_number_of_layers_is_least(rows: u32)
    ensures
        spec_number_of_layers(rows) >= 1,
        pow2((spec_number_of_layers(rows) - 1) as nat) >= rows,
        spec_number_of_layers(rows) >= 2 ==> pow2((spec_number_of_layers(rows) - 2) as nat)
            < rows,
    decreases rows,
{
    lemma2_to64();
    if rows > 1 {
        let half = ((rows + 1) / 2) as u32;
        lemma_number_of_layers_is_least(half);
        let depth = spec_number_of_layers(half);
        vstd::arithmetic::power2::lemma_pow2_unfold(depth);
        if depth >= 2 {
            vstd::arithmetic::power2::lemma_pow2_unfold((depth - 1) as nat);
        }
    }
}

/// Up to 2^31 rows are reached within 32 layers.
proof fn lemma_number_of_layers_bound(rows: u32)
    requires
        rows <= 0x8000_0000,
    ensures
        spec_number_of_layers(rows) <= 32,
{
    lemma_number_of_layers_is_least(rows);
    lemma2_to64();
    let depth = spec_number_of_layers(rows);
    if depth >= 33 {
        if depth > 33 {
            lemma_pow2_strictly_increases(31, (depth - 2) as nat);
        }
    }
}

/// The depth of recursion at which there are at least `rows` rows of tiles.
/// More than 2^31 rows cannot be reached within the range of `u32`.
pub fn find_number_of_layers(rows: u32) -> (layers: u32)
    requires
        rows <= 0x8000_0000,
    ensures
        layers == spec_number_of_layers(rows),
        1 <= layers <= 32,
{
    let mut layers: u32 = 1;
    let mut rest: u32 = rows;
    proof {
        lemma_number_of_layers_bound(rows);
    }
    while rest > 1
        invariant
            rest <= 0x8000_0000,
            1 <= layers,
            layers + spec_number_of_layers(rest) == 1 + spec_number_of_layers(rows),
            spec_number_of_layers(rest) + layers <= 33,
        decreases rest,
    {
        rest = (rest - 1) / 2 + 1;
        layers = layers + 1;
    }
    layers
}

/// A colour: red, green, blue and alpha.
pub type Colour = (u8, u8, u8, u8);

/// The image type of the `image` crate, as `nannou` hands it on. Nothing of
/// its inside is visible here.
#[verifier::external_type_specification]
#[verifier::external_body]
pub struct ExDynamicImage(DynamicImage);

/// The colour of every pixel of an image, by column `x` and row `y`, as
/// `get_pixel` reports it.
pub uninterp spec fn pixels(image: DynamicImage) -> Map<(u32, u32), Colour>;

/// The width and the height of an image.
pub uninterp spec fn dimensions(image: DynamicImage) -> (u32, u32);

/// Whether an image stores red, green, blue and alpha of eight bits each, so
/// that a colour put into it is read back unchanged.
pub uninterp spec fn stores_rgba(image: DynamicImage) -> bool;

/// `GenericImageView::dimensions` of the `image` crate: the width and the
/// height of the image.
#[verifier::external_body]
fn image_dimensions(image: &DynamicImage) -> (size: (u32, u32))
    ensures
        size == dimensions(*image),
{
    image.dimensions()
}

/// `ImageBuffer::new` of the `image` crate, wrapped as
/// `DynamicImage::ImageRgba8`: an image of the given size whose samples are
/// all zero. The crate panics where four samples for each pixel are more than
/// a vector can hold, so such a size is left out.
#[verifier::external_body]
fn blank_image(width: u32, height: u32) -> (image: DynamicImage)
    requires
        4 * width * height <= usize::MAX,
    ensures
        dimensions(image) == (width, height),
        stores_rgba(image),
        pixels(image) == Map::new(
            |at: (u32, u32)| at.0 < width && at.1 < height,
            |at: (u32, u32)| (0u8, 0u8, 0u8, 0u8),
        ),
{
    DynamicImage::ImageRgba8(RgbaImage::new(width, height))
}

/// `GenericImageView::get_pixel` of the `image` crate: the colour at column
/// `x`, row `y`. The crate panics outside the image, so such a place is left
/// out.
#[verifier::external_body]
fn pixel_at(image: &DynamicImage, x: u32, y: u32) -> (colour: Colour)
    requires
        x < dimensions(*image).0,
        y < dimensions(*image).1,
    ensures
        colour == pixels(*image)[(x, y)],
{
    let pixel = image.get_pixel(x, y);
    (pixel[0], pixel[1], pixel[2], pixel[3])
}

/// `GenericImage::put_pixel` of the `image` crate, on an image that stores
/// red, green, blue and alpha of eight bits each: the colour at column `x`,
/// row `y` becomes `colour`, and nothing else changes. The crate panics
/// outside the image, so such a place is left out.
#[verifier::external_body]
fn set_pixel(image: &mut DynamicImage, x: u32, y: u32, colour: Colour)
    requires
        stores_rgba(*old(image)),
        x < dimensions(*old(image)).0,
        y < dimensions(*old(image)).1,
    ensures
        dimensions(*final(image)) == dimensions(*old(image)),
        stores_rgba(*final(image)),
        pixels(*final(image)) == pixels(*old(image)).insert((x, y), colour),
{
    image.put_pixel(x, y, Rgba([colour.0, colour.1, colour.2, colour.3]));
}

/// The place in the old image from which the pixel at column `x`, row `y` of
/// the new image is taken, in an image whose tiles are `tile_width` wide: the
/// same place within the tile, in the tile's source tile.
pub open spec fn source_pixel(x: int, y: int, tile_width: int, decreased_recursion_layers: bool)
    -> (int, int) {
    let tile = Tile { row: (x / tile_width) as u32, column: (y / tile_width) as u32 };
    let source = spec_source_tile(tile, decreased_recursion_layers);
    (source.row * tile_width + x % tile_width, source.column * tile_width + y % tile_width)
}

/// Whether the pixel at column `x`, row `y` comes before the pixel at offset
/// (`px`, `py`) of tile (`row`, `column`) in the order in which the tiles are
/// filled: tile by tile, and within a tile column by column.
pub open spec fn filled_before(
    x: int,
    y: int,
    tile_width: int,
    row: int,
    column: int,
    px: int,
    py: int,
) -> bool {
    let tile_row = x / tile_width;
    let tile_column = y / tile_width;
    let offset_x = x % tile_width;
    let offset_y = y % tile_width;
    tile_row < row || (tile_row == row && (tile_column < column || (tile_column == column && (
    offset_x < px || (offset_x == px && offset_y < py)))))
}

/// Whether `new` holds `old` with its tiles turned, while the tiles up to
/// offset (`px`, `py`) of tile (`row`, `column`) are filled and the rest is
/// blank.
pub open spec fn tiles_filled(
    old_image: DynamicImage,
    new_image: DynamicImage,
    rows: int,
    decreased_recursion_layers: bool,
    row: int,
    column: int,
    px: int,
    py: int,
) -> bool {
    let width = dimensions(old_image).0;
    let tile_width = width as int / rows;
    let covered = rows * tile_width;
    &&& dimensions(new_image) == (width, width)
    &&& stores_rgba(new_image)
    &&& forall|x: u32, y: u32|
        x < width && y < width ==> #[trigger] pixels(new_image)[(x, y)] == if x < covered && y
            < covered && filled_before(x as int, y as int, tile_width, row, column, px, py) {
            let from = source_pixel(x as int, y as int, tile_width, decreased_recursion_layers);
            pixels(old_image)[(from.0 as u32, from.1 as u32)]
        } else {
            (0u8, 0u8, 0u8, 0u8)
        }
}

/// Whether `new` holds `old` with the tiles of every block of two by two
/// turned by a quarter, at the given depth of recursion. What the tiles do
/// not cover, at the right and at the lower edge, is blank.
pub open spec fn tiles_rotated(
    old_image: DynamicImage,
    new_image: DynamicImage,
    recursion_layers: u32,
    decreased_recursion_layers: bool,
) -> bool {
    let rows = spec_number_of_rows(recursion_layers) as int;
    tiles_filled(old_image, new_image, rows, decreased_recursion_layers, rows, 0, 0, 0)
}

/// The place at offset `offset` of tile `tile` lies in that tile, at that
/// offset.
proof fn lemma_place_in_tile(tile_width: int, tile: int, offset: int)
    requires
        tile_width > 0,
        0 <= offset < tile_width,
        0 <= tile,
    ensures
        (tile * tile_width + offset) / tile_width == tile,
        (tile * tile_width + offset) % tile_width == offset,
        tile * tile_width + offset >= 0,
{
    assert(tile * tile_width >= 0) by (nonlinear_arith)
        requires
            tile >= 0,
            tile_width > 0,
    ;
    vstd::arithmetic::div_mod::lemma_fundamental_div_mod_converse(
        tile * tile_width + offset,
        tile_width,
        tile,
        offset,
    );
}

/// Every place is the offset within its tile beyond the tile's start, and a
/// place that the tiles cover lies in one of the `rows` tiles.
proof fn lemma_tile_of_place(tile_width: int, rows: int, place: int)
    requires
        tile_width > 0,
        0 <= place,
        0 <= rows,
    ensures
        place == (place / tile_width) * tile_width + place % tile_width,
        0 <= place % tile_width < tile_width,
        0 <= place / tile_width,
        place < rows * tile_width ==> place / tile_width < rows,
{
    vstd::arithmetic::div_mod::lemma_fundamental_div_mod(place, tile_width);
    vstd::arithmetic::div_mod::lemma_mod_bound(place, tile_width);
    vstd::arithmetic::mul::lemma_mul_is_commutative(tile_width, place / tile_width);
    let tile = place / tile_width;
    assert(tile >= 0) by (nonlinear_arith)
        requires
            place == tile * tile_width + place % tile_width,
            place >= 0,
            0 <= place % tile_width < tile_width,
            tile_width > 0,
    ;
    if place < rows * tile_width {
        assert(tile < rows) by (nonlinear_arith)
            requires
                place == tile * tile_width + place % tile_width,
                place < rows * tile_width,
                0 <= place % tile_width,
                tile_width > 0,
        ;
    }
}

/// A place at an offset within one of `rows` tiles lies within what the tiles
/// cover.
proof fn lemma_place_is_covered(tile_width: int, rows: int, tile: int, offset: int)
    requires
        0 <= tile < rows,
        0 <= offset < tile_width,
    ensures
        0 <= tile * tile_width + offset < rows * tile_width,
{
    assert(0 <= tile * tile_width + offset < rows * tile_width) by (nonlinear_arith)
        requires
            0 <= tile < rows,
            0 <= offset < tile_width,
    ;
}

/// The tiles never cover more than the image: their width is the image's
/// width divided by their number, rounded down.
proof fn lemma_tiles_fit(width: int, rows: int)
    requires
        0 <= width,
        0 < rows,
    ensures
        0 <= rows * (width / rows) <= width,
        0 <= width / rows,
{
    vstd::arithmetic::div_mod::lemma_fundamental_div_mod(width, rows);
    vstd::arithmetic::div_mod::lemma_mod_bound(width, rows);
    vstd::arithmetic::div_mod::lemma_div_pos_is_pos(width, rows);
    assert(0 <= rows * (width / rows)) by (nonlinear_arith)
        requires
            0 < rows,
            0 <= width / rows,
    ;
}

/// Filling the pixel at offset (`px`, `py`) of tile (`row`, `column`) moves
/// the filling on by one pixel.
proof fn lemma_pixel_filled(
    old_image: DynamicImage,
    before: DynamicImage,
    after: DynamicImage,
    rows: int,
    decreased_recursion_layers: bool,
    row: int,
    column: int,
    px: int,
    py: int,
)
    requires
        0 < rows,
        0 <= row < rows,
        0 <= column < rows,
        ({
            let tile_width = dimensions(old_image).0 as int / rows;
            let source = spec_source_tile(
                Tile { row: row as u32, column: column as u32 },
                decreased_recursion_layers,
            );
            &&& 0 <= px < tile_width
            &&& 0 <= py < tile_width
            &&& rows * tile_width <= dimensions(old_image).0
            &&& row <= u32::MAX
            &&& column <= u32::MAX
            &&& dimensions(after) == dimensions(before)
            &&& stores_rgba(after)
            &&& pixels(after) == pixels(before).insert(
                ((row * tile_width + px) as u32, (column * tile_width + py) as u32),
                pixels(old_image)[(
                    (source.row * tile_width + px) as u32,
                    (source.column * tile_width + py) as u32,
                )],
            )
        }),
        tiles_filled(old_image, before, rows, decreased_recursion_layers, row, column, px, py),
    ensures
        tiles_filled(old_image, after, rows, decreased_recursion_layers, row, column, px, py + 1),
{
    let width = dimensions(old_image).0;
    let tile_width = width as int / rows;
    let covered = rows * tile_width;
    let at_x = row * tile_width + px;
    let at_y = column * tile_width + py;
    lemma_place_in_tile(tile_width, row, px);
    lemma_place_in_tile(tile_width, column, py);
    lemma_place_is_covered(tile_width, rows, row, px);
    lemma_place_is_covered(tile_width, rows, column, py);
    assert forall|x: u32, y: u32| x < width && y < width implies #[trigger] pixels(after)[(x, y)]
        == if x < covered && y < covered && filled_before(
        x as int,
        y as int,
        tile_width,
        row,
        column,
        px,
        py + 1,
    ) {
        let from = source_pixel(x as int, y as int, tile_width, decreased_recursion_layers);
        pixels(old_image)[(from.0 as u32, from.1 as u32)]
    } else {
        (0u8, 0u8, 0u8, 0u8)
    } by {
        lemma_tile_of_place(tile_width, rows, x as int);
        lemma_tile_of_place(tile_width, rows, y as int);
        if x == at_x && y == at_y {
            assert(filled_before(x as int, y as int, tile_width, row, column, px, py + 1));
        } else {
            assert(pixels(after)[(x, y)] == pixels(before)[(x, y)]);
            assert(filled_before(x as int, y as int, tile_width, row, column, px, py + 1)
                == filled_before(x as int, y as int, tile_width, row, column, px, py));
        }
    }
}

/// Once a column of a tile is filled to its end, the filling stands at the
/// start of the tile's next column.
proof fn lemma_column_filled(
    old_image: DynamicImage,
    new_image: DynamicImage,
    rows: int,
    decreased_recursion_layers: bool,
    row: int,
    column: int,
    px: int,
)
    requires
        0 < rows,
        dimensions(old_image).0 as int / rows > 0,
        tiles_filled(
            old_image,
            new_image,
            rows,
            decreased_recursion_layers,
            row,
            column,
            px,
            dimensions(old_image).0 as int / rows,
        ),
    ensures
        tiles_filled(old_image, new_image, rows, decreased_recursion_layers, row, column, px + 1, 0),
{
    let width = dimensions(old_image).0;
    let tile_width = width as int / rows;
    let covered = rows * tile_width;
    assert forall|x: u32, y: u32| x < width && y < width implies #[trigger] pixels(new_image)[(
        x,
        y,
    )] == if x < covered && y < covered && filled_before(
        x as int,
        y as int,
        tile_width,
        row,
        column,
        px + 1,
        0,
    ) {
        let from = source_pixel(x as int, y as int, tile_width, decreased_recursion_layers);
        pixels(old_image)[(from.0 as u32, from.1 as u32)]
    } else {
        (0u8, 0u8, 0u8, 0u8)
    } by {
        lemma_tile_of_place(tile_width, rows, x as int);
        lemma_tile_of_place(tile_width, rows, y as int);
        assert(filled_before(x as int, y as int, tile_width, row, column, px + 1, 0)
            == filled_before(x as int, y as int, tile_width, row, column, px, tile_width));
    }
}

/// Once a tile is filled, or is empty, the filling stands at the start of the
/// next tile of the row.
proof fn lemma_tile_filled(
    old_image: DynamicImage,
    new_image: DynamicImage,
    rows: int,
    decreased_recursion_layers: bool,
    row: int,
    column: int,
)
    requires
        0 < rows,
        rows * (dimensions(old_image).0 as int / rows) <= dimensions(old_image).0,
        tiles_filled(
            old_image,
            new_image,
            rows,
            decreased_recursion_layers,
            row,
            column,
            dimensions(old_image).0 as int / rows,
            0,
        ),
    ensures
        tiles_filled(old_image, new_image, rows, decreased_recursion_layers, row, column + 1, 0, 0),
{
    let width = dimensions(old_image).0;
    let tile_width = width as int / rows;
    let covered = rows * tile_width;
    lemma_tiles_fit(width as int, rows);
    assert forall|x: u32, y: u32| x < width && y < width implies #[trigger] pixels(new_image)[(
        x,
        y,
    )] == if x < covered && y < covered && filled_before(
        x as int,
        y as int,
        tile_width,
        row,
        column + 1,
        0,
        0,
    ) {
        let from = source_pixel(x as int, y as int, tile_width, decreased_recursion_layers);
        pixels(old_image)[(from.0 as u32, from.1 as u32)]
    } else {
        (0u8, 0u8, 0u8, 0u8)
    } by {
        if tile_width > 0 {
            lemma_tile_of_place(tile_width, rows, x as int);
            lemma_tile_of_place(tile_width, rows, y as int);
            assert(filled_before(x as int, y as int, tile_width, row, column + 1, 0, 0)
                == filled_before(x as int, y as int, tile_width, row, column, tile_width, 0));
        } else {
            assert(covered == 0) by (nonlinear_arith)
                requires
                    covered == rows * tile_width,
                    tile_width == 0,
            ;
        }
    }
}

/// Once the last tile of a row of tiles is filled, the filling stands at the
/// start of the next row.
proof fn lemma_row_filled(
    old_image: DynamicImage,
    new_image: DynamicImage,
    rows: int,
    decreased_recursion_layers: bool,
    row: int,
)
    requires
        0 < rows,
        rows * (dimensions(old_image).0 as int / rows) <= dimensions(old_image).0,
        tiles_filled(old_image, new_image, rows, decreased_recursion_layers, row, rows, 0, 0),
    ensures
        tiles_filled(old_image, new_image, rows, decreased_recursion_layers, row + 1, 0, 0, 0),
{
    let width = dimensions(old_image).0;
    let tile_width = width as int / rows;
    let covered = rows * tile_width;
    lemma_tiles_fit(width as int, rows);
    assert forall|x: u32, y: u32| x < width && y < width implies #[trigger] pixels(new_image)[(
        x,
        y,
    )] == if x < covered && y < covered && filled_before(
        x as int,
        y as int,
        tile_width,
        row + 1,
        0,
        0,
        0,
    ) {
        let from = source_pixel(x as int, y as int, tile_width, decreased_recursion_layers);
        pixels(old_image)[(from.0 as u32, from.1 as u32)]
    } else {
        (0u8, 0u8, 0u8, 0u8)
    } by {
        if tile_width > 0 {
            lemma_tile_of_place(tile_width, rows, x as int);
            lemma_tile_of_place(tile_width, rows, y as int);
            if x < covered && y < covered {
                assert(filled_before(x as int, y as int, tile_width, row + 1, 0, 0, 0)
                    == filled_before(x as int, y as int, tile_width, row, rows, 0, 0));
            }
        } else {
            assert(covered == 0) by (nonlinear_arith)
                requires
                    covered == rows * tile_width,
                    tile_width == 0,
            ;
        }
    }
}

/// Whether an image can be turned at a depth of recursion: it is square, the
/// depth is from 2 to 32, and four samples for each pixel fit into a vector.
pub open spec fn can_process(old_image: DynamicImage, recursion_layers: u32) -> bool {
    &&& 2 <= recursion_layers <= 32
    &&& dimensions(old_image).0 == dimensions(old_image).1
    &&& 4 * dimensions(old_image).0 * dimensions(old_image).0 <= usize::MAX
}

/// Turns the tiles of every block of two by two by a quarter. The old image
/// must be square, the depth of recursion from 2 to 32, and four samples for
/// each pixel must fit into a vector.
pub fn process_tiles(
    old_image: &DynamicImage,
    recursion_layers: u32,
    decreased_recursion_layers: bool,
) -> (new_image: DynamicImage)
    requires
        can_process(*old_image, recursion_layers),
    ensures
        tiles_rotated(*old_image, new_image, recursion_layers, decreased_recursion_layers),
{
    let rows: u32 = find_number_of_rows(recursion_layers);
    let width: u32 = image_dimensions(old_image).0;
    let tile_width: u32 = width / rows;
    let mut new_image: DynamicImage = blank_image(width, width);
    proof {
        vstd::arithmetic::power2::lemma_pow2_unfold((recursion_layers - 1) as nat);
        lemma_tiles_fit(width as int, rows as int);
        assert(rows % 2 == 0);
    }
    let mut row: u32 = 0;
    while row < rows
        invariant
            row <= rows,
            rows % 2 == 0,
            rows == spec_number_of_rows(recursion_layers),
            width == dimensions(*old_image).0,
            width == dimensions(*old_image).1,
            tile_width == width / rows,
            rows * tile_width <= width,
            tiles_filled(
                *old_image,
                new_image,
                rows as int,
                decreased_recursion_layers,
                row as int,
                0,
                0,
                0,
            ),
        decreases rows - row,
    {
        let mut column: u32 = 0;
        while column < rows
            invariant
                row < rows,
                column <= rows,
                rows % 2 == 0,
                width == dimensions(*old_image).0,
                width == dimensions(*old_image).1,
                tile_width == width / rows,
                rows * tile_width <= width,
                tiles_filled(
                    *old_image,
                    new_image,
                    rows as int,
                    decreased_recursion_layers,
                    row as int,
                    column as int,
                    0,
                    0,
                ),
            decreases rows - column,
        {
            let destination_tile = Tile { row, column };
            let source_tile: Tile = destination_tile.source_tile(decreased_recursion_layers);
            assert(source_tile.row < rows && source_tile.column < rows);
            proof {
                if tile_width > 0 {
                    lemma_place_is_covered(tile_width as int, rows as int, row as int, 0);
                    lemma_place_is_covered(tile_width as int, rows as int, column as int, 0);
                    lemma_place_is_covered(
                        tile_width as int,
                        rows as int,
                        source_tile.row as int,
                        0,
                    );
                    lemma_place_is_covered(
                        tile_width as int,
                        rows as int,
                        source_tile.column as int,
                        0,
                    );
                } else {
                    assert(row * tile_width == 0 && column * tile_width == 0 && source_tile.row
                        * tile_width == 0 && source_tile.column * tile_width == 0)
                        by (nonlinear_arith)
                        requires
                            tile_width == 0,
                    ;
                }
            }
            let destination: crate::point_u32::PointU32 = destination_tile.top_left_coords(
                tile_width,
            );
            let source: crate::point_u32::PointU32 = source_tile.top_left_coords(tile_width);
            let mut x: u32 = 0;
            while x < tile_width
                invariant
                    row < rows,
                    column < rows,
                    x <= tile_width,
                    source_tile == spec_source_tile(
                        Tile { row, column },
                        decreased_recursion_layers,
                    ),
                    source_tile.row < rows,
                    source_tile.column < rows,
                    destination.x == row * tile_width,
                    destination.y == column * tile_width,
                    source.x == source_tile.row * tile_width,
                    source.y == source_tile.column * tile_width,
                    width == dimensions(*old_image).0,
                    width == dimensions(*old_image).1,
                    tile_width == width / rows,
                    rows * tile_width <= width,
                    tiles_filled(
                        *old_image,
                        new_image,
                        rows as int,
                        decreased_recursion_layers,
                        row as int,
                        column as int,
                        x as int,
                        0,
                    ),
                decreases tile_width - x,
            {
                let mut y: u32 = 0;
                while y < tile_width
                    invariant
                        row < rows,
                        column < rows,
                        x < tile_width,
                        y <= tile_width,
                        source_tile == spec_source_tile(
                            Tile { row, column },
                            decreased_recursion_layers,
                        ),
                        source_tile.row < rows,
                        source_tile.column < rows,
                        destination.x == row * tile_width,
                        destination.y == column * tile_width,
                        source.x == source_tile.row * tile_width,
                        source.y == source_tile.column * tile_width,
                        width == dimensions(*old_image).0,
                        width == dimensions(*old_image).1,
                        tile_width == width / rows,
                        rows * tile_width <= width,
                        tiles_filled(
                            *old_image,
                            new_image,
                            rows as int,
                            decreased_recursion_layers,
                            row as int,
                            column as int,
                            x as int,
                            y as int,
                        ),
                    decreases tile_width - y,
                {
                    proof {
                        lemma_place_is_covered(
                            tile_width as int,
                            rows as int,
                            row as int,
                            x as int,
                        );
                        lemma_place_is_covered(
                            tile_width as int,
                            rows as int,
                            column as int,
                            y as int,
                        );
                        lemma_place_is_covered(
                            tile_width as int,
                            rows as int,
                            source_tile.row as int,
                            x as int,
                        );
                        lemma_place_is_covered(
                            tile_width as int,
                            rows as int,
                            source_tile.column as int,
                            y as int,
                        );
                    }
                    let colour: Colour = pixel_at(old_image, source.x + x, source.y + y);
                    let ghost before = new_image;
                    set_pixel(&mut new_image, destination.x + x, destination.y + y, colour);
                    proof {
                        lemma_pixel_filled(
                            *old_image,
                            before,
                            new_image,
                            rows as int,
                            decreased_recursion_layers,
                            row as int,
                            column as int,
                            x as int,
                            y as int,
                        );
                    }
                    y = y + 1;
                }
                proof {
                    lemma_column_filled(
                        *old_image,
                        new_image,
                        rows as int,
                        decreased_recursion_layers,
                        row as int,
                        column as int,
                        x as int,
                    );
                }
                x = x + 1;
            }
            proof {
                lemma_tile_filled(
                    *old_image,
                    new_image,
                    rows as int,
                    decreased_recursion_layers,
                    row as int,
                    column as int,
                );
            }
            column = column + 1;
        }
        proof {
            lemma_row_filled(
                *old_image,
                new_image,
                rows as int,
                decreased_recursion_layers,
                row as int,
            );
        }
        row = row + 1;
    }
    new_image
}

/// Turns the tiles of every block of two by two by a quarter where that can
/// be done, and returns nothing where it cannot.
pub fn try_process_tiles(
    old_image: &DynamicImage,
    recursion_layers: u32,
    decreased_recursion_layers: bool,
) -> (result: Option<DynamicImage>)
    ensures
        result.is_some() <==> can_process(*old_image, recursion_layers),
        result matches Some(new_image) ==> tiles_rotated(
            *old_image,
            new_image,
            recursion_layers,
            decreased_recursion_layers,
        ),
{
    if recursion_layers < 2 || recursion_layers > 32 {
        return None;
    }
    let size: (u32, u32) = image_dimensions(old_image);
    if size.0 != size.1 {
        return None;
    }
    if !fits_a_vector(size.0) {
        return None;
    }
    Some(process_tiles(old_image, recursion_layers, decreased_recursion_layers))
}

/// Whether four samples for each pixel of a square image of the given side
/// fit into a vector.
fn fits_a_vector(side: u32) -> (fits: bool)
    ensures
        fits == (4 * side * side <= usize::MAX),
{
    let wide: u128 = side as u128;
    assert(wide * wide <= 0xFFFF_FFFF * 0xFFFF_FFFF) by (nonlinear_arith)
        requires
            0 <= wide <= 0xFFFF_FFFF,
    ;
    let samples: u128 = 4 * (wide * wide);
    assert(samples == 4 * side * side) by (nonlinear_arith)
        requires
            samples == 4 * (wide * wide),
            wide == side,
    ;
    samples <= usize::MAX as u128
}

/// The keys that the sketch reacts to.
#[derive(Debug, Copy, Clone, PartialEq, Eq, Structural)]
pub enum Key {
    Right,
    Left,
    Space,
    R,
    Other,
}

/// What a key asks for beyond what it did to the model.
#[derive(Debug, Copy, Clone, PartialEq, Eq, Structural)]
pub enum KeyEffect {
    /// Nothing more.
    Done,
    /// The image has to be loaded again and a fresh model made of it.
    Reload,
}

/// Why an image cannot be turned tile by tile.
#[derive(Debug, Copy, Clone, PartialEq, Eq, Structural)]
pub enum ImageError {
    /// The image's width and height differ.
    NotSquare,
    /// The image's side is no power of two.
    NotPowerOfTwo,
    /// Four samples for each pixel of the image do not fit into a vector.
    TooLarge,
}

/// Whether `n` is a power of two.
pub fn is_power_of_two(n: u32) -> (power: bool)
    ensures
        power == is_pow2(n as int),
{
    if n == 0 {
        proof {
            reveal(is_pow2);
        }
        return false;
    }
    let mut rest: u32 = n;
    while rest % 2 == 0
        invariant
            rest >= 1,
            is_pow2(rest as int) == is_pow2(n as int),
        decreases rest,
    {
        proof {
            reveal(is_pow2);
        }
        rest = rest / 2;
    }
    proof {
        reveal(is_pow2);
    }
    rest == 1
}

/// A power of two within the range of `u32` is at most 2^31.
proof fn lemma_power_of_two_bound(n: u32)
    requires
        is_pow2(n as int),
    ensures
        1 <= n <= 0x8000_0000,
{
    vstd::arithmetic::power2::is_pow2_equiv(n as int);
    let e = choose|e: nat| vstd::arithmetic::power::pow(2, e) == n as int;
    lemma2_to64();
    vstd::arithmetic::power2::lemma_pow2_pos(e);
    assert(pow2(e) == n);
    if e > 32 {
        lemma_pow2_strictly_increases(32, e);
    }
    if e < 31 {
        lemma_pow2_strictly_increases(e, 31);
    }
}

/// At 31 layers or more the tiles of an image are at most two pixels' width
/// short of the range of `u32`.
proof fn lemma_rows_grow(recursion_layers: u32)
    requires
        2 <= recursion_layers,
    ensures
        recursion_layers >= 32 ==> spec_number_of_rows(recursion_layers) >= 0x8000_0000,
        recursion_layers < 32 ==> spec_number_of_rows(recursion_layers) <= 0x4000_0000,
{
    lemma2_to64();
    if recursion_layers > 32 {
        lemma_pow2_strictly_increases(31, (recursion_layers - 1) as nat);
    }
    if recursion_layers < 31 {
        lemma_pow2_strictly_increases((recursion_layers - 1) as nat, 30);
    }
}

/// A square image together with the depth to which its tiles are being
/// turned.
pub struct Model {
    image: DynamicImage,
    recursion_layers: u32,
}

impl Model {
    /// The image as it stands.
    pub closed spec fn image(&self) -> DynamicImage {
        self.image
    }

    /// The depth of recursion.
    pub closed spec fn layers(&self) -> u32 {
        self.recursion_layers
    }

    /// The image is square, its side a power of two, a copy of it fits into a
    /// vector, and the depth is between 1 and 31.
    pub open spec fn wf(&self) -> bool {
        &&& dimensions(self.image()).0 == dimensions(self.image()).1
        &&& is_pow2(dimensions(self.image()).0 as int)
        &&& 4 * dimensions(self.image()).0 * dimensions(self.image()).0 <= usize::MAX
        &&& 1 <= self.layers() <= 31
    }

    /// The depth after the right arrow: one layer more, or two layers where
    /// one more would leave tiles of a single pixel or less.
    pub open spec fn layers_after_right(&self) -> u32 {
        let deeper = (self.layers() + 1) as u32;
        if dimensions(self.image()).0 as int / (spec_number_of_rows(deeper) as int) <= 1 {
            2
        } else {
            deeper
        }
    }

    /// The depth at which the left arrow turns the tiles: the current depth,
    /// or, from depth one, the deepest at which tiles are two pixels wide.
    pub open spec fn layers_for_left(&self) -> u32 {
        if self.layers() == 1 {
            (spec_number_of_layers(dimensions(self.image()).0) - 1) as u32
        } else {
            self.layers()
        }
    }

    /// Whether the left arrow can be obeyed: from depth one only with an
    /// image of at least four pixels' width.
    pub open spec fn can_turn_back(&self) -> bool {
        self.layers() != 1 || dimensions(self.image()).0 >= 4
    }

    /// Takes an image in at depth one, or says why it cannot be turned.
    pub fn new(image: DynamicImage) -> (result: Result<Model, ImageError>)
        ensures
            match result {
                Ok(model) => model.wf() && model.image() == image && model.layers() == 1,
                Err(ImageError::NotSquare) => dimensions(image).0 != dimensions(image).1,
                Err(ImageError::NotPowerOfTwo) => dimensions(image).0 == dimensions(image).1
                    && !is_pow2(dimensions(image).0 as int),
                Err(ImageError::TooLarge) => dimensions(image).0 == dimensions(image).1 && is_pow2(
                    dimensions(image).0 as int,
                ) && 4 * dimensions(image).0 * dimensions(image).0 > usize::MAX,
            },
    {
        let size: (u32, u32) = image_dimensions(&image);
        if size.0 != size.1 {
            return Err(ImageError::NotSquare);
        }
        if !is_power_of_two(size.0) {
            return Err(ImageError::NotPowerOfTwo);
        }
        if !fits_a_vector(size.0) {
            return Err(ImageError::TooLarge);
        }
        Ok(Model { image, recursion_layers: 1 })
    }

    /// The image as it stands.
    pub fn picture(&self) -> (image: &DynamicImage)
        ensures
            *image == self.image(),
    {
        &self.image
    }

    /// The depth of recursion.
    pub fn recursion_layers(&self) -> (layers: u32)
        ensures
            layers == self.layers(),
    {
        self.recursion_layers
    }

    /// Whether the left arrow can be obeyed.
    pub fn turns_back(&self) -> (possible: bool)
        ensures
            possible == self.can_turn_back(),
    {
        self.recursion_layers != 1 || image_dimensions(&self.image).0 >= 4
    }

    /// Reacts to a key. The right arrow goes one layer deeper and turns the
    /// tiles one way; the left arrow turns them the other way and goes one
    /// layer back; the space bar sets the depth to two; R asks for the image
    /// to be loaded again.
    pub fn key_pressed(&mut self, key: Key) -> (effect: KeyEffect)
        requires
            old(self).wf(),
            key == Key::Left ==> old(self).can_turn_back(),
        ensures
            final(self).wf(),
            effect == if key == Key::R {
                KeyEffect::Reload
            } else {
                KeyEffect::Done
            },
            match key {
                Key::Right => {
                    &&& final(self).layers() == old(self).layers_after_right()
                    &&& tiles_rotated(
                        old(self).image(),
                        final(self).image(),
                        old(self).layers_after_right(),
                        false,
                    )
                },
                Key::Left => {
                    &&& final(self).layers() == old(self).layers_for_left() - 1
                    &&& tiles_rotated(
                        old(self).image(),
                        final(self).image(),
                        old(self).layers_for_left(),
                        true,
                    )
                },
                Key::Space => final(self).layers() == 2 && final(self).image() == old(self).image(),
                Key::R | Key::Other => final(self).layers() == old(self).layers() && final(self).image() == old(self).image(),
            },
    {
        let width: u32 = image_dimensions(&self.image).0;
        proof {
            lemma_power_of_two_bound(width);
        }
        match key {
            Key::Right => {
                let mut layers: u32 = self.recursion_layers + 1;
                proof {
                    lemma_rows_grow(layers);
                }
                let rows: u32 = find_number_of_rows(layers);
                assert(layers >= 32 ==> width / rows <= 1) by (nonlinear_arith)
                    requires
                        width <= 0x8000_0000,
                        layers >= 32 ==> rows >= 0x8000_0000,
                ;
                if width / rows <= 1 {
                    layers = 2;
                }
                let image: DynamicImage = process_tiles(&self.image, layers, false);
                self.image = image;
                self.recursion_layers = layers;
                proof {
                    vstd::arithmetic::power2::is_pow2_equiv(width as int);
                }
                KeyEffect::Done
            },
            Key::Left => {
                let mut layers: u32 = self.recursion_layers;
                if layers == 1 {
                    proof {
                        lemma_number_of_layers_is_least(width);
                        lemma2_to64();
                    }
                    layers = find_number_of_layers(width) - 1;
                }
                let image: DynamicImage = process_tiles(&self.image, layers, true);
                self.image = image;
                self.recursion_layers = layers - 1;
                KeyEffect::Done
            },
            Key::Space => {
                self.recursion_layers = 2;
                KeyEffect::Done
            },
            Key::R => KeyEffect::Reload,
            Key::Other => KeyEffect::Done,
        }
    }
}

} // verus!
