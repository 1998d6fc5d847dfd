//! Regions: one copy of a rectangle of the template into the panel.

use crate::geometry::{Point, Rectangle, Size};
use crate::tiling::{
    lemma_tile_bounds, lemma_tile_of_pixel, lemma_tiles_of_nothing,
    lemma_tiles_of_one_block, lemma_tiles_within, tile_count, tile_spans, tiles, Span,
};
use vstd::prelude::*;

verus! {

/// A rectangle of the template and the place in the panel where its top left
/// pixel goes. Painting a region copies every pixel of `source` to the panel,
/// keeping the pixels' places relative to each other.
#[derive(Clone, Copy, Debug, PartialEq, Eq, Structural)]
pub struct Region {
    /// The rectangle of the template that is copied.
    pub source: Rectangle,
    /// Where in the panel the top left pixel of `source` is painted.
    pub offset: Point,
}

impl Region {
    /// The region that copies `source` to `offset`.
    pub fn new(source: Rectangle, offset: Point) -> (r: Region)
        ensures
            r == (Region { source, offset }),
    {
        Region { source, offset }
    }

    /// The rectangle of the panel that the region paints.
    pub open spec fn destination(self) -> Rectangle {
        Rectangle { top_left: self.offset, size: self.source.size }
    }

    /// The region paints the pixel `(x, y)` of the panel.
    pub open spec fn covers(self, x: int, y: int) -> bool {
        self.destination().contains(x, y)
    }

    /// The pixel of the template that the region paints at `(x, y)` of the
    /// panel.
    pub open spec fn source_of(self, x: int, y: int) -> (int, int) {
        (self.source.left() + (x - self.offset.x), self.source.top() + (y - self.offset.y))
    }

    /// Both rectangles of the region are within the coordinate range.
    pub open spec fn addressable(self) -> bool {
        self.source.addressable() && self.destination().addressable()
    }

    /// Tells whether both rectangles are within the coordinate range.
    pub fn is_addressable(&self) -> (b: bool)
        ensures
            b == self.addressable(),
    {
        self.source.is_addressable() && self.destination_rect().is_addressable()
    }

    /// The rectangle of the panel that the region paints.
    pub fn destination_rect(&self) -> (r: Rectangle)
        ensures
            r == self.destination(),
    {
        Rectangle { top_left: self.offset, size: self.source.size }
    }

    /// What is left of the region inside `area`, a rectangle of the panel:
    /// nothing if the region paints no pixel of `area`, else the region that
    /// paints the common part of its destination and `area`, from the part
    /// of `source` that lies as far inside `source` as the common part lies
    /// inside the destination.
    pub open spec fn clipped(self, area: Rectangle) -> Option<Region> {
        let common = self.destination().spec_intersection(area);
        if common.is_empty() {
            None
        } else {
            Some(
                Region {
                    source: Rectangle {
                        top_left: Point {
                            x: (self.source.top_left.x + (common.top_left.x - self.offset.x)) as i32,
                            y: (self.source.top_left.y + (common.top_left.y - self.offset.y)) as i32,
                        },
                        size: common.size,
                    },
                    offset: common.top_left,
                },
            )
        }
    }

    /// Restricts the region to `area`. What is left paints exactly the pixels
    /// of `area` that the region paints, each from the same pixel of the
    /// template as the region does.
    pub fn clip(&self, area: &Rectangle) -> (kept: Option<Region>)
        requires
            self.addressable(),
            area.addressable(),
        ensures
            kept == self.clipped(*area),
            match kept {
                Some(r) => {
                    &&& r.addressable()
                    &&& !r.source.is_empty()
                    &&& forall|x: int, y: int| #[trigger]
                        r.covers(x, y) <==> self.covers(x, y) && area.contains(x, y)
                    &&& forall|x: int, y: int| #[trigger]
                        r.covers(x, y) ==> r.source_of(x, y) == self.source_of(x, y)
                },
                None => forall|x: int, y: int| !(#[trigger] self.covers(x, y) && area.contains(x, y)),
            },
    {
        let destination = self.destination_rect();
        let common = destination.intersection(area);
        if common.is_zero_sized() {
            None
        } else {
            let dx: i32 = common.top_left.x - self.offset.x;
            let dy: i32 = common.top_left.y - self.offset.y;
            let top_left = Point::new(self.source.top_left.x + dx, self.source.top_left.y + dy);
            Some(Region { source: Rectangle::new(top_left, common.size), offset: common.top_left })
        }
    }
}

/// Clipping is congruent: what `clipped` leaves of a region paints a pixel
/// exactly when the region paints it and it lies in `area`, and paints it
/// from the same pixel of the template.
pub proof fn lemma_clipped_congruent(region: Region, area: Rectangle)
    requires
        region.addressable(),
    ensures
        match region.clipped(area) {
            Some(r) => {
                &&& r.addressable()
                &&& !r.source.is_empty()
                &&& forall|x: int, y: int| #[trigger]
                    r.covers(x, y) <==> region.covers(x, y) && area.contains(x, y)
                &&& forall|x: int, y: int| #[trigger]
                    r.covers(x, y) ==> r.source_of(x, y) == region.source_of(x, y)
            },
            None => forall|x: int, y: int| !(#[trigger] region.covers(x, y) && area.contains(x, y)),
        },
{
}

/// The region that paints one tile: `column` and `row` say which part of
/// `destination` it fills, and it is copied from the top left of `source`.
pub open spec fn tile_region_at(
    source: Rectangle,
    destination: Rectangle,
    column: Span,
    row: Span,
) -> Region {
    Region {
        source: Rectangle {
            top_left: source.top_left,
            size: Size { width: column.length, height: row.length },
        },
        offset: Point {
            x: (destination.top_left.x + column.start) as i32,
            y: (destination.top_left.y + row.start) as i32,
        },
    }
}

/// The regions that fill `destination` with copies of `source`, laid side by
/// side in rows from the top left: the rows from top to bottom, each from
/// left to right. The copies in the last column and in the last row are cut
/// to what is left of `destination`.
pub open spec fn tiled(source: Rectangle, destination: Rectangle) -> Seq<Region> {
    let columns = tiles(destination.size.width, source.size.width);
    let rows = tiles(destination.size.height, source.size.height);
    Seq::new(
        rows.len() * columns.len(),
        |k: int|
            tile_region_at(
                source,
                destination,
                columns[k % (columns.len() as int)],
                rows[k / (columns.len() as int)],
            ),
    )
}

/// The index in `tiled` of the tile that paints the pixel `(x, y)` of
/// `destination`: rows are counted in blocks from its top, columns in blocks
/// from its left.
pub open spec fn tile_index(source: Rectangle, destination: Rectangle, x: int, y: int) -> int {
    let row = (y - destination.top()) / (source.size.height as int);
    let column = (x - destination.left()) / (source.size.width as int);
    row * tile_count(destination.size.width, source.size.width) + column
}

/// The pixel of the template that shows at the pixel `(x, y)` of
/// `destination` when `source` is tiled over it: `source` repeats every
/// `source.size.width` columns and every `source.size.height` rows.
pub open spec fn tile_source(source: Rectangle, destination: Rectangle, x: int, y: int) -> (
    int,
    int,
) {
    (
        source.left() + (x - destination.left()) % (source.size.width as int),
        source.top() + (y - destination.top()) % (source.size.height as int),
    )
}

/// A source or a destination without pixels gives no tile.
pub proof fn lemma_tiled_nothing(source: Rectangle, destination: Rectangle)
    requires
        source.is_empty() || destination.is_empty(),
    ensures
        tiled(source, destination) =~= Seq::<Region>::empty(),
{
    lemma_tiles_of_nothing(source.size.width);
    lemma_tiles_of_nothing(source.size.height);
    let columns = tile_count(destination.size.width, source.size.width);
    let rows = tile_count(destination.size.height, source.size.height);
    assert(rows * columns == 0) by (nonlinear_arith)
        requires
            rows == 0 || columns == 0,
    ;
}

/// A destination of the size of the source takes the source once, whole.
pub proof fn lemma_tiled_once(source: Rectangle, destination: Rectangle)
    requires
        source.size == destination.size,
        !source.is_empty(),
    ensures
        tiled(source, destination) =~= seq![
            Region { source, offset: destination.top_left },
        ],
{
    lemma_tiles_of_one_block(source.size.width);
    lemma_tiles_of_one_block(source.size.height);
    let columns = tiles(destination.size.width, source.size.width);
    let rows = tiles(destination.size.height, source.size.height);
    assert(columns.len() == 1 && rows.len() == 1);
    assert(rows.len() * columns.len() == 1);
    assert(columns[0] == Span { start: 0, length: source.size.width });
    assert(rows[0] == Span { start: 0, length: source.size.height });
    assert(tiled(source, destination)[0] == Region { source, offset: destination.top_left });
}

/// A destination as high as the source is tiled in one row: there are as many
/// tiles as the width takes, each as high as the source, side by side from
/// the left.
pub proof fn lemma_tiled_row(source: Rectangle, destination: Rectangle)
    requires
        source.size.height == destination.size.height,
        source.size.height > 0,
    ensures
        tiled(source, destination).len() == tile_count(
            destination.size.width,
            source.size.width,
        ),
        forall|k: int|
            0 <= k < tiled(source, destination).len() ==> #[trigger] tiled(source, destination)[k]
                == tile_region_at(
                source,
                destination,
                tiles(destination.size.width, source.size.width)[k],
                Span { start: 0, length: source.size.height },
            ),
{
    lemma_tiles_of_one_block(source.size.height);
    let columns = tile_count(destination.size.width, source.size.width) as int;
    assert(1 * columns == columns) by (nonlinear_arith);
    assert forall|k: int| 0 <= k < tiled(source, destination).len() implies #[trigger] tiled(
        source,
        destination,
    )[k] == tile_region_at(
        source,
        destination,
        tiles(destination.size.width, source.size.width)[k],
        Span { start: 0, length: source.size.height },
    ) by {
        vstd::arithmetic::div_mod::lemma_fundamental_div_mod_converse(k, columns, 0, k);
    }
}

/// A destination as wide as the source is tiled in one column: there are as
/// many tiles as the height takes, each as wide as the source, one below the
/// other from the top.
pub proof fn lemma_tiled_column(source: Rectangle, destination: Rectangle)
    requires
        source.size.width == destination.size.width,
        source.size.width > 0,
    ensures
        tiled(source, destination).len() == tile_count(
            destination.size.height,
            source.size.height,
        ),
        forall|k: int|
            0 <= k < tiled(source, destination).len() ==> #[trigger] tiled(source, destination)[k]
                == tile_region_at(
                source,
                destination,
                Span { start: 0, length: source.size.width },
                tiles(destination.size.height, source.size.height)[k],
            ),
{
    lemma_tiles_of_one_block(source.size.width);
    let rows = tile_count(destination.size.height, source.size.height) as int;
    assert(rows * 1 == rows) by (nonlinear_arith);
    assert forall|k: int| 0 <= k < tiled(source, destination).len() implies #[trigger] tiled(
        source,
        destination,
    )[k] == tile_region_at(
        source,
        destination,
        Span { start: 0, length: source.size.width },
        tiles(destination.size.height, source.size.height)[k],
    ) by {
        vstd::arithmetic::div_mod::lemma_fundamental_div_mod_converse(k, 1, k, 0);
    }
}

/// A tile paints only pixels of the destination; it paints each from the
/// pixel of the template that `tile_source` names; and it is the tile that
/// `tile_index` names, so that no two tiles paint the same pixel.
pub proof fn lemma_tiled_within(
    source: Rectangle,
    destination: Rectangle,
    k: int,
    x: int,
    y: int,
)
    requires
        destination.addressable(),
        0 <= k < tiled(source, destination).len(),
        tiled(source, destination)[k].covers(x, y),
    ensures
        !source.is_empty(),
        destination.contains(x, y),
        tiled(source, destination)[k].source_of(x, y) == tile_source(source, destination, x, y),
        k == tile_index(source, destination, x, y),
{
    let (row, column) = lemma_tiled_index(source, destination, k);
    let dx = x - destination.left();
    let dy = y - destination.top();
    lemma_tile_bounds(destination.size.width, source.size.width, column);
    lemma_tile_bounds(destination.size.height, source.size.height, row);
    assert(tiles(destination.size.width, source.size.width)[column].contains(dx));
    assert(tiles(destination.size.height, source.size.height)[row].contains(dy));
    lemma_tiles_within(destination.size.width, source.size.width, column, dx);
    lemma_tiles_within(destination.size.height, source.size.height, row, dy);
    lemma_tile_of_pixel(destination.size.width, source.size.width, dx);
    lemma_tile_of_pixel(destination.size.height, source.size.height, dy);
}

/// Tiling leaves no pixel out: if the source has pixels, every pixel of the
/// destination is painted by the tile that `tile_index` names.
pub proof fn lemma_tiled_covers(source: Rectangle, destination: Rectangle, x: int, y: int)
    requires
        destination.addressable(),
        !source.is_empty(),
        destination.contains(x, y),
    ensures
        0 <= tile_index(source, destination, x, y) < tiled(source, destination).len(),
        tiled(source, destination)[tile_index(source, destination, x, y)].covers(x, y),
{
    let dx = x - destination.left();
    let dy = y - destination.top();
    let columns = tile_count(destination.size.width, source.size.width) as int;
    let rows = tile_count(destination.size.height, source.size.height) as int;
    lemma_tile_of_pixel(destination.size.width, source.size.width, dx);
    lemma_tile_of_pixel(destination.size.height, source.size.height, dy);
    let column = dx / (source.size.width as int);
    let row = dy / (source.size.height as int);
    let k = row * columns + column;
    assert(0 <= k < rows * columns) by (nonlinear_arith)
        requires
            k == row * columns + column,
            0 <= row < rows,
            0 <= column < columns,
    ;
    vstd::arithmetic::div_mod::lemma_fundamental_div_mod_converse(k, columns, row, column);
    lemma_tile_bounds(destination.size.width, source.size.width, column);
    lemma_tile_bounds(destination.size.height, source.size.height, row);
}

/// Every tile is within the coordinate range when the source and the
/// destination are.
pub proof fn lemma_tiled_addressable(source: Rectangle, destination: Rectangle, k: int)
    requires
        source.addressable(),
        destination.addressable(),
        0 <= k < tiled(source, destination).len(),
    ensures
        tiled(source, destination)[k].addressable(),
{
    let (row, column) = lemma_tiled_index(source, destination, k);
    lemma_tile_bounds(destination.size.width, source.size.width, column);
    lemma_tile_bounds(destination.size.height, source.size.height, row);
}

/// The tile of index `k` lies in row `k / columns` and column `k % columns`,
/// and both exist.
pub proof fn lemma_tiled_index(source: Rectangle, destination: Rectangle, k: int) -> (at: (
    int,
    int,
))
    requires
        0 <= k < tiled(source, destination).len(),
    ensures
        0 <= at.0 < tile_count(destination.size.height, source.size.height),
        0 <= at.1 < tile_count(destination.size.width, source.size.width),
        at.0 == k / (tile_count(destination.size.width, source.size.width) as int),
        at.1 == k % (tile_count(destination.size.width, source.size.width) as int),
        k == at.0 * tile_count(destination.size.width, source.size.width) + at.1,
        tiled(source, destination)[k] == tile_region_at(
            source,
            destination,
            tiles(destination.size.width, source.size.width)[at.1],
            tiles(destination.size.height, source.size.height)[at.0],
        ),
{
    let columns = tile_count(destination.size.width, source.size.width) as int;
    let rows = tile_count(destination.size.height, source.size.height) as int;
    assert(columns > 0) by (nonlinear_arith)
        requires
            0 <= k < rows * columns,
            rows >= 0,
            columns >= 0,
    ;
    vstd::arithmetic::div_mod::lemma_fundamental_div_mod(k, columns);
    vstd::arithmetic::div_mod::lemma_mod_bound(k, columns);
    let row = k / columns;
    let column = k % columns;
    assert(0 <= row < rows) by (nonlinear_arith)
        requires
            k == columns * row + column,
            0 <= column < columns,
            0 <= k < rows * columns,
    ;
    assert(columns * row == row * columns) by (nonlinear_arith);
    (row, column)
}

/// Fills `destination` with copies of `source`: see `tiled`. A source or a
/// destination without pixels gives no region.
pub fn tile(source: &Rectangle, destination: &Rectangle) -> (regions: Vec<Region>)
    requires
        destination.addressable(),
    ensures
        regions@ == tiled(*source, *destination),
        source.is_empty() || destination.is_empty() ==> regions@.len() == 0,
{
    proof {
        if source.is_empty() || destination.is_empty() {
            lemma_tiled_nothing(*source, *destination);
        }
    }
    let columns = tile_spans(destination.size.width, source.size.width);
    let rows = tile_spans(destination.size.height, source.size.height);
    let mut regions: Vec<Region> = Vec::new();
    let ghost width = columns@.len() as int;
    let mut i: usize = 0;
    while i < rows.len()
        invariant
            destination.addressable(),
            columns@ == tiles(destination.size.width, source.size.width),
            rows@ == tiles(destination.size.height, source.size.height),
            width == columns@.len(),
            0 <= i <= rows@.len(),
            regions@.len() == i * width,
            forall|k: int|
                0 <= k < regions@.len() ==> regions@[k] == tile_region_at(
                    *source,
                    *destination,
                    columns@[k % width],
                    rows@[k / width],
                ),
        decreases rows@.len() - i,
    {
        let row = rows[i];
        proof {
            lemma_tile_bounds(destination.size.height, source.size.height, i as int);
        }
        let y: i32 = destination.top_left.y + row.start as i32;
        let mut j: usize = 0;
        while j < columns.len()
            invariant
                destination.addressable(),
                columns@ == tiles(destination.size.width, source.size.width),
                rows@ == tiles(destination.size.height, source.size.height),
                width == columns@.len(),
                0 <= i < rows@.len(),
                row == rows@[i as int],
                y == destination.top_left.y + row.start,
                0 <= j <= width,
                regions@.len() == i * width + j,
                forall|k: int|
                    0 <= k < regions@.len() ==> regions@[k] == tile_region_at(
                        *source,
                        *destination,
                        columns@[k % width],
                        rows@[k / width],
                    ),
            decreases width - j,
        {
            let column = columns[j];
            proof {
                lemma_tile_bounds(destination.size.width, source.size.width, j as int);
                vstd::arithmetic::div_mod::lemma_fundamental_div_mod_converse(
                    i * width + j,
                    width,
                    i as int,
                    j as int,
                );
            }
            let x: i32 = destination.top_left.x + column.start as i32;
            regions.push(
                Region {
                    source: Rectangle::new(source.top_left, Size::new(column.length, row.length)),
                    offset: Point::new(x, y),
                },
            );
            j = j + 1;
        }
        proof {
            assert((i + 1) * width == i * width + width) by (nonlinear_arith);
        }
        i = i + 1;
    }
    proof {
        assert(regions@ =~= tiled(*source, *destination));
    }
    regions
}

} // verus!
