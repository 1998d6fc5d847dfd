//! Covering a length with copies of a block.
//!
//! A destination of `length` pixels is covered by laying a block of `block`
//! pixels end to end from its start. Every tile is a whole block but the last
//! one, which is cut to what is left. A block of no pixels covers nothing.

use vstd::math::min;
use vstd::prelude::*;

verus! {

/// A run of pixels along one axis: `length` pixels from `start` on, counted
/// from the start of the destination.
#[derive(Clone, Copy, Debug, PartialEq, Eq, Structural)]
pub struct Span {
    pub start: u32,
    pub length: u32,
}

impl Span {
    /// The pixel at distance `d` from the start of the destination lies in
    /// this span.
    pub open spec fn contains(self, d: int) -> bool {
        self.start <= d < self.start + self.length
    }
}

/// The number of tiles that cover `length` pixels with a block of `block`
/// pixels: `length / block`, rounded up, and none for an empty block.
pub open spec fn tile_count(length: u32, block: u32) -> nat {
    if block == 0 {
        0
    } else {
        ((length + block - 1) / (block as int)) as nat
    }
}

/// The tile of index `i`: it starts `i` blocks into the destination and is a
/// whole block, or what is left of the destination if that is less.
pub open spec fn tile_at(length: u32, block: u32, i: int) -> Span {
    Span { start: (i * block) as u32, length: min(block as int, length - i * block) as u32 }
}

/// The tiles that cover `length` pixels with a block of `block` pixels, from
/// the start of the destination on.
pub open spec fn tiles(length: u32, block: u32) -> Seq<Span> {
    Seq::new(tile_count(length, block), |i: int| tile_at(length, block, i))
}

/// The sum of the lengths of the spans.
pub open spec fn total_length(spans: Seq<Span>) -> int
    decreases spans.len(),
{
    if spans.len() == 0 {
        0
    } else {
        total_length(spans.drop_last()) + spans.last().length
    }
}

/// `n` blocks reach the end of the destination exactly when `n` is at least
/// the number of tiles.
pub proof fn lemma_tile_count_bounds(length: u32, block: u32, n: int)
    requires
        block > 0,
    ensures
        n * block >= length <==> n >= tile_count(length, block),
{
    let d = block as int;
    let x = length + block - 1;
    let q = x / d;
    let r = x % d;
    vstd::arithmetic::div_mod::lemma_fundamental_div_mod(x, d);
    vstd::arithmetic::div_mod::lemma_mod_bound(x, d);
    assert(x == d * q + r);
    assert(q >= 0) by (nonlinear_arith)
        requires
            x == d * q + r,
            0 <= r < d,
            x >= 0,
    ;
    assert(n * d >= length <==> n >= q) by (nonlinear_arith)
        requires
            x == d * q + r,
            0 <= r < d,
            x == length + d - 1,
    ;
}

/// Every tile starts inside the destination, has at least one pixel and at
/// most a block, and ends inside the destination.
pub proof fn lemma_tile_bounds(length: u32, block: u32, i: int)
    requires
        0 <= i < tile_count(length, block),
    ensures
        tile_at(length, block, i).start == i * block,
        tile_at(length, block, i).length == min(block as int, length - i * block),
        0 < tile_at(length, block, i).length <= block,
        i * block + tile_at(length, block, i).length <= length,
{
    lemma_tile_count_bounds(length, block, i);
    assert(i * block >= 0) by (nonlinear_arith)
        requires
            i >= 0,
            block >= 0,
    ;
}

/// A destination without pixels takes no tile, whatever the block.
pub proof fn lemma_tiles_of_nothing(block: u32)
    ensures
        tiles(0, block) =~= Seq::<Span>::empty(),
{
    if block > 0 {
        lemma_tile_count_bounds(0, block, 0);
    }
}

/// A destination as long as a block that has pixels takes the one whole
/// block.
pub proof fn lemma_tiles_of_one_block(block: u32)
    requires
        block > 0,
    ensures
        tiles(block, block) =~= seq![Span { start: 0, length: block }],
{
    lemma_tile_count_bounds(block, block, 0);
    lemma_tile_count_bounds(block, block, 1);
    lemma_tile_bounds(block, block, 0);
}

/// The first `n` tiles together are `n` blocks long, or as long as the
/// destination if that is less.
proof fn lemma_prefix_length(length: u32, block: u32, n: int)
    requires
        0 <= n <= tile_count(length, block),
    ensures
        total_length(tiles(length, block).take(n)) == min(n * block, length as int),
    decreases n,
{
    let all = tiles(length, block);
    if n == 0 {
        assert(all.take(0).len() == 0);
    } else {
        lemma_prefix_length(length, block, n - 1);
        lemma_tile_bounds(length, block, n - 1);
        assert(all.take(n).drop_last() =~= all.take(n - 1));
        assert(all.take(n).last() == tile_at(length, block, n - 1));
        assert(n * block == (n - 1) * block + block) by (nonlinear_arith);
    }
}

/// Tiling covers the whole destination: with a block that has pixels, the
/// number of tiles is `length / block`, rounded up, and their lengths add up
/// to `length`.
pub proof fn lemma_tiles_cover(length: u32, block: u32)
    requires
        block > 0,
    ensures
        tiles(length, block).len() == (length + block - 1) / (block as int),
        total_length(tiles(length, block)) == length,
{
    let all = tiles(length, block);
    let n = all.len() as int;
    lemma_prefix_length(length, block, n);
    lemma_tile_count_bounds(length, block, n);
    assert(all.take(n) =~= all);
}

/// Every pixel of the destination lies in exactly one tile: the pixel at
/// distance `d` lies in the tile of index `d / block`, `d % block` pixels
/// from the tile's start, and in no other.
pub proof fn lemma_tile_of_pixel(length: u32, block: u32, d: int)
    requires
        block > 0,
        0 <= d < length,
    ensures
        0 <= d / (block as int) < tile_count(length, block),
        tiles(length, block)[d / (block as int)].contains(d),
        d - tiles(length, block)[d / (block as int)].start == d % (block as int),
        forall|i: int|
            0 <= i < tile_count(length, block) && #[trigger] tiles(length, block)[i].contains(d)
                ==> i == d / (block as int),
{
    let b = block as int;
    let q = d / b;
    let r = d % b;
    vstd::arithmetic::div_mod::lemma_fundamental_div_mod(d, b);
    vstd::arithmetic::div_mod::lemma_mod_bound(d, b);
    assert(q >= 0) by (nonlinear_arith)
        requires
            d == b * q + r,
            0 <= r < b,
            d >= 0,
    ;
    assert(q * b == b * q) by (nonlinear_arith);
    lemma_tile_count_bounds(length, block, q);
    lemma_tile_bounds(length, block, q);
    assert forall|i: int|
        0 <= i < tile_count(length, block) && #[trigger] tiles(length, block)[i].contains(
            d,
        ) implies i == q by {
        lemma_tile_bounds(length, block, i);
        assert(i == q) by (nonlinear_arith)
            requires
                i * b <= d < i * b + b,
                q * b <= d < q * b + b,
        ;
    }
}

/// A pixel outside the destination lies in no tile.
pub proof fn lemma_tiles_within(length: u32, block: u32, i: int, d: int)
    requires
        0 <= i < tile_count(length, block),
        tiles(length, block)[i].contains(d),
    ensures
        0 <= d < length,
{
    lemma_tile_bounds(length, block, i);
    assert(i * block >= 0) by (nonlinear_arith)
        requires
            i >= 0,
            block >= 0,
    ;
}

/// Covers `length` pixels with a block of `block` pixels: the tiles from the
/// start of the destination on, each a whole block but the last, which is cut
/// to what is left. An empty block gives no tile, and so does an empty
/// destination.
pub fn tile_spans(length: u32, block: u32) -> (spans: Vec<Span>)
    ensures
        spans@ == tiles(length, block),
        length == 0 || block == 0 ==> spans@.len() == 0,
        block > 0 ==> spans@.len() == (length + block - 1) / (block as int),
        block > 0 ==> total_length(spans@) == length,
{
    let mut spans: Vec<Span> = Vec::new();
    proof {
        lemma_tiles_of_nothing(block);
        if block > 0 {
            lemma_tiles_cover(length, block);
        }
    }
    if block == 0 {
        assert(spans@ =~= tiles(length, block));
        return spans;
    }
    let mut start: u32 = 0;
    proof {
        lemma_tile_count_bounds(length, block, 0);
    }
    while start < length
        invariant
            block > 0,
            start <= length,
            start == min(spans@.len() * block, length as int),
            spans@.len() <= tile_count(length, block),
            forall|i: int| 0 <= i < spans@.len() ==> spans@[i] == tile_at(length, block, i),
        decreases length - start,
    {
        let ghost n = spans@.len() as int;
        let remaining: u32 = length - start;
        let paint: u32 = if remaining < block {
            remaining
        } else {
            block
        };
        proof {
            lemma_tile_count_bounds(length, block, n);
            lemma_tile_count_bounds(length, block, n + 1);
            assert((n + 1) * block == n * block + block) by (nonlinear_arith);
        }
        spans.push(Span { start, length: paint });
        start = start + paint;
    }
    proof {
        lemma_tile_count_bounds(length, block, spans@.len() as int);
        assert(spans@ =~= tiles(length, block));
    }
    spans
}

} // verus!
