//! The nine-slice panel: which regions paint it, and in which order.

use crate::config::{lemma_frame_addressable, lemma_frames_tile, Config, Slice};
use crate::geometry::{Rectangle, Size};
use crate::region::{
    lemma_clipped_congruent, lemma_tiled_addressable, lemma_tiled_covers, lemma_tiled_nothing,
    lemma_tiled_column, lemma_tiled_once, lemma_tiled_row, lemma_tiled_within, tile,
    tile_index, tile_region_at, tile_source, tiled, Region,
};
use crate::tiling::{tile_count, tiles, Span};
use vstd::prelude::*;

verus! {

/// Clipping to `area`, as a function of the region.
pub open spec fn clip_to(area: Rectangle) -> spec_fn(Region) -> Option<Region> {
    |r: Region| r.clipped(area)
}

/// The regions that paint one slice of a panel inside `area`: the slice's
/// part of the template, tiled over the slice's part of the panel, each tile
/// clipped to `area`, and the tiles that paint nothing of `area` left out.
/// The center of a panel that does not fill it gives none.
#[verifier::opaque]
pub open spec fn slice_paints(config: Config, template: Size, slice: Slice, area: Rectangle) -> Seq<
    Region,
> {
    if slice == Slice::Center && !config.fill_center {
        Seq::empty()
    } else {
        tiled(config.source(slice, template), config.destination(slice)).filter_map(
            clip_to(area),
        )
    }
}

/// The regions that paint a panel inside `area`, in the order in which they
/// are painted: the corners clockwise from the top left one, then the edges
/// clockwise from the top one, then the center.
pub open spec fn paints(config: Config, template: Size, area: Rectangle) -> Seq<Region> {
    slice_paints(config, template, Slice::TopLeft, area) + slice_paints(
        config,
        template,
        Slice::TopRight,
        area,
    ) + slice_paints(config, template, Slice::BottomRight, area) + slice_paints(
        config,
        template,
        Slice::BottomLeft,
        area,
    ) + slice_paints(config, template, Slice::Top, area) + slice_paints(
        config,
        template,
        Slice::Right,
        area,
    ) + slice_paints(config, template, Slice::Bottom, area) + slice_paints(
        config,
        template,
        Slice::Left,
        area,
    ) + slice_paints(config, template, Slice::Center, area)
}

/// A panel: a template of a given size and the configuration that says how
/// it is cut into slices and how large it is painted.
pub struct NineSlice {
    template: Size,
    config: Config,
}

impl NineSlice {
    #[verifier::type_invariant]
    spec fn well_formed(self) -> bool {
        self.config.addressable() && self.template.addressable()
    }

    /// The size of the template image.
    pub closed spec fn template(&self) -> Size {
        self.template
    }

    /// The configuration of the panel.
    pub closed spec fn config(&self) -> Config {
        self.config
    }

    /// A panel painted from a template of size `template`. Every length of
    /// the template and of the configuration has to be within the coordinate
    /// range.
    pub fn new(template: Size, config: Config) -> (panel: NineSlice)
        requires
            template.addressable(),
            config.addressable(),
        ensures
            panel.template() == template,
            panel.config() == config,
    {
        NineSlice { template, config }
    }

    /// The size of the template image.
    pub fn template_size(&self) -> (s: Size)
        ensures
            s == self.template(),
            s.addressable(),
    {
        proof {
            use_type_invariant(self);
        }
        self.template
    }

    /// The configuration of the panel.
    pub fn configuration(&self) -> (c: Config)
        ensures
            c == self.config(),
            c.addressable(),
    {
        proof {
            use_type_invariant(self);
        }
        self.config
    }

    /// The size of the panel: the configured size, whatever the size of the
    /// template.
    pub fn size(&self) -> (s: Size)
        ensures
            s == self.config().size,
    {
        self.config.size
    }

    /// The regions that paint a slice of the panel when nothing is clipped:
    /// the slice's part of the template, tiled over the slice's part of the
    /// panel.
    pub fn tile_region(&self, slice: Slice) -> (regions: Vec<Region>)
        ensures
            regions@ == tiled(
                self.config().source(slice, self.template()),
                self.config().destination(slice),
            ),
    {
        proof {
            use_type_invariant(self);
        }
        let source = self.config.source_rect(slice, self.template);
        let destination = self.config.destination_rect(slice);
        tile(&source, &destination)
    }

    /// Adds to `plan` the regions that paint a slice inside `area`.
    fn paint_slice(&self, slice: Slice, area: &Rectangle, plan: &mut Vec<Region>)
        requires
            area.addressable(),
            slice != Slice::Center || self.config().fill_center,
        ensures
            final(plan)@ == old(plan)@ + slice_paints(
                self.config(),
                self.template(),
                slice,
                *area,
            ),
    {
        proof {
            use_type_invariant(self);
            reveal(slice_paints);
        }
        let ghost before = plan@;
        let ghost clip = clip_to(*area);
        let source = self.config.source_rect(slice, self.template);
        let destination = self.config.destination_rect(slice);
        let regions = tile(&source, &destination);
        let mut i: usize = 0;
        assert(regions@.take(0).filter_map(clip) =~= Seq::<Region>::empty());
        while i < regions.len()
            invariant
                0 <= i <= regions@.len(),
                area.addressable(),
                source.addressable(),
                destination.addressable(),
                regions@ == tiled(source, destination),
                clip == clip_to(*area),
                plan@ == before + regions@.take(i as int).filter_map(clip),
            decreases regions@.len() - i,
        {
            proof {
                lemma_tiled_addressable(source, destination, i as int);
                regions@.lemma_filter_map_take_succ(clip, i as int);
            }
            match regions[i].clip(area) {
                Some(kept) => {
                    plan.push(kept);
                },
                None => {},
            }
            i = i + 1;
        }
        proof {
            assert(regions@.take(regions@.len() as int) =~= regions@);
        }
    }

    /// The regions that paint the part of the panel inside `area`, in the
    /// order in which they are to be painted. Painting a region copies its
    /// `source` rectangle of the template to the panel, with the top left
    /// pixel at `offset`.
    pub fn draw_sub_image(&self, area: &Rectangle) -> (plan: Vec<Region>)
        requires
            area.addressable(),
        ensures
            plan@ == paints(self.config(), self.template(), *area),
            forall|i: int|
                0 <= i < plan@.len() ==> (#[trigger] plan@[i]).addressable()
                    && !plan@[i].source.is_empty(),
    {
        let mut plan: Vec<Region> = Vec::new();
        proof {
            use_type_invariant(self);
            if !self.config().fill_center {
                reveal(slice_paints);
            }
            lemma_paints_have_pixels(self.config(), self.template(), *area);
        }
        self.paint_slice(Slice::TopLeft, area, &mut plan);
        self.paint_slice(Slice::TopRight, area, &mut plan);
        self.paint_slice(Slice::BottomRight, area, &mut plan);
        self.paint_slice(Slice::BottomLeft, area, &mut plan);
        self.paint_slice(Slice::Top, area, &mut plan);
        self.paint_slice(Slice::Right, area, &mut plan);
        self.paint_slice(Slice::Bottom, area, &mut plan);
        self.paint_slice(Slice::Left, area, &mut plan);
        if self.config.fill_center {
            self.paint_slice(Slice::Center, area, &mut plan);
        }
        plan
    }

    /// The regions that paint the whole panel, in the order in which they are
    /// to be painted.
    pub fn draw(&self) -> (plan: Vec<Region>)
        ensures
            plan@ == paints(
                self.config(),
                self.template(),
                Rectangle::at_origin(self.config().size),
            ),
            forall|i: int|
                0 <= i < plan@.len() ==> (#[trigger] plan@[i]).addressable()
                    && !plan@[i].source.is_empty(),
    {
        proof {
            use_type_invariant(self);
        }
        let area = self.config.bounding_box();
        self.draw_sub_image(&area)
    }
}

/// The number of regions that are painted before those of `slice`.
pub open spec fn paints_before(config: Config, template: Size, slice: Slice, area: Rectangle) -> nat {
    let top_left = slice_paints(config, template, Slice::TopLeft, area).len();
    let top_right = top_left + slice_paints(config, template, Slice::TopRight, area).len();
    let bottom_right = top_right + slice_paints(config, template, Slice::BottomRight, area).len();
    let bottom_left = bottom_right + slice_paints(config, template, Slice::BottomLeft, area).len();
    let top = bottom_left + slice_paints(config, template, Slice::Top, area).len();
    let right = top + slice_paints(config, template, Slice::Right, area).len();
    let bottom = right + slice_paints(config, template, Slice::Bottom, area).len();
    let left = bottom + slice_paints(config, template, Slice::Left, area).len();
    match slice {
        Slice::TopLeft => 0,
        Slice::TopRight => top_left,
        Slice::BottomRight => top_right,
        Slice::BottomLeft => bottom_right,
        Slice::Top => bottom_left,
        Slice::Right => top,
        Slice::Bottom => right,
        Slice::Left => bottom,
        Slice::Center => left,
    }
}

/// The regions of a slice stand together in the plan, after those of the
/// slices before it.
pub proof fn lemma_paints_of_slice(
    config: Config,
    template: Size,
    slice: Slice,
    area: Rectangle,
    i: int,
)
    requires
        0 <= i < slice_paints(config, template, slice, area).len(),
    ensures
        paints_before(config, template, slice, area) + i < paints(config, template, area).len(),
        paints(config, template, area)[paints_before(config, template, slice, area) + i]
            == slice_paints(config, template, slice, area)[i],
{
}

/// Every region of the plan belongs to one slice: the result names the
/// slice and the region's index among the regions of that slice.
pub proof fn lemma_slice_of_paint(config: Config, template: Size, area: Rectangle, i: int) -> (at: (
    Slice,
    int,
))
    requires
        0 <= i < paints(config, template, area).len(),
    ensures
        0 <= at.1 < slice_paints(config, template, at.0, area).len(),
        i == paints_before(config, template, at.0, area) + at.1,
        paints(config, template, area)[i] == slice_paints(config, template, at.0, area)[at.1],
{
    let before = |slice: Slice| paints_before(config, template, slice, area) as int;
    if i < before(Slice::TopRight) {
        (Slice::TopLeft, i)
    } else if i < before(Slice::BottomRight) {
        (Slice::TopRight, i - before(Slice::TopRight))
    } else if i < before(Slice::BottomLeft) {
        (Slice::BottomRight, i - before(Slice::BottomRight))
    } else if i < before(Slice::Top) {
        (Slice::BottomLeft, i - before(Slice::BottomLeft))
    } else if i < before(Slice::Right) {
        (Slice::Top, i - before(Slice::Top))
    } else if i < before(Slice::Bottom) {
        (Slice::Right, i - before(Slice::Right))
    } else if i < before(Slice::Left) {
        (Slice::Bottom, i - before(Slice::Bottom))
    } else if i < before(Slice::Center) {
        (Slice::Left, i - before(Slice::Left))
    } else {
        (Slice::Center, i - before(Slice::Center))
    }
}

/// Every region of the plan is what clipping leaves of one tile of one slice
/// that is painted: the result names the slice and the tile's index. The
/// region's place in the plan is after the regions of the slices before, and
/// after what clipping leaves of the tiles before.
pub proof fn lemma_tile_of_paint(config: Config, template: Size, area: Rectangle, i: int) -> (at: (
    Slice,
    int,
))
    requires
        0 <= i < paints(config, template, area).len(),
    ensures
        at.0 != Slice::Center || config.fill_center,
        0 <= at.1 < tiled(config.source(at.0, template), config.destination(at.0)).len(),
        tiled(config.source(at.0, template), config.destination(at.0))[at.1].clipped(area) == Some(
            paints(config, template, area)[i],
        ),
        i == paints_before(config, template, at.0, area) + tiled(
            config.source(at.0, template),
            config.destination(at.0),
        ).take(at.1).filter_map(clip_to(area)).len(),
{
    let (slice, l) = lemma_slice_of_paint(config, template, area, i);
    reveal(slice_paints);
    let all = tiled(config.source(slice, template), config.destination(slice));
    let k = lemma_kept_from(all, clip_to(area), l);
    (slice, k)
}

/// What clipping leaves of a tile of a slice that is painted stands in the
/// plan, at the place that `lemma_tile_of_paint` describes.
pub proof fn lemma_paint_of_tile(
    config: Config,
    template: Size,
    area: Rectangle,
    slice: Slice,
    k: int,
) -> (i: int)
    requires
        slice != Slice::Center || config.fill_center,
        0 <= k < tiled(config.source(slice, template), config.destination(slice)).len(),
        tiled(config.source(slice, template), config.destination(slice))[k].clipped(area) is Some,
    ensures
        0 <= i < paints(config, template, area).len(),
        Some(paints(config, template, area)[i]) == tiled(
            config.source(slice, template),
            config.destination(slice),
        )[k].clipped(area),
        i == paints_before(config, template, slice, area) + tiled(
            config.source(slice, template),
            config.destination(slice),
        ).take(k).filter_map(clip_to(area)).len(),
{
    reveal(slice_paints);
    let all = tiled(config.source(slice, template), config.destination(slice));
    lemma_kept_at(all, clip_to(area), k);
    let l = all.take(k).filter_map(clip_to(area)).len() as int;
    lemma_paints_of_slice(config, template, slice, area, l);
    paints_before(config, template, slice, area) + l
}

/// Every region of the plan has pixels, and its two rectangles are within the
/// coordinate range.
pub proof fn lemma_paints_have_pixels(config: Config, template: Size, area: Rectangle)
    requires
        config.addressable(),
        template.addressable(),
    ensures
        forall|i: int|
            0 <= i < paints(config, template, area).len() ==> (#[trigger] paints(
                config,
                template,
                area,
            )[i]).addressable() && !paints(config, template, area)[i].source.is_empty(),
{
    let plan = paints(config, template, area);
    assert forall|i: int| 0 <= i < plan.len() implies (#[trigger] plan[i]).addressable()
        && !plan[i].source.is_empty() by {
        let (slice, k) = lemma_tile_of_paint(config, template, area, i);
        let source = config.source(slice, template);
        let destination = config.destination(slice);
        lemma_frame_addressable(config, slice, template);
        lemma_frame_addressable(config, slice, config.size);
        lemma_tiled_addressable(source, destination, k);
        lemma_clipped_congruent(tiled(source, destination)[k], area);
    }
}

/// A region of the plan paints only pixels of `area` that lie in the
/// destination of its slice, each from the pixel of the template that tiling
/// the slice's source over its destination shows there.
pub proof fn lemma_paint_within(
    config: Config,
    template: Size,
    area: Rectangle,
    i: int,
    x: int,
    y: int,
) -> (at: (Slice, int))
    requires
        config.addressable(),
        template.addressable(),
        0 <= i < paints(config, template, area).len(),
        paints(config, template, area)[i].covers(x, y),
    ensures
        area.contains(x, y),
        at.0 != Slice::Center || config.fill_center,
        !config.source(at.0, template).is_empty(),
        config.destination(at.0).contains(x, y),
        at.1 == tile_index(config.source(at.0, template), config.destination(at.0), x, y),
        paints(config, template, area)[i].source_of(x, y) == tile_source(
            config.source(at.0, template),
            config.destination(at.0),
            x,
            y,
        ),
        i == paints_before(config, template, at.0, area) + tiled(
            config.source(at.0, template),
            config.destination(at.0),
        ).take(at.1).filter_map(clip_to(area)).len(),
{
    let (slice, k) = lemma_tile_of_paint(config, template, area, i);
    let source = config.source(slice, template);
    let destination = config.destination(slice);
    lemma_frame_addressable(config, slice, template);
    lemma_frame_addressable(config, slice, config.size);
    lemma_tiled_addressable(source, destination, k);
    lemma_clipped_congruent(tiled(source, destination)[k], area);
    lemma_tiled_within(source, destination, k, x, y);
    (slice, k)
}

/// Whether painting the whole panel paints the pixel `(x, y)`: it lies in the
/// panel, its slice is painted, and the slice's part of the template has
/// pixels to paint it from.
pub open spec fn is_painted(config: Config, template: Size, x: int, y: int) -> bool {
    let slice = config.slice_at(config.size, x, y);
    &&& Rectangle::at_origin(config.size).contains(x, y)
    &&& (slice != Slice::Center || config.fill_center)
    &&& !config.source(slice, template).is_empty()
}

/// The pixel of the template that the panel shows at `(x, y)`: the pixel
/// that lies in the slice's part of the template where `(x, y)` lies in the
/// slice's part of the panel, counted in repeats of the former.
pub open spec fn shown_pixel(config: Config, template: Size, x: int, y: int) -> (int, int) {
    let slice = config.slice_at(config.size, x, y);
    tile_source(config.source(slice, template), config.destination(slice), x, y)
}

/// The plan paints the panel: if the borders fit into the panel, the
/// regions of the plan for `area` paint exactly the pixels of `area` that
/// painting the whole panel paints, each from the pixel of the template that
/// the panel shows there, and no pixel is painted twice.
pub proof fn lemma_plan_paints_panel(config: Config, template: Size, area: Rectangle)
    requires
        config.addressable(),
        template.addressable(),
        config.fits(config.size),
    ensures
        forall|i: int, x: int, y: int|
            0 <= i < paints(config, template, area).len() && #[trigger] paints(
                config,
                template,
                area,
            )[i].covers(x, y) ==> {
                &&& area.contains(x, y)
                &&& is_painted(config, template, x, y)
                &&& paints(config, template, area)[i].source_of(x, y) == shown_pixel(
                    config,
                    template,
                    x,
                    y,
                )
            },
        forall|x: int, y: int|
            area.contains(x, y) && #[trigger] is_painted(config, template, x, y) ==> exists|i: int|
                0 <= i < paints(config, template, area).len() && #[trigger] paints(
                    config,
                    template,
                    area,
                )[i].covers(x, y),
        forall|i: int, j: int, x: int, y: int|
            0 <= i < paints(config, template, area).len() && 0 <= j < paints(
                config,
                template,
                area,
            ).len() && #[trigger] paints(config, template, area)[i].covers(x, y)
                && #[trigger] paints(config, template, area)[j].covers(x, y) ==> i == j,
{
    let plan = paints(config, template, area);
    lemma_frames_tile(config, config.size);
    assert forall|i: int, x: int, y: int| 0 <= i < plan.len() && #[trigger] plan[i].covers(
        x,
        y,
    ) implies {
        &&& area.contains(x, y)
        &&& is_painted(config, template, x, y)
        &&& plan[i].source_of(x, y) == shown_pixel(config, template, x, y)
    } by {
        let (slice, k) = lemma_paint_within(config, template, area, i, x, y);
        assert(config.frame(slice, config.size).contains(x, y));
    }
    assert forall|x: int, y: int|
        area.contains(x, y) && #[trigger] is_painted(config, template, x, y) implies exists|i: int|
        0 <= i < plan.len() && #[trigger] plan[i].covers(x, y) by {
        let slice = config.slice_at(config.size, x, y);
        let source = config.source(slice, template);
        let destination = config.destination(slice);
        assert(config.frame(slice, config.size).contains(x, y));
        lemma_frame_addressable(config, slice, template);
        lemma_frame_addressable(config, slice, config.size);
        lemma_tiled_covers(source, destination, x, y);
        let k = tile_index(source, destination, x, y);
        lemma_tiled_addressable(source, destination, k);
        lemma_clipped_congruent(tiled(source, destination)[k], area);
        let i = lemma_paint_of_tile(config, template, area, slice, k);
        assert(plan[i].covers(x, y));
    }
    assert forall|i: int, j: int, x: int, y: int|
        0 <= i < plan.len() && 0 <= j < plan.len() && #[trigger] plan[i].covers(x, y)
            && #[trigger] plan[j].covers(x, y) implies i == j by {
        let (first, k) = lemma_paint_within(config, template, area, i, x, y);
        let (second, l) = lemma_paint_within(config, template, area, j, x, y);
        assert(config.frame(first, config.size).contains(x, y));
        assert(config.frame(second, config.size).contains(x, y));
    }
}

/// A panel that does not fill its center leaves the center as it is: no
/// region of the plan paints a pixel of the center's destination.
pub proof fn lemma_center_untouched(config: Config, template: Size, area: Rectangle)
    requires
        config.addressable(),
        template.addressable(),
        !config.fill_center,
    ensures
        forall|i: int, x: int, y: int|
            0 <= i < paints(config, template, area).len() && config.destination(
                Slice::Center,
            ).contains(x, y) ==> !#[trigger] paints(config, template, area)[i].covers(x, y),
{
    let plan = paints(config, template, area);
    assert forall|i: int, x: int, y: int|
        0 <= i < plan.len() && config.destination(Slice::Center).contains(
            x,
            y,
        ) implies !#[trigger] plan[i].covers(x, y) by {
        if plan[i].covers(x, y) {
            let (slice, k) = lemma_paint_within(config, template, area, i, x, y);
            assert(config.frame(slice, config.size).contains(x, y));
            assert(config.frame(Slice::Center, config.size).contains(x, y));
        }
    }
}

/// A slice without pixels takes no paint: where the slice's part of the
/// panel is empty, as an edge's or the center's is when the interior has
/// length zero, or where its part of the template is empty, the plan holds no
/// region for it.
pub proof fn lemma_empty_slice_paints_nothing(
    config: Config,
    template: Size,
    slice: Slice,
    area: Rectangle,
)
    requires
        config.destination(slice).is_empty() || config.source(slice, template).is_empty(),
    ensures
        slice_paints(config, template, slice, area) =~= Seq::<Region>::empty(),
{
    reveal(slice_paints);
    lemma_tiled_nothing(config.source(slice, template), config.destination(slice));
}

/// A corner is painted once and never tiled: a corner that has pixels is
/// painted by one region, which copies the whole corner of the template to
/// the corner's place in the panel.
pub proof fn lemma_corner_painted_once(config: Config, template: Size, slice: Slice)
    requires
        slice.is_corner(),
        !config.destination(slice).is_empty(),
    ensures
        tiled(config.source(slice, template), config.destination(slice)) =~= seq![
            Region {
                source: config.source(slice, template),
                offset: config.destination(slice).top_left,
            },
        ],
{
    lemma_tiled_once(config.source(slice, template), config.destination(slice));
}

/// The top and the bottom edge are tiled along the panel's width only: an
/// edge that is at least one pixel high takes as many tiles as the interior
/// width of the panel takes blocks of the interior width of the template,
/// each as high as the edge, side by side from the edge's left end.
pub proof fn lemma_horizontal_edge_tiles(config: Config, template: Size, slice: Slice)
    requires
        slice == Slice::Top || slice == Slice::Bottom,
        config.destination(slice).size.height > 0,
    ensures
        tiled(config.source(slice, template), config.destination(slice)).len() == tile_count(
            config.interior(config.size).width,
            config.interior(template).width,
        ),
        forall|k: int|
            0 <= k < tiled(config.source(slice, template), config.destination(slice)).len()
                ==> #[trigger] tiled(config.source(slice, template), config.destination(slice))[k]
                == tile_region_at(
                config.source(slice, template),
                config.destination(slice),
                tiles(config.interior(config.size).width, config.interior(template).width)[k],
                Span { start: 0, length: config.destination(slice).size.height },
            ),
{
    lemma_tiled_row(config.source(slice, template), config.destination(slice));
}

/// The left and the right edge are tiled along the panel's height only: an
/// edge that is at least one pixel wide takes as many tiles as the interior
/// height of the panel takes blocks of the interior height of the template,
/// each as wide as the edge, one below the other from the edge's upper end.
pub proof fn lemma_vertical_edge_tiles(config: Config, template: Size, slice: Slice)
    requires
        slice == Slice::Left || slice == Slice::Right,
        config.destination(slice).size.width > 0,
    ensures
        tiled(config.source(slice, template), config.destination(slice)).len() == tile_count(
            config.interior(config.size).height,
            config.interior(template).height,
        ),
        forall|k: int|
            0 <= k < tiled(config.source(slice, template), config.destination(slice)).len()
                ==> #[trigger] tiled(config.source(slice, template), config.destination(slice))[k]
                == tile_region_at(
                config.source(slice, template),
                config.destination(slice),
                Span { start: 0, length: config.destination(slice).size.width },
                tiles(config.interior(config.size).height, config.interior(template).height)[k],
            ),
{
    lemma_tiled_column(config.source(slice, template), config.destination(slice));
}

/// Every element that `filter_map` keeps comes from an element of the
/// sequence: the result is the index of the element that the kept element of
/// index `i` comes from, and `i` counts the elements kept before it.
proof fn lemma_kept_from<A, B>(s: Seq<A>, f: spec_fn(A) -> Option<B>, i: int) -> (j: int)
    requires
        0 <= i < s.filter_map(f).len(),
    ensures
        0 <= j < s.len(),
        f(s[j]) == Some(s.filter_map(f)[i]),
        s.take(j).filter_map(f).len() == i,
    decreases s.len(),
{
    let rest = s.drop_last();
    if f(s.last()) is Some && i == rest.filter_map(f).len() {
        assert(s.take(s.len() - 1) =~= rest);
        s.len() - 1
    } else {
        let j = lemma_kept_from(rest, f, i);
        assert(s.take(j) =~= rest.take(j));
        j
    }
}

/// Every element that `f` maps to something is kept by `filter_map`, at the
/// index that counts the elements kept before it.
proof fn lemma_kept_at<A, B>(s: Seq<A>, f: spec_fn(A) -> Option<B>, j: int)
    requires
        0 <= j < s.len(),
        f(s[j]) is Some,
    ensures
        s.take(j).filter_map(f).len() < s.filter_map(f).len(),
        s.filter_map(f)[s.take(j).filter_map(f).len() as int] == f(s[j]).unwrap(),
    decreases s.len(),
{
    let rest = s.drop_last();
    if j == s.len() - 1 {
        assert(s.take(j) =~= rest);
    } else {
        lemma_kept_at(rest, f, j);
        assert(s.take(j) =~= rest.take(j));
    }
}

} // verus!
