//! The border configuration of a panel and the nine rectangles it cuts an
//! area into.

use crate::geometry::{Point, Rectangle, Size};
use vstd::prelude::*;

verus! {

/// One of the nine parts of a panel: four corners, four edges and the center.
#[derive(Clone, Copy, Debug, PartialEq, Eq, Structural)]
pub enum Slice {
    TopLeft,
    TopRight,
    BottomRight,
    BottomLeft,
    Top,
    Right,
    Bottom,
    Left,
    Center,
}

impl Slice {
    /// The slice is one of the four corners.
    pub open spec fn is_corner(self) -> bool {
        self == Slice::TopLeft || self == Slice::TopRight || self == Slice::BottomRight || self
            == Slice::BottomLeft
    }
}

/// What is left of `extent` between a border of `near` pixels at one end and
/// a border of `far` pixels at the other: zero where the borders do not fit.
pub open spec fn spec_interior_length(extent: u32, near: u32, far: u32) -> u32 {
    if near + far <= extent {
        (extent - near - far) as u32
    } else {
        0
    }
}

/// What is left of `extent` between two borders. Borders that together are
/// longer than `extent` leave nothing.
pub fn interior_length(extent: u32, near: u32, far: u32) -> (length: u32)
    ensures
        length == spec_interior_length(extent, near, far),
        near + far <= extent ==> near + length + far == extent,
        near + far > extent ==> length == 0,
{
    if extent < near {
        0
    } else if extent - near < far {
        0
    } else {
        extent - near - far
    }
}

/// The size of a panel and the thickness of its four borders. The borders
/// are measured in pixels, in the template and in the panel alike.
#[derive(Clone, Copy, Debug, PartialEq, Eq, Structural)]
pub struct Config {
    /// Size of the panel that is painted.
    pub size: Size,
    /// Height of the top border.
    pub top: u32,
    /// Width of the right border.
    pub right: u32,
    /// Height of the bottom border.
    pub bottom: u32,
    /// Width of the left border.
    pub left: u32,
    /// Whether the center is painted or left as it is.
    pub fill_center: bool,
}

impl Config {
    /// The panel's size and the four borders are within the coordinate
    /// range, so that every corner of every slice has `i32` coordinates.
    pub open spec fn addressable(self) -> bool {
        &&& self.size.addressable()
        &&& self.top <= i32::MAX
        &&& self.right <= i32::MAX
        &&& self.bottom <= i32::MAX
        &&& self.left <= i32::MAX
    }

    /// Tells whether every configured length is within the coordinate range.
    pub fn is_addressable(&self) -> (b: bool)
        ensures
            b == self.addressable(),
    {
        self.size.is_addressable() && self.top <= 0x7fff_ffff && self.right <= 0x7fff_ffff
            && self.bottom <= 0x7fff_ffff && self.left <= 0x7fff_ffff
    }

    /// The borders fit into an area of the given size: left and right
    /// together are no wider, top and bottom together no higher.
    pub open spec fn fits(self, extent: Size) -> bool {
        self.left + self.right <= extent.width && self.top + self.bottom <= extent.height
    }

    /// Tells whether the borders fit into an area of the given size.
    pub fn borders_fit(&self, extent: Size) -> (b: bool)
        ensures
            b == self.fits(extent),
    {
        self.left as u64 + self.right as u64 <= extent.width as u64 && self.top as u64
            + self.bottom as u64 <= extent.height as u64
    }

    /// The configuration is valid for a template: the borders fit into the
    /// template and into the panel.
    pub open spec fn valid(self, template: Size) -> bool {
        self.fits(template) && self.fits(self.size)
    }

    /// Tells whether the borders fit into the template and into the panel.
    pub fn is_valid(&self, template: Size) -> (b: bool)
        ensures
            b == self.valid(template),
    {
        self.borders_fit(template) && self.borders_fit(self.size)
    }

    /// The size of what the borders leave of an area, each length cut off at
    /// zero.
    pub open spec fn interior(self, extent: Size) -> Size {
        Size {
            width: spec_interior_length(extent.width, self.left, self.right),
            height: spec_interior_length(extent.height, self.top, self.bottom),
        }
    }

    /// The size of what the borders leave of an area of size `extent`.
    pub fn interior_size(&self, extent: Size) -> (inner: Size)
        ensures
            inner == self.interior(extent),
    {
        Size {
            width: interior_length(extent.width, self.left, self.right),
            height: interior_length(extent.height, self.top, self.bottom),
        }
    }

    /// The rectangle that a slice takes of an area of size `extent` placed
    /// at the origin. A corner has the size of its two borders and lies in
    /// its corner of the area. An edge lies between two corners and is as
    /// long as the interior. The center is the interior.
    pub open spec fn frame(self, slice: Slice, extent: Size) -> Rectangle {
        let inner = self.interior(extent);
        let far_x = (extent.width - self.right) as i32;
        let far_y = (extent.height - self.bottom) as i32;
        let near_x = self.left as i32;
        let near_y = self.top as i32;
        match slice {
            Slice::TopLeft => Rectangle {
                top_left: Point { x: 0, y: 0 },
                size: Size { width: self.left, height: self.top },
            },
            Slice::TopRight => Rectangle {
                top_left: Point { x: far_x, y: 0 },
                size: Size { width: self.right, height: self.top },
            },
            Slice::BottomRight => Rectangle {
                top_left: Point { x: far_x, y: far_y },
                size: Size { width: self.right, height: self.bottom },
            },
            Slice::BottomLeft => Rectangle {
                top_left: Point { x: 0, y: far_y },
                size: Size { width: self.left, height: self.bottom },
            },
            Slice::Top => Rectangle {
                top_left: Point { x: near_x, y: 0 },
                size: Size { width: inner.width, height: self.top },
            },
            Slice::Right => Rectangle {
                top_left: Point { x: far_x, y: near_y },
                size: Size { width: self.right, height: inner.height },
            },
            Slice::Bottom => Rectangle {
                top_left: Point { x: near_x, y: far_y },
                size: Size { width: inner.width, height: self.bottom },
            },
            Slice::Left => Rectangle {
                top_left: Point { x: 0, y: near_y },
                size: Size { width: self.left, height: inner.height },
            },
            Slice::Center => Rectangle { top_left: Point { x: near_x, y: near_y }, size: inner },
        }
    }

    /// The slice that takes the pixel `(x, y)` of an area of size `extent`
    /// placed at the origin: the columns left of the left border's end
    /// belong to the left slices, those from the right border's start on to
    /// the right slices, and likewise for the rows.
    pub open spec fn slice_at(self, extent: Size, x: int, y: int) -> Slice {
        let is_left = x < self.left;
        let is_right = x >= extent.width - self.right;
        let is_top = y < self.top;
        let is_bottom = y >= extent.height - self.bottom;
        if is_top {
            if is_left {
                Slice::TopLeft
            } else if is_right {
                Slice::TopRight
            } else {
                Slice::Top
            }
        } else if is_bottom {
            if is_left {
                Slice::BottomLeft
            } else if is_right {
                Slice::BottomRight
            } else {
                Slice::Bottom
            }
        } else {
            if is_left {
                Slice::Left
            } else if is_right {
                Slice::Right
            } else {
                Slice::Center
            }
        }
    }

    /// The part of the template that a slice is copied from.
    pub open spec fn source(self, slice: Slice, template: Size) -> Rectangle {
        self.frame(slice, template)
    }

    /// The part of the panel that a slice fills.
    pub open spec fn destination(self, slice: Slice) -> Rectangle {
        self.frame(slice, self.size)
    }

    /// The part of the template that a slice is copied from.
    pub fn source_rect(&self, slice: Slice, template: Size) -> (r: Rectangle)
        requires
            self.addressable(),
            template.addressable(),
        ensures
            r == self.source(slice, template),
            r.addressable(),
    {
        match slice {
            Slice::TopLeft => self.bounding_box_top_left(template),
            Slice::TopRight => self.bounding_box_top_right(template),
            Slice::BottomRight => self.bounding_box_bottom_right(template),
            Slice::BottomLeft => self.bounding_box_bottom_left(template),
            Slice::Top => self.bounding_box_top(template),
            Slice::Right => self.bounding_box_right(template),
            Slice::Bottom => self.bounding_box_bottom(template),
            Slice::Left => self.bounding_box_left(template),
            Slice::Center => self.bounding_box_center(template),
        }
    }

    /// Where in the panel the top left pixel of a slice lies.
    pub fn offset(&self, slice: Slice) -> (p: Point)
        requires
            self.addressable(),
        ensures
            p == self.destination(slice).top_left,
    {
        match slice {
            Slice::TopLeft => self.offset_top_left(),
            Slice::TopRight => self.offset_top_right(),
            Slice::BottomRight => self.offset_bottom_right(),
            Slice::BottomLeft => self.offset_bottom_left(),
            Slice::Top => self.offset_top(),
            Slice::Right => self.offset_right(),
            Slice::Bottom => self.offset_bottom(),
            Slice::Left => self.offset_left(),
            Slice::Center => self.offset_center(),
        }
    }

    /// The part of the panel that a slice fills: it lies at the slice's
    /// offset. A corner is as large as in the template; an edge is as thick
    /// as in the template and as long as the panel's interior; the center is
    /// the panel's interior.
    pub fn destination_rect(&self, slice: Slice) -> (r: Rectangle)
        requires
            self.addressable(),
        ensures
            r == self.destination(slice),
            r.addressable(),
    {
        let inner = self.interior_size(self.size);
        let size = match slice {
            Slice::TopLeft => Size::new(self.left, self.top),
            Slice::TopRight => Size::new(self.right, self.top),
            Slice::BottomRight => Size::new(self.right, self.bottom),
            Slice::BottomLeft => Size::new(self.left, self.bottom),
            Slice::Top => Size::new(inner.width, self.top),
            Slice::Right => Size::new(self.right, inner.height),
            Slice::Bottom => Size::new(inner.width, self.bottom),
            Slice::Left => Size::new(self.left, inner.height),
            Slice::Center => inner,
        };
        Rectangle::new(self.offset(slice), size)
    }

    /// The whole panel: the rectangle of the configured size at the origin.
    pub fn bounding_box(&self) -> (r: Rectangle)
        ensures
            r == Rectangle::at_origin(self.size),
    {
        Rectangle { top_left: Point { x: 0, y: 0 }, size: self.size }
    }

    /// The top left corner of the template: as wide as the left border and
    /// as high as the top border.
    pub fn bounding_box_top_left(&self, template: Size) -> (r: Rectangle)
        ensures
            r == self.source(Slice::TopLeft, template),
            r.size == (Size { width: self.left, height: self.top }),
    {
        Rectangle::new(Point::zero(), Size::new(self.left, self.top))
    }

    /// Where the top left corner goes: the origin.
    pub fn offset_top_left(&self) -> (p: Point)
        ensures
            p == self.destination(Slice::TopLeft).top_left,
    {
        Point::zero()
    }

    /// The top right corner of the template: as wide as the right border
    /// and as high as the top border.
    pub fn bounding_box_top_right(&self, template: Size) -> (r: Rectangle)
        requires
            self.addressable(),
            template.addressable(),
        ensures
            r == self.source(Slice::TopRight, template),
            r.size == (Size { width: self.right, height: self.top }),
    {
        let top_left = Point::new(template.width as i32 - self.right as i32, 0);
        Rectangle::new(top_left, Size::new(self.right, self.top))
    }

    /// Where the top right corner goes: the right border's width left of
    /// the panel's right edge.
    pub fn offset_top_right(&self) -> (p: Point)
        requires
            self.addressable(),
        ensures
            p == self.destination(Slice::TopRight).top_left,
    {
        Point::new(self.size.width as i32 - self.right as i32, 0)
    }

    /// The bottom left corner of the template: as wide as the left border
    /// and as high as the bottom border.
    pub fn bounding_box_bottom_left(&self, template: Size) -> (r: Rectangle)
        requires
            self.addressable(),
            template.addressable(),
        ensures
            r == self.source(Slice::BottomLeft, template),
            r.size == (Size { width: self.left, height: self.bottom }),
    {
        let top_left = Point::new(0, template.height as i32 - self.bottom as i32);
        Rectangle::new(top_left, Size::new(self.left, self.bottom))
    }

    /// Where the bottom left corner goes: the bottom border's height above
    /// the panel's lower edge.
    pub fn offset_bottom_left(&self) -> (p: Point)
        requires
            self.addressable(),
        ensures
            p == self.destination(Slice::BottomLeft).top_left,
    {
        Point::new(0, self.size.height as i32 - self.bottom as i32)
    }

    /// The bottom right corner of the template: as wide as the right border
    /// and as high as the bottom border.
    pub fn bounding_box_bottom_right(&self, template: Size) -> (r: Rectangle)
        requires
            self.addressable(),
            template.addressable(),
        ensures
            r == self.source(Slice::BottomRight, template),
            r.size == (Size { width: self.right, height: self.bottom }),
    {
        let top_left = Point::new(
            template.width as i32 - self.right as i32,
            template.height as i32 - self.bottom as i32,
        );
        Rectangle::new(top_left, Size::new(self.right, self.bottom))
    }

    /// Where the bottom right corner goes: the right and the bottom border
    /// away from the panel's far edges.
    pub fn offset_bottom_right(&self) -> (p: Point)
        requires
            self.addressable(),
        ensures
            p == self.destination(Slice::BottomRight).top_left,
    {
        Point::new(
            self.size.width as i32 - self.right as i32,
            self.size.height as i32 - self.bottom as i32,
        )
    }

    /// The top edge of the template: between the two upper corners, as long
    /// as the template's interior is wide.
    pub fn bounding_box_top(&self, template: Size) -> (r: Rectangle)
        requires
            self.addressable(),
        ensures
            r == self.source(Slice::Top, template),
    {
        let top_left = Point::new(self.left as i32, 0);
        Rectangle::new(
            top_left,
            Size::new(interior_length(template.width, self.left, self.right), self.top),
        )
    }

    /// Where the top edge starts: right of the top left corner.
    pub fn offset_top(&self) -> (p: Point)
        requires
            self.addressable(),
        ensures
            p == self.destination(Slice::Top).top_left,
    {
        Point::new(self.left as i32, 0)
    }

    /// The right edge of the template: between the two right corners, as
    /// long as the template's interior is high.
    pub fn bounding_box_right(&self, template: Size) -> (r: Rectangle)
        requires
            self.addressable(),
            template.addressable(),
        ensures
            r == self.source(Slice::Right, template),
    {
        let top_left = Point::new(template.width as i32 - self.right as i32, self.top as i32);
        Rectangle::new(
            top_left,
            Size::new(self.right, interior_length(template.height, self.top, self.bottom)),
        )
    }

    /// Where the right edge starts: below the top right corner.
    pub fn offset_right(&self) -> (p: Point)
        requires
            self.addressable(),
        ensures
            p == self.destination(Slice::Right).top_left,
    {
        Point::new(self.size.width as i32 - self.right as i32, self.top as i32)
    }

    /// The bottom edge of the template: between the two lower corners, as
    /// long as the template's interior is wide.
    pub fn bounding_box_bottom(&self, template: Size) -> (r: Rectangle)
        requires
            self.addressable(),
            template.addressable(),
        ensures
            r == self.source(Slice::Bottom, template),
    {
        let top_left = Point::new(self.left as i32, template.height as i32 - self.bottom as i32);
        Rectangle::new(
            top_left,
            Size::new(interior_length(template.width, self.left, self.right), self.bottom),
        )
    }

    /// Where the bottom edge starts: right of the bottom left corner.
    pub fn offset_bottom(&self) -> (p: Point)
        requires
            self.addressable(),
        ensures
            p == self.destination(Slice::Bottom).top_left,
    {
        Point::new(self.left as i32, self.size.height as i32 - self.bottom as i32)
    }

    /// The left edge of the template: between the two left corners, as long
    /// as the template's interior is high.
    pub fn bounding_box_left(&self, template: Size) -> (r: Rectangle)
        requires
            self.addressable(),
        ensures
            r == self.source(Slice::Left, template),
    {
        let top_left = Point::new(0, self.top as i32);
        Rectangle::new(
            top_left,
            Size::new(self.left, interior_length(template.height, self.top, self.bottom)),
        )
    }

    /// Where the left edge starts: below the top left corner.
    pub fn offset_left(&self) -> (p: Point)
        requires
            self.addressable(),
        ensures
            p == self.destination(Slice::Left).top_left,
    {
        Point::new(0, self.top as i32)
    }

    /// The center of the template: its interior.
    pub fn bounding_box_center(&self, template: Size) -> (r: Rectangle)
        requires
            self.addressable(),
        ensures
            r == self.source(Slice::Center, template),
    {
        let top_left = Point::new(self.left as i32, self.top as i32);
        Rectangle::new(
            top_left,
            Size::new(
                interior_length(template.width, self.left, self.right),
                interior_length(template.height, self.top, self.bottom),
            ),
        )
    }

    /// Where the center starts: inside the top left corner.
    pub fn offset_center(&self) -> (p: Point)
        requires
            self.addressable(),
        ensures
            p == self.destination(Slice::Center).top_left,
    {
        Point::new(self.left as i32, self.top as i32)
    }
}

/// The rectangle that a slice takes of an area is within the coordinate
/// range when the configuration and the area are.
pub proof fn lemma_frame_addressable(config: Config, slice: Slice, extent: Size)
    requires
        config.addressable(),
        extent.addressable(),
    ensures
        config.frame(slice, extent).addressable(),
{
}

/// The nine rectangles that the slices take of an area tile it, if the
/// borders fit into it: every pixel of the area lies in the rectangle of
/// exactly one slice, the one that `slice_at` names, and no rectangle has a
/// pixel outside the area.
pub proof fn lemma_frames_tile(config: Config, extent: Size)
    requires
        config.addressable(),
        extent.addressable(),
        config.fits(extent),
    ensures
        forall|slice: Slice, x: int, y: int| #[trigger]
            config.frame(slice, extent).contains(x, y) <==> (Rectangle::at_origin(extent).contains(
                x,
                y,
            ) && config.slice_at(extent, x, y) == slice),
{
}

/// The nine destinations tile the panel, if the borders fit into it: they
/// leave no pixel of the panel out, no two of them share a pixel, and none
/// has a pixel outside the panel.
pub proof fn lemma_destinations_tile(config: Config)
    requires
        config.addressable(),
        config.fits(config.size),
    ensures
        forall|x: int, y: int|
            Rectangle::at_origin(config.size).contains(x, y) ==> exists|slice: Slice| #[trigger]
                config.destination(slice).contains(x, y),
        forall|first: Slice, second: Slice, x: int, y: int|
            #[trigger] config.destination(first).contains(x, y) && #[trigger] config.destination(
                second,
            ).contains(x, y) ==> first == second,
        forall|slice: Slice, x: int, y: int| #[trigger]
            config.destination(slice).contains(x, y) ==> Rectangle::at_origin(
                config.size,
            ).contains(x, y),
{
    lemma_frames_tile(config, config.size);
    assert forall|x: int, y: int| Rectangle::at_origin(config.size).contains(x, y) implies exists|
        slice: Slice,
    | #[trigger]
        config.destination(slice).contains(x, y) by {
        assert(config.destination(config.slice_at(config.size, x, y)).contains(x, y));
    }
}

/// Corners are never resized: whatever the sizes of the template and of the
/// panel, a corner is as large in the panel as in the template, namely as
/// wide and as high as the two borders that meet in it.
pub proof fn lemma_corners_keep_size(config: Config, template: Size)
    ensures
        forall|slice: Slice| #[trigger]
            slice.is_corner() ==> config.source(slice, template).size == config.destination(
                slice,
            ).size,
        config.destination(Slice::TopLeft).size == (Size {
            width: config.left,
            height: config.top,
        }),
        config.destination(Slice::TopRight).size == (Size {
            width: config.right,
            height: config.top,
        }),
        config.destination(Slice::BottomRight).size == (Size {
            width: config.right,
            height: config.bottom,
        }),
        config.destination(Slice::BottomLeft).size == (Size {
            width: config.left,
            height: config.bottom,
        }),
{
}

} // verus!
