//! Layout layer: the plain data types that cross the host/plugin boundary.
//!
//! Every value the host and a plugin exchange is represented here as an
//! ordinary data type: enumerations for the theme discriminants, hand-written
//! bit-flag sets over `u32`, a tagged sum for theme property values, and an
//! arena with index-based children for the recursive distance-expression
//! tree.  Values the host owns and computes with — floating-point numbers,
//! loader module handles — are carried opaquely and never interpreted.

use vstd::prelude::*;

verus! {

/// The discriminant of a theme property value.
///
/// Each variant names one payload shape of [`PropertyValue`]; the sum type
/// itself guarantees that a payload can never be read under the wrong tag.
#[derive(Clone, Copy, Debug, PartialEq, Eq, Structural)]
pub enum PropertyType {
    /// An integer.
    Integer,
    /// A floating-point number, carried as host bits.
    Double,
    /// A string.
    Text,
    /// A single character.
    Char,
    /// A boolean.
    Boolean,
    /// A colour.
    Color,
    /// An image.
    Image,
    /// A padding record of four distances.
    Padding,
    /// A reference to another property.
    Link,
    /// A window location / gravity.
    Position,
    /// A text-highlight style.
    Highlight,
    /// A list of properties.
    List,
    /// An orientation.
    Orientation,
    /// A cursor shape.
    Cursor,
    /// Explicit inheritance from the parent widget.
    Inherit,
}

/// How many real property types there are; the bound of the name-lookup
/// table returned by [`property_type_names`].
pub const PROPERTY_TYPE_COUNT: usize = 15;

/// The position of a property type in the name-lookup table.
pub open spec fn spec_property_type_index(t: PropertyType) -> int {
    match t {
        PropertyType::Integer => 0,
        PropertyType::Double => 1,
        PropertyType::Text => 2,
        PropertyType::Char => 3,
        PropertyType::Boolean => 4,
        PropertyType::Color => 5,
        PropertyType::Image => 6,
        PropertyType::Padding => 7,
        PropertyType::Link => 8,
        PropertyType::Position => 9,
        PropertyType::Highlight => 10,
        PropertyType::List => 11,
        PropertyType::Orientation => 12,
        PropertyType::Cursor => 13,
        PropertyType::Inherit => 14,
    }
}

/// The property type stored at a position of the name-lookup table.
pub open spec fn spec_property_type_of_index(i: int) -> PropertyType {
    if i == 0 {
        PropertyType::Integer
    } else if i == 1 {
        PropertyType::Double
    } else if i == 2 {
        PropertyType::Text
    } else if i == 3 {
        PropertyType::Char
    } else if i == 4 {
        PropertyType::Boolean
    } else if i == 5 {
        PropertyType::Color
    } else if i == 6 {
        PropertyType::Image
    } else if i == 7 {
        PropertyType::Padding
    } else if i == 8 {
        PropertyType::Link
    } else if i == 9 {
        PropertyType::Position
    } else if i == 10 {
        PropertyType::Highlight
    } else if i == 11 {
        PropertyType::List
    } else if i == 12 {
        PropertyType::Orientation
    } else if i == 13 {
        PropertyType::Cursor
    } else {
        PropertyType::Inherit
    }
}

/// Looking up the name of any real property type stays inside the name
/// table: every type's index is below [`PROPERTY_TYPE_COUNT`], and the index
/// identifies the type — so the table has exactly one slot per real type.
pub proof fn lemma_property_type_index_in_bounds(t: PropertyType)
    ensures
        0 <= spec_property_type_index(t) < PROPERTY_TYPE_COUNT as int,
        spec_property_type_of_index(spec_property_type_index(t)) == t,
{
}

/// The position of `t` in the name-lookup table, always in bounds.
pub fn property_type_index(t: PropertyType) -> (r: usize)
    ensures
        r as int == spec_property_type_index(t),
        r < PROPERTY_TYPE_COUNT,
{
    match t {
        PropertyType::Integer => 0,
        PropertyType::Double => 1,
        PropertyType::Text => 2,
        PropertyType::Char => 3,
        PropertyType::Boolean => 4,
        PropertyType::Color => 5,
        PropertyType::Image => 6,
        PropertyType::Padding => 7,
        PropertyType::Link => 8,
        PropertyType::Position => 9,
        PropertyType::Highlight => 10,
        PropertyType::List => 11,
        PropertyType::Orientation => 12,
        PropertyType::Cursor => 13,
        PropertyType::Inherit => 14,
    }
}

/// The user-readable name of a property type, used for diagnostics.
pub open spec fn spec_property_type_name(t: PropertyType) -> Seq<char> {
    match t {
        PropertyType::Integer => "Integer"@,
        PropertyType::Double => "Double"@,
        PropertyType::Text => "String"@,
        PropertyType::Char => "Character"@,
        PropertyType::Boolean => "Boolean"@,
        PropertyType::Color => "Color"@,
        PropertyType::Image => "Image"@,
        PropertyType::Padding => "Padding"@,
        PropertyType::Link => "Reference"@,
        PropertyType::Position => "Position"@,
        PropertyType::Highlight => "Highlight"@,
        PropertyType::List => "List"@,
        PropertyType::Orientation => "Orientation"@,
        PropertyType::Cursor => "Cursor"@,
        PropertyType::Inherit => "Inherit"@,
    }
}

/// The user-readable name of a property type.
pub fn property_type_name(t: PropertyType) -> (r: &'static str)
    ensures
        r@ == spec_property_type_name(t),
{
    match t {
        PropertyType::Integer => "Integer",
        PropertyType::Double => "Double",
        PropertyType::Text => "String",
        PropertyType::Char => "Character",
        PropertyType::Boolean => "Boolean",
        PropertyType::Color => "Color",
        PropertyType::Image => "Image",
        PropertyType::Padding => "Padding",
        PropertyType::Link => "Reference",
        PropertyType::Position => "Position",
        PropertyType::Highlight => "Highlight",
        PropertyType::List => "List",
        PropertyType::Orientation => "Orientation",
        PropertyType::Cursor => "Cursor",
        PropertyType::Inherit => "Inherit",
    }
}

/// The name-lookup table itself: one slot per real property type, in index
/// order.
pub fn property_type_names() -> (r: Vec<&'static str>)
    ensures
        r@.len() == PROPERTY_TYPE_COUNT,
        forall|i: int|
            0 <= i < PROPERTY_TYPE_COUNT as int ==> r@[i]@ == spec_property_type_name(
                spec_property_type_of_index(i),
            ),
{
    let mut v: Vec<&'static str> = Vec::new();
    v.push("Integer");
    v.push("Double");
    v.push("String");
    v.push("Character");
    v.push("Boolean");
    v.push("Color");
    v.push("Image");
    v.push("Padding");
    v.push("Reference");
    v.push("Position");
    v.push("Highlight");
    v.push("List");
    v.push("Orientation");
    v.push("Cursor");
    v.push("Inherit");
    v
}

/// Bold text.
pub const HIGHLIGHT_BOLD: u32 = 1;

/// Underlined text.
pub const HIGHLIGHT_UNDERLINE: u32 = 2;

/// Italic text.
pub const HIGHLIGHT_ITALIC: u32 = 4;

/// Highlight with a colour.
pub const HIGHLIGHT_COLOR: u32 = 8;

/// Struck-through text.
pub const HIGHLIGHT_STRIKETHROUGH: u32 = 16;

/// Upper-cased text.
pub const HIGHLIGHT_UPPERCASE: u32 = 32;

/// Lower-cased text.
pub const HIGHLIGHT_LOWERCASE: u32 = 64;

/// Capitalised text.
pub const HIGHLIGHT_CAPITALIZE: u32 = 128;

/// Every defined highlight bit.
pub const HIGHLIGHT_ALL: u32 = HIGHLIGHT_BOLD | HIGHLIGHT_UNDERLINE | HIGHLIGHT_ITALIC
    | HIGHLIGHT_COLOR | HIGHLIGHT_STRIKETHROUGH | HIGHLIGHT_UPPERCASE | HIGHLIGHT_LOWERCASE
    | HIGHLIGHT_CAPITALIZE;

/// Style of a text highlight: a set of `HIGHLIGHT_*` bits.
#[derive(Clone, Copy, Debug, PartialEq, Eq, Structural)]
pub struct RofiHighlightStyle {
    /// The raw flag word, exactly as it crosses the boundary.
    pub bits: u32,
}

impl RofiHighlightStyle {
    /// The empty style.
    pub fn empty() -> (r: Self)
        ensures
            r.bits == 0,
    {
        RofiHighlightStyle { bits: 0 }
    }

    /// Accepts a raw flag word if every set bit is a defined highlight bit.
    pub fn from_bits(bits: u32) -> (r: Option<Self>)
        ensures
            r is Some <==> bits & !HIGHLIGHT_ALL == 0,
            r is Some ==> r->0.bits == bits,
    {
        if bits & !HIGHLIGHT_ALL == 0 {
            Some(RofiHighlightStyle { bits })
        } else {
            None
        }
    }

    /// Whether every bit of `other` is set in `self`.
    pub fn contains(self, other: Self) -> (r: bool)
        ensures
            r == (self.bits & other.bits == other.bits),
    {
        self.bits & other.bits == other.bits
    }

    /// The union of two styles.
    pub fn union(self, other: Self) -> (r: Self)
        ensures
            r.bits == self.bits | other.bits,
    {
        RofiHighlightStyle { bits: self.bits | other.bits }
    }
}

/// Centre of the screen (no gravity bit set).
pub const WL_CENTER: u32 = 0;

/// Top middle.
pub const WL_NORTH: u32 = 1;

/// Middle right.
pub const WL_EAST: u32 = 2;

/// Bottom middle.
pub const WL_SOUTH: u32 = 4;

/// Middle left.
pub const WL_WEST: u32 = 8;

/// Top left corner.
pub const WL_NORTH_WEST: u32 = WL_NORTH | WL_WEST;

/// Top right corner.
pub const WL_NORTH_EAST: u32 = WL_NORTH | WL_EAST;

/// Bottom right corner.
pub const WL_SOUTH_EAST: u32 = WL_SOUTH | WL_EAST;

/// Bottom left corner.
pub const WL_SOUTH_WEST: u32 = WL_SOUTH | WL_WEST;

/// Every defined gravity bit.
pub const WL_ALL: u32 = WL_NORTH | WL_EAST | WL_SOUTH | WL_WEST;

/// Location or gravity of the menu window: a set of `WL_*` bits.
///
/// ```text
/// NORTH_WEST      NORTH      NORTH_EAST
/// WEST            CENTER     EAST
/// SOUTH_WEST      SOUTH      SOUTH_EAST
/// ```
#[derive(Clone, Copy, Debug, PartialEq, Eq, Structural)]
pub struct WindowLocation {
    /// The raw flag word, exactly as it crosses the boundary.
    pub bits: u32,
}

impl WindowLocation {
    /// The centre location.
    pub fn center() -> (r: Self)
        ensures
            r.bits == WL_CENTER,
    {
        WindowLocation { bits: WL_CENTER }
    }

    /// Accepts a raw flag word if every set bit is a defined gravity bit.
    pub fn from_bits(bits: u32) -> (r: Option<Self>)
        ensures
            r is Some <==> bits & !WL_ALL == 0,
            r is Some ==> r->0.bits == bits,
    {
        if bits & !WL_ALL == 0 {
            Some(WindowLocation { bits })
        } else {
            None
        }
    }

    /// Whether every bit of `other` is set in `self`.
    pub fn contains(self, other: Self) -> (r: bool)
        ensures
            r == (self.bits & other.bits == other.bits),
    {
        self.bits & other.bits == other.bits
    }

    /// The union of two locations.
    pub fn union(self, other: Self) -> (r: Self)
        ensures
            r.bits == self.bits | other.bits,
    {
        WindowLocation { bits: self.bits | other.bits }
    }
}

/// Each compound gravity decodes to exactly the union of its two named
/// sides — it contains both of them and neither of the other two — and no
/// two named locations share a value.
pub proof fn lemma_window_location_composites()
    ensures
        WL_NORTH_WEST == WL_NORTH | WL_WEST,
        WL_NORTH_EAST == WL_NORTH | WL_EAST,
        WL_SOUTH_EAST == WL_SOUTH | WL_EAST,
        WL_SOUTH_WEST == WL_SOUTH | WL_WEST,
        WL_NORTH_WEST == 9u32 && WL_NORTH_EAST == 3u32 && WL_SOUTH_EAST == 6u32 && WL_SOUTH_WEST
            == 12u32,
        WL_NORTH_WEST & WL_NORTH == WL_NORTH && WL_NORTH_WEST & WL_WEST == WL_WEST
            && WL_NORTH_WEST & WL_EAST == 0 && WL_NORTH_WEST & WL_SOUTH == 0,
        WL_NORTH_EAST & WL_NORTH == WL_NORTH && WL_NORTH_EAST & WL_EAST == WL_EAST
            && WL_NORTH_EAST & WL_WEST == 0 && WL_NORTH_EAST & WL_SOUTH == 0,
        WL_SOUTH_EAST & WL_SOUTH == WL_SOUTH && WL_SOUTH_EAST & WL_EAST == WL_EAST
            && WL_SOUTH_EAST & WL_WEST == 0 && WL_SOUTH_EAST & WL_NORTH == 0,
        WL_SOUTH_WEST & WL_SOUTH == WL_SOUTH && WL_SOUTH_WEST & WL_WEST == WL_WEST
            && WL_SOUTH_WEST & WL_EAST == 0 && WL_SOUTH_WEST & WL_NORTH == 0,
{
    assert((1u32 | 8u32) == 9u32 && (1u32 | 2u32) == 3u32 && (4u32 | 2u32) == 6u32 && (4u32 | 8u32)
        == 12u32 && 9u32 & 1u32 == 1u32 && 9u32 & 8u32 == 8u32 && 9u32 & 2u32 == 0u32 && 9u32
        & 4u32 == 0u32 && 3u32 & 1u32 == 1u32 && 3u32 & 2u32 == 2u32 && 3u32 & 8u32 == 0u32 && 3u32
        & 4u32 == 0u32 && 6u32 & 4u32 == 4u32 && 6u32 & 2u32 == 2u32 && 6u32 & 8u32 == 0u32 && 6u32
        & 1u32 == 0u32 && 12u32 & 4u32 == 4u32 && 12u32 & 8u32 == 8u32 && 12u32 & 2u32 == 0u32
        && 12u32 & 1u32 == 0u32) by (bit_vector);
}

/// Style of a line.
#[derive(Clone, Copy, Debug, PartialEq, Eq, Structural)]
pub enum RofiLineStyle {
    /// Solid line.
    Solid,
    /// Dashed line.
    Dash,
}

/// The unit a distance is measured in.
#[derive(Clone, Copy, Debug, PartialEq, Eq, Structural)]
pub enum RofiPixelUnit {
    /// Pixels.
    Px,
    /// Millimetres.
    Mm,
    /// EM.
    Em,
    /// Percentage.
    Percent,
    /// CH.
    Ch,
}

/// The operator a distance-expression node applies to its children.
#[derive(Clone, Copy, Debug, PartialEq, Eq, Structural)]
pub enum RofiDistanceModifier {
    /// A plain value; no children.
    NoModifier,
    /// Sum of the two children.
    Add,
    /// Difference of the two children.
    Subtract,
    /// Quotient of the two children.
    Divide,
    /// Product of the two children.
    Multiply,
    /// Remainder of the two children.
    Modulo,
    /// A parenthesised group around the left child.
    Group,
    /// Minimum of the two children.
    Min,
    /// Maximum of the two children.
    Max,
    /// The left child, rounded.
    Round,
    /// The left child, rounded down.
    Floor,
    /// The left child, rounded up.
    Ceil,
}

/// Orientation of a widget.
#[derive(Clone, Copy, Debug, PartialEq, Eq, Structural)]
pub enum RofiOrientation {
    /// Vertical.
    Vertical,
    /// Horizontal.
    Horizontal,
}

/// Shape of the pointer cursor.
#[derive(Clone, Copy, Debug, PartialEq, Eq, Structural)]
pub enum RofiCursorType {
    /// The ordinary arrow cursor.
    Arrow,
    /// The pointing-hand cursor.
    Pointer,
    /// The text-selection cursor.
    Text,
}

impl Default for RofiCursorType {
    /// The ordinary arrow cursor.
    fn default() -> (r: Self)
        ensures
            r == RofiCursorType::Arrow,
    {
        RofiCursorType::Arrow
    }
}

/// Kind of a theme image.
#[derive(Clone, Copy, Debug, PartialEq, Eq, Structural)]
pub enum RofiImageType {
    /// An image loaded from a URL.
    Url,
    /// A linear gradient.
    LinearGradient,
}

/// Direction of a linear gradient.
#[derive(Clone, Copy, Debug, PartialEq, Eq, Structural)]
pub enum RofiDirection {
    /// Towards the left.
    Left,
    /// Towards the right.
    Right,
    /// Towards the top.
    Top,
    /// Towards the bottom.
    Bottom,
    /// At an explicit angle.
    Angle,
}

/// How an image is scaled to its widget.
#[derive(Clone, Copy, Debug, PartialEq, Eq, Structural)]
pub enum RofiScaleType {
    /// No scaling.
    NoScale,
    /// Scale both axes.
    Both,
    /// Scale to the height.
    Height,
    /// Scale to the width.
    Width,
}

/// A floating-point value owned by the host, carried by its raw bit
/// pattern.
///
/// The host computes with these values; the bridge only moves them across
/// the boundary, so it stores the 64 bits unchanged and never interprets
/// them.
#[derive(Clone, Copy, Debug, PartialEq, Eq, Structural)]
pub struct HostDouble {
    /// The raw bit pattern of the host's value.
    pub bits: u64,
}

/// A colour in a theme, four host-owned channel values.
#[derive(Clone, Copy, Debug, PartialEq, Eq, Structural)]
pub struct ThemeColor {
    /// Red channel.
    pub red: HostDouble,
    /// Green channel.
    pub green: HostDouble,
    /// Blue channel.
    pub blue: HostDouble,
    /// Alpha channel.
    pub alpha: HostDouble,
}

/// One node of a distance expression, stored in a [`DistanceArena`].
///
/// Children are arena indices rather than owning pointers; a node's
/// children always come before it in the arena, so every expression is a
/// finite tree.
#[derive(Clone, Copy, Debug)]
pub struct RofiDistanceUnit {
    /// The distance value at this node, host-owned.
    pub distance: HostDouble,
    /// The unit the distance is measured in.
    pub unit_type: RofiPixelUnit,
    /// The operator this node applies.
    pub mod_type: RofiDistanceModifier,
    /// Left child, if any.
    pub left: Option<usize>,
    /// Right child, if any.
    pub right: Option<usize>,
}

/// Whether the node at `i` only points at earlier nodes.
pub open spec fn unit_wf_at(nodes: Seq<RofiDistanceUnit>, i: int) -> bool {
    &&& (nodes[i].left is Some ==> (nodes[i].left->0 as int) < i)
    &&& (nodes[i].right is Some ==> (nodes[i].right->0 as int) < i)
}

/// The height of the expression rooted at `i`: one more than its tallest
/// child.
pub open spec fn spec_unit_depth(nodes: Seq<RofiDistanceUnit>, i: int) -> nat
    decreases i,
{
    if 0 <= i < nodes.len() && unit_wf_at(nodes, i) {
        let l: nat = if nodes[i].left is Some {
            spec_unit_depth(nodes, nodes[i].left->0 as int)
        } else {
            0
        };
        let r: nat = if nodes[i].right is Some {
            spec_unit_depth(nodes, nodes[i].right->0 as int)
        } else {
            0
        };
        1 + if l >= r {
            l
        } else {
            r
        }
    } else {
        0
    }
}

/// A node's height never exceeds its position plus one, since children
/// strictly precede their parent.
pub proof fn lemma_unit_depth_bound(nodes: Seq<RofiDistanceUnit>, i: int)
    requires
        0 <= i,
    ensures
        spec_unit_depth(nodes, i) <= i + 1,
    decreases i,
{
    if 0 <= i < nodes.len() && unit_wf_at(nodes, i) {
        if nodes[i].left is Some {
            lemma_unit_depth_bound(nodes, nodes[i].left->0 as int);
        }
        if nodes[i].right is Some {
            lemma_unit_depth_bound(nodes, nodes[i].right->0 as int);
        }
    }
}

/// The arena that owns every node of a set of distance expressions.
pub struct DistanceArena {
    /// The nodes, in insertion order; children precede parents.
    pub nodes: Vec<RofiDistanceUnit>,
}

impl DistanceArena {
    /// Every node only points at earlier nodes.
    pub open spec fn wf(self) -> bool {
        forall|i: int| 0 <= i < self.nodes@.len() ==> unit_wf_at(self.nodes@, i)
    }

    /// An empty arena.
    pub fn new() -> (r: Self)
        ensures
            r.wf(),
            r.nodes@.len() == 0,
    {
        DistanceArena { nodes: Vec::new() }
    }

    /// Appends a node whose children, if any, are already in the arena, and
    /// returns its index.
    pub fn push_unit(&mut self, u: RofiDistanceUnit) -> (r: usize)
        requires
            old(self).wf(),
            u.left is Some ==> (u.left->0 as int) < old(self).nodes@.len(),
            u.right is Some ==> (u.right->0 as int) < old(self).nodes@.len(),
        ensures
            final(self).wf(),
            r as int == old(self).nodes@.len(),
            final(self).nodes@ == old(self).nodes@.push(u),
    {
        let r = self.nodes.len();
        self.nodes.push(u);
        assert forall|i: int| 0 <= i < self.nodes@.len() implies unit_wf_at(
            self.nodes@,
            i,
        ) by {
            if i < self.nodes@.len() - 1 {
                assert(unit_wf_at(old(self).nodes@, i));
            }
        }
        r
    }

    /// The height of the expression rooted at `i`.
    pub fn unit_depth(&self, i: usize) -> (r: usize)
        requires
            self.wf(),
            i < self.nodes@.len(),
        ensures
            r as nat == spec_unit_depth(self.nodes@, i as int),
        decreases i,
    {
        let n: usize = self.nodes.len();
        proof {
            assert(i < n);
            assert(unit_wf_at(self.nodes@, i as int));
            if self.nodes@[i as int].left is Some {
                lemma_unit_depth_bound(self.nodes@, self.nodes@[i as int].left->0 as int);
            }
            if self.nodes@[i as int].right is Some {
                lemma_unit_depth_bound(self.nodes@, self.nodes@[i as int].right->0 as int);
            }
        }
        let node = self.nodes[i];
        let l: usize = match node.left {
            Some(j) => self.unit_depth(j),
            None => 0,
        };
        let r: usize = match node.right {
            Some(j) => self.unit_depth(j),
            None => 0,
        };
        assert(l as int <= i as int);
        assert(r as int <= i as int);
        1 + if l >= r {
            l
        } else {
            r
        }
    }
}

/// A distance in a theme: the root of an expression in a
/// [`DistanceArena`], plus the line style it draws with.
#[derive(Clone, Copy, Debug)]
pub struct RofiDistance {
    /// Index of the expression's root node in its arena.
    pub base: usize,
    /// Style of the line.
    pub style: RofiLineStyle,
}

/// Padding around a widget: one distance per side.
#[derive(Clone, Copy, Debug)]
pub struct RofiPadding {
    /// Top side.
    pub top: RofiDistance,
    /// Right side.
    pub right: RofiDistance,
    /// Bottom side.
    pub bottom: RofiDistance,
    /// Left side.
    pub left: RofiDistance,
}

/// A theme highlight: a style plus the colour it highlights with.
#[derive(Clone, Copy, Debug)]
pub struct RofiHighlightColorStyle {
    /// The styles to apply.
    pub style: RofiHighlightStyle,
    /// The colour to highlight with.
    pub color: ThemeColor,
}

/// A theme image.
#[derive(Clone, Debug)]
pub struct RofiImage {
    /// Kind of the image.
    pub image_type: RofiImageType,
    /// Where a URL image is loaded from.
    pub url: String,
    /// How the image is scaled.
    pub scaling: RofiScaleType,
    /// Requested width.
    pub wsize: i32,
    /// Requested height.
    pub hsize: i32,
    /// Direction of a gradient.
    pub dir: RofiDirection,
    /// Angle of a gradient, host-owned.
    pub angle: HostDouble,
    /// Colours of a gradient.
    pub colors: Vec<ThemeColor>,
    /// Identifier of the cached image, once the host has rendered it.
    pub surface_id: u32,
}

/// A reference from one property to another, with an optional default.
pub struct PropertyLink {
    /// Name of the property referred to.
    pub name: String,
    /// The resolved property, once the host has looked it up.
    pub property_ref: Option<Box<Property>>,
    /// The value used when the reference cannot be resolved.
    pub def_value: Option<Box<Property>>,
}

/// The payload of a theme property, tagged by its [`PropertyType`].
///
/// The tag and the payload travel together, so a payload can never be read
/// under the wrong type.
pub enum PropertyValue {
    /// An integer.
    Integer(i32),
    /// A floating-point number, host-owned.
    Double(HostDouble),
    /// A string.
    Text(String),
    /// A single character.
    Char(char),
    /// A boolean.
    Boolean(bool),
    /// A colour.
    Color(ThemeColor),
    /// An image.
    Image(RofiImage),
    /// A padding record.
    Padding(RofiPadding),
    /// A reference to another property.
    Link(PropertyLink),
    /// A window location.
    Position(WindowLocation),
    /// A highlight style and colour.
    Highlight(RofiHighlightColorStyle),
    /// A list of properties.
    List(Vec<Property>),
    /// An orientation.
    Orientation(RofiOrientation),
    /// A cursor shape.
    Cursor(RofiCursorType),
    /// Explicit inheritance from the parent widget.
    Inherit,
}

/// The tag of a property payload.
pub open spec fn spec_property_value_type(v: PropertyValue) -> PropertyType {
    match v {
        PropertyValue::Integer(..) => PropertyType::Integer,
        PropertyValue::Double(..) => PropertyType::Double,
        PropertyValue::Text(..) => PropertyType::Text,
        PropertyValue::Char(..) => PropertyType::Char,
        PropertyValue::Boolean(..) => PropertyType::Boolean,
        PropertyValue::Color(..) => PropertyType::Color,
        PropertyValue::Image(..) => PropertyType::Image,
        PropertyValue::Padding(..) => PropertyType::Padding,
        PropertyValue::Link(..) => PropertyType::Link,
        PropertyValue::Position(..) => PropertyType::Position,
        PropertyValue::Highlight(..) => PropertyType::Highlight,
        PropertyValue::List(..) => PropertyType::List,
        PropertyValue::Orientation(..) => PropertyType::Orientation,
        PropertyValue::Cursor(..) => PropertyType::Cursor,
        PropertyValue::Inherit => PropertyType::Inherit,
    }
}

/// The tag of a property payload.
pub fn property_value_type(v: &PropertyValue) -> (r: PropertyType)
    ensures
        r == spec_property_value_type(*v),
{
    match v {
        PropertyValue::Integer(..) => PropertyType::Integer,
        PropertyValue::Double(..) => PropertyType::Double,
        PropertyValue::Text(..) => PropertyType::Text,
        PropertyValue::Char(..) => PropertyType::Char,
        PropertyValue::Boolean(..) => PropertyType::Boolean,
        PropertyValue::Color(..) => PropertyType::Color,
        PropertyValue::Image(..) => PropertyType::Image,
        PropertyValue::Padding(..) => PropertyType::Padding,
        PropertyValue::Link(..) => PropertyType::Link,
        PropertyValue::Position(..) => PropertyType::Position,
        PropertyValue::Highlight(..) => PropertyType::Highlight,
        PropertyValue::List(..) => PropertyType::List,
        PropertyValue::Orientation(..) => PropertyType::Orientation,
        PropertyValue::Cursor(..) => PropertyType::Cursor,
        PropertyValue::Inherit => PropertyType::Inherit,
    }
}

/// A named theme property.
pub struct Property {
    /// Name of the property.
    pub name: String,
    /// Its tagged value.
    pub value: PropertyValue,
}

impl Property {
    /// The type of this property's value.
    pub fn property_type(&self) -> (r: PropertyType)
        ensures
            r == spec_property_value_type(self.value),
    {
        property_value_type(&self.value)
    }

    /// The user-readable name of this property's type, for diagnostics.
    pub fn name_of_type(&self) -> (r: &'static str)
        ensures
            r@ == spec_property_type_name(spec_property_value_type(self.value)),
    {
        property_type_name(self.property_type())
    }
}

/// A range of entry indices, both ends inclusive.
#[derive(Clone, Copy, Debug, PartialEq, Eq, Structural)]
pub struct RofiRangePair {
    /// First index of the range.
    pub start: i32,
    /// Last index of the range.
    pub stop: i32,
}

/// One parsed search predicate: matching an entry means finding `pattern`
/// inside it, and a negated predicate means *not* finding it.
#[derive(Clone, Debug)]
pub struct RofiIntMatcher {
    /// The text this predicate looks for; already folded to lower case when
    /// the predicate is case-insensitive.
    pub pattern: Vec<char>,
    /// Whether case distinguishes matches.
    pub case_sensitive: bool,
    /// Whether the predicate is negated.
    pub invert: bool,
}

/// An opaque handle to the dynamic loader's module object for a plugin.
///
/// The loader owns the module; the bridge only carries the handle back to
/// it and never interprets the value.
#[derive(Clone, Copy, Debug, PartialEq, Eq, Structural)]
pub struct GModule {
    /// The loader's identifier for the module.
    pub handle: u64,
}

/// The startup-notification context of an application the host launches on
/// a plugin's behalf.  Absent fields are filled in by the host.
#[derive(Clone, Debug)]
pub struct RofiHelperExecuteContext {
    /// Name of the application.
    pub name: Option<String>,
    /// Binary name of the application.
    pub binary: Option<String>,
    /// Description of the launch.
    pub description: Option<String>,
    /// Icon name of the application.
    pub icon: Option<String>,
    /// Application identifier (desktop file).
    pub app_id: Option<String>,
    /// Window-manager class of the application.
    pub wmclass: Option<String>,
    /// The command the host runs.
    pub command: Option<String>,
}

} // verus!


