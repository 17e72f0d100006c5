use vstd::prelude::*;

verus! {

/// Main axis along which a container lays out its children.
#[derive(Copy, Clone, Debug, PartialEq, Eq, Structural)]
pub enum LayoutDirection {
    Row,
    Column,
}

impl LayoutDirection {
    /// The CSS-like name of the direction.
    pub fn as_str(&self) -> (s: &'static str)
        ensures
            s@ == match *self {
                LayoutDirection::Row => "row"@,
                LayoutDirection::Column => "column"@,
            },
    {
        match self {
            LayoutDirection::Row => "row",
            LayoutDirection::Column => "column",
        }
    }
}

impl Default for LayoutDirection {
    fn default() -> (d: Self)
        ensures
            d == LayoutDirection::Column,
    {
        LayoutDirection::Column
    }
}

/// What a container does with children that do not fit on its axis.
#[derive(Copy, Clone, Debug, PartialEq, Eq, Structural)]
pub enum LayoutOverflow {
    Auto,
    Scroll,
    Show,
    Squash,
    Wrap,
}

impl LayoutOverflow {
    /// The name of the variant, as it is printed.
    pub fn as_str(&self) -> (s: &'static str)
        ensures
            s@ == match *self {
                LayoutOverflow::Auto => "Auto"@,
                LayoutOverflow::Scroll => "Scroll"@,
                LayoutOverflow::Show => "Show"@,
                LayoutOverflow::Squash => "Squash"@,
                LayoutOverflow::Wrap => "Wrap"@,
            },
    {
        match self {
            LayoutOverflow::Auto => "Auto",
            LayoutOverflow::Scroll => "Scroll",
            LayoutOverflow::Show => "Show",
            LayoutOverflow::Squash => "Squash",
            LayoutOverflow::Wrap => "Wrap",
        }
    }
}

impl Default for LayoutOverflow {
    fn default() -> (d: Self)
        ensures
            d == LayoutOverflow::Squash,
    {
        LayoutOverflow::Squash
    }
}

/// Distribution of the free space along the main axis.
#[derive(Copy, Clone, Debug, PartialEq, Eq, Structural)]
pub enum JustifyContent {
    Start,
    Center,
    End,
    SpaceBetween,
    SpaceEvenly,
    Default,
}

impl JustifyContent {
    /// The CSS-like name of the justification.
    pub fn as_str(&self) -> (s: &'static str)
        ensures
            s@ == match *self {
                JustifyContent::Start => "start"@,
                JustifyContent::Center => "center"@,
                JustifyContent::End => "end"@,
                JustifyContent::SpaceBetween => "space-between"@,
                JustifyContent::SpaceEvenly => "space-evenly"@,
                JustifyContent::Default => "default"@,
            },
    {
        match self {
            JustifyContent::Start => "start",
            JustifyContent::Center => "center",
            JustifyContent::End => "end",
            JustifyContent::SpaceBetween => "space-between",
            JustifyContent::SpaceEvenly => "space-evenly",
            JustifyContent::Default => "default",
        }
    }
}

impl Default for JustifyContent {
    fn default() -> (d: Self)
        ensures
            d == JustifyContent::Default,
    {
        JustifyContent::Default
    }
}

/// Alignment of the children across the main axis.
#[derive(Copy, Clone, Debug, PartialEq, Eq, Structural)]
pub enum AlignItems {
    Start,
    Center,
    End,
    Default,
}

impl AlignItems {
    /// The CSS-like name of the alignment.
    pub fn as_str(&self) -> (s: &'static str)
        ensures
            s@ == match *self {
                AlignItems::Start => "start"@,
                AlignItems::Center => "center"@,
                AlignItems::End => "end"@,
                AlignItems::Default => "default"@,
            },
    {
        match self {
            AlignItems::Start => "start",
            AlignItems::Center => "center",
            AlignItems::End => "end",
            AlignItems::Default => "default",
        }
    }
}

impl Default for AlignItems {
    fn default() -> (d: Self)
        ensures
            d == AlignItems::Default,
    {
        AlignItems::Default
    }
}

/// Place of a child in a wrapping grid, or no place at all.
#[derive(Clone, Debug, PartialEq, Eq, Structural)]
pub enum LayoutPosition {
    Wrap { row: u32, col: u32 },
    Default,
}

impl LayoutPosition {
    /// The row of a wrapped child.
    pub open spec fn spec_row(self) -> Option<u32> {
        match self {
            LayoutPosition::Wrap { row, .. } => Some(row),
            LayoutPosition::Default => None,
        }
    }

    /// The column of a wrapped child.
    pub open spec fn spec_column(self) -> Option<u32> {
        match self {
            LayoutPosition::Wrap { col, .. } => Some(col),
            LayoutPosition::Default => None,
        }
    }

    /// The row of a wrapped child, `None` for an unplaced one.
    pub fn row(&self) -> (r: Option<u32>)
        ensures
            r == self.spec_row(),
    {
        match self {
            LayoutPosition::Wrap { row, .. } => Some(*row),
            LayoutPosition::Default => None,
        }
    }

    /// The column of a wrapped child, `None` for an unplaced one.
    pub fn column(&self) -> (c: Option<u32>)
        ensures
            c == self.spec_column(),
    {
        match self {
            LayoutPosition::Wrap { col, .. } => Some(*col),
            LayoutPosition::Default => None,
        }
    }
}

impl Default for LayoutPosition {
    fn default() -> (d: Self)
        ensures
            d == LayoutPosition::Default,
    {
        LayoutPosition::Default
    }
}

/// What an HTMX-like swap replaces.
#[derive(Clone, Copy, Debug, PartialEq, Eq, Structural)]
pub enum SwapTarget {
    This,
    Children,
}

impl SwapTarget {
    /// The attribute value of the target.
    pub fn as_str(&self) -> (s: &'static str)
        ensures
            s@ == match *self {
                SwapTarget::This => "self"@,
                SwapTarget::Children => "children"@,
            },
    {
        match self {
            SwapTarget::This => "self",
            SwapTarget::Children => "children",
        }
    }
}

impl Default for SwapTarget {
    fn default() -> (d: Self)
        ensures
            d == SwapTarget::This,
    {
        SwapTarget::This
    }
}

/// A request that an element issues.
#[derive(Clone, Debug, PartialEq, Eq)]
pub enum Route {
    Get { route: String, trigger: Option<String>, swap: SwapTarget },
    Post { route: String, trigger: Option<String>, swap: SwapTarget },
}

/// Mouse cursor shown over an element.
#[derive(Clone, Copy, Debug, PartialEq, Eq, Structural)]
pub enum Cursor {
    Auto,
    Pointer,
    Text,
    Crosshair,
    Move,
    NotAllowed,
    NoDrop,
    Grab,
    Grabbing,
    AllScroll,
    ColResize,
    RowResize,
    NResize,
    EResize,
    SResize,
    WResize,
    NeResize,
    NwResize,
    SeResize,
    SwResize,
    EwResize,
    NsResize,
    NeswResize,
    ZoomIn,
    ZoomOut,
}

impl Cursor {
    /// The CSS name of the cursor.
    pub open spec fn spec_name(self) -> Seq<char> {
        match self {
            Cursor::Auto => "auto"@,
            Cursor::Pointer => "pointer"@,
            Cursor::Text => "text"@,
            Cursor::Crosshair => "crosshair"@,
            Cursor::Move => "move"@,
            Cursor::NotAllowed => "not-allowed"@,
            Cursor::NoDrop => "no-drop"@,
            Cursor::Grab => "grab"@,
            Cursor::Grabbing => "grabbing"@,
            Cursor::AllScroll => "all-scroll"@,
            Cursor::ColResize => "col-resize"@,
            Cursor::RowResize => "row-resize"@,
            Cursor::NResize => "n-resize"@,
            Cursor::EResize => "e-resize"@,
            Cursor::SResize => "s-resize"@,
            Cursor::WResize => "w-resize"@,
            Cursor::NeResize => "ne-resize"@,
            Cursor::NwResize => "nw-resize"@,
            Cursor::SeResize => "se-resize"@,
            Cursor::SwResize => "sw-resize"@,
            Cursor::EwResize => "ew-resize"@,
            Cursor::NsResize => "ns-resize"@,
            Cursor::NeswResize => "nesw-resize"@,
            Cursor::ZoomIn => "zoom-in"@,
            Cursor::ZoomOut => "zoom-out"@,
        }
    }

    /// The CSS name of the cursor.
    pub fn as_str(&self) -> (s: &'static str)
        ensures
            s@ == self.spec_name(),
    {
        match self {
            Cursor::Auto => "auto",
            Cursor::Pointer => "pointer",
            Cursor::Text => "text",
            Cursor::Crosshair => "crosshair",
            Cursor::Move => "move",
            Cursor::NotAllowed => "not-allowed",
            Cursor::NoDrop => "no-drop",
            Cursor::Grab => "grab",
            Cursor::Grabbing => "grabbing",
            Cursor::AllScroll => "all-scroll",
            Cursor::ColResize => "col-resize",
            Cursor::RowResize => "row-resize",
            Cursor::NResize => "n-resize",
            Cursor::EResize => "e-resize",
            Cursor::SResize => "s-resize",
            Cursor::WResize => "w-resize",
            Cursor::NeResize => "ne-resize",
            Cursor::NwResize => "nw-resize",
            Cursor::SeResize => "se-resize",
            Cursor::SwResize => "sw-resize",
            Cursor::EwResize => "ew-resize",
            Cursor::NsResize => "ns-resize",
            Cursor::NeswResize => "nesw-resize",
            Cursor::ZoomIn => "zoom-in",
            Cursor::ZoomOut => "zoom-out",
        }
    }
}

/// Length and first two characters of each cursor's CSS name, which tell
/// the names apart.
spec fn cursor_name_signature(c: Cursor) -> (nat, char, char) {
    match c {
        Cursor::Auto => (4, 'a', 'u'),
        Cursor::Pointer => (7, 'p', 'o'),
        Cursor::Text => (4, 't', 'e'),
        Cursor::Crosshair => (9, 'c', 'r'),
        Cursor::Move => (4, 'm', 'o'),
        Cursor::NotAllowed => (11, 'n', 'o'),
        Cursor::NoDrop => (7, 'n', 'o'),
        Cursor::Grab => (4, 'g', 'r'),
        Cursor::Grabbing => (8, 'g', 'r'),
        Cursor::AllScroll => (10, 'a', 'l'),
        Cursor::ColResize => (10, 'c', 'o'),
        Cursor::RowResize => (10, 'r', 'o'),
        Cursor::NResize => (8, 'n', '-'),
        Cursor::EResize => (8, 'e', '-'),
        Cursor::SResize => (8, 's', '-'),
        Cursor::WResize => (8, 'w', '-'),
        Cursor::NeResize => (9, 'n', 'e'),
        Cursor::NwResize => (9, 'n', 'w'),
        Cursor::SeResize => (9, 's', 'e'),
        Cursor::SwResize => (9, 's', 'w'),
        Cursor::EwResize => (9, 'e', 'w'),
        Cursor::NsResize => (9, 'n', 's'),
        Cursor::NeswResize => (11, 'n', 'e'),
        Cursor::ZoomIn => (7, 'z', 'o'),
        Cursor::ZoomOut => (8, 'z', 'o'),
    }
}

/// The signature of a cursor's name is read off the name.
proof fn lemma_cursor_signature(c: Cursor)
    ensures
        cursor_name_signature(c) == (
            c.spec_name().len(),
            c.spec_name()[0],
            c.spec_name()[1],
        ),
{
    match c {
        Cursor::Auto => {
            reveal_strlit("auto");
        },
        Cursor::Pointer => {
            reveal_strlit("pointer");
        },
        Cursor::Text => {
            reveal_strlit("text");
        },
        Cursor::Crosshair => {
            reveal_strlit("crosshair");
        },
        Cursor::Move => {
            reveal_strlit("move");
        },
        Cursor::NotAllowed => {
            reveal_strlit("not-allowed");
        },
        Cursor::NoDrop => {
            reveal_strlit("no-drop");
        },
        Cursor::Grab => {
            reveal_strlit("grab");
        },
        Cursor::Grabbing => {
            reveal_strlit("grabbing");
        },
        Cursor::AllScroll => {
            reveal_strlit("all-scroll");
        },
        Cursor::ColResize => {
            reveal_strlit("col-resize");
        },
        Cursor::RowResize => {
            reveal_strlit("row-resize");
        },
        Cursor::NResize => {
            reveal_strlit("n-resize");
        },
        Cursor::EResize => {
            reveal_strlit("e-resize");
        },
        Cursor::SResize => {
            reveal_strlit("s-resize");
        },
        Cursor::WResize => {
            reveal_strlit("w-resize");
        },
        Cursor::NeResize => {
            reveal_strlit("ne-resize");
        },
        Cursor::NwResize => {
            reveal_strlit("nw-resize");
        },
        Cursor::SeResize => {
            reveal_strlit("se-resize");
        },
        Cursor::SwResize => {
            reveal_strlit("sw-resize");
        },
        Cursor::EwResize => {
            reveal_strlit("ew-resize");
        },
        Cursor::NsResize => {
            reveal_strlit("ns-resize");
        },
        Cursor::NeswResize => {
            reveal_strlit("nesw-resize");
        },
        Cursor::ZoomIn => {
            reveal_strlit("zoom-in");
        },
        Cursor::ZoomOut => {
            reveal_strlit("zoom-out");
        },
    }
}

/// Distinct cursors have distinct CSS names.
pub proof fn lemma_cursor_names_distinct(a: Cursor, b: Cursor)
    requires
        a != b,
    ensures
        a.spec_name() != b.spec_name(),
{
    lemma_cursor_signature(a);
    lemma_cursor_signature(b);
    assert(cursor_name_signature(a) != cursor_name_signature(b));
}

impl Default for Cursor {
    fn default() -> (d: Self)
        ensures
            d == Cursor::Auto,
    {
        Cursor::Auto
    }
}

/// Positioning scheme of an element.
#[derive(Clone, Copy, Debug, PartialEq, Eq, Structural)]
pub enum Position {
    Static,
    Relative,
    Absolute,
}

impl Position {
    /// The CSS name of the scheme.
    pub fn as_str(&self) -> (s: &'static str)
        ensures
            s@ == match *self {
                Position::Static => "static"@,
                Position::Relative => "relative"@,
                Position::Absolute => "absolute"@,
            },
    {
        match self {
            Position::Static => "static",
            Position::Relative => "relative",
            Position::Absolute => "absolute",
        }
    }
}

impl Default for Position {
    fn default() -> (d: Self)
        ensures
            d == Position::Static,
    {
        Position::Static
    }
}

/// Whether an element is drawn.
#[derive(Clone, Copy, Debug, PartialEq, Eq, Structural)]
pub enum Visibility {
    Visible,
    Hidden,
}

impl Visibility {
    /// The CSS name of the visibility.
    pub fn as_str(&self) -> (s: &'static str)
        ensures
            s@ == match *self {
                Visibility::Visible => "visible"@,
                Visibility::Hidden => "hidden"@,
            },
    {
        match self {
            Visibility::Visible => "visible",
            Visibility::Hidden => "hidden",
        }
    }
}

impl Default for Visibility {
    fn default() -> (d: Self)
        ensures
            d == Visibility::Visible,
    {
        Visibility::Visible
    }
}

} // verus!
