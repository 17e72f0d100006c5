use vstd::prelude::*;
use crate::models::{LayoutPosition, Position};

verus! {

/// Size that layout reserves for a scrollbar unless told otherwise.
pub const DEFAULT_SCROLLBAR_SIZE: u16 = 16;

/// Settings shared by all layout passes.
pub struct LayoutSettings {
    pub scrollbar_size: u16,
}

impl Default for LayoutSettings {
    fn default() -> (s: Self)
        ensures
            s.scrollbar_size == DEFAULT_SCROLLBAR_SIZE,
    {
        LayoutSettings { scrollbar_size: DEFAULT_SCROLLBAR_SIZE }
    }
}

/// The size reserved for a scrollbar.
pub fn get_scrollbar_size(settings: &LayoutSettings) -> (size: u16)
    ensures
        size == settings.scrollbar_size,
{
    settings.scrollbar_size
}

/// The settings after the scrollbar size is set to `size`.
pub open spec fn with_scrollbar_size(settings: LayoutSettings, size: u16) -> LayoutSettings {
    LayoutSettings { scrollbar_size: size, ..settings }
}

/// Sets the size reserved for a scrollbar, leaving the other settings.
pub fn set_scrollbar_size(settings: &mut LayoutSettings, size: u16)
    ensures
        *final(settings) == with_scrollbar_size(*old(settings), size),
{
    settings.scrollbar_size = size;
}

/// Reading the scrollbar size gives what the last write set, whatever it
/// held before; and a write replaces every earlier one.
pub proof fn lemma_scrollbar_size_read_after_write(settings: LayoutSettings, first: u16, second: u16)
    ensures
        with_scrollbar_size(settings, first).scrollbar_size == first,
        with_scrollbar_size(with_scrollbar_size(settings, first), second) == with_scrollbar_size(
            settings,
            second,
        ),
{
}

/// A node of the element tree: raw text, or a container of other nodes.
pub enum Element {
    Raw { value: String },
    Div { element: ContainerElement },
}

/// The grid bookkeeping of a container: its children, where it was placed
/// in its parent's grid, how it is positioned and whether it is hidden.
pub struct ContainerElement {
    pub elements: Vec<Element>,
    pub calculated_position: Option<LayoutPosition>,
    pub position: Option<Position>,
    pub hidden: Option<bool>,
}

impl Element {
    /// The container of a container node.
    pub open spec fn spec_container(self) -> Option<ContainerElement> {
        match self {
            Element::Div { element } => Some(element),
            Element::Raw { .. } => None,
        }
    }

    /// The container of a container node, `None` for raw text.
    pub fn container_element(&self) -> (c: Option<&ContainerElement>)
        ensures
            c is Some <==> self.spec_container() is Some,
            c matches Some(x) ==> self.spec_container() == Some(*x),
    {
        match self {
            Element::Div { element } => Some(element),
            Element::Raw { .. } => None,
        }
    }
}

/// Whether a node takes part in the flow of its parent: every node but an
/// absolutely positioned container.
pub open spec fn is_relative_positioned(e: Element) -> bool {
    !(e.spec_container() matches Some(c) && c.position == Some(Position::Absolute))
}

/// The children of `s` that take part in the flow, in order.
pub open spec fn flowing(s: Seq<Element>) -> Seq<Element> {
    keep(s, |e: Element| is_relative_positioned(e))
}

/// Whether a node is a container placed in grid row `row`.
pub open spec fn in_row(e: Element, row: u32) -> bool {
    e.spec_container() matches Some(c) && (c.calculated_position matches Some(p) && p.spec_row()
        == Some(row))
}

/// Whether a node is a container placed in grid column `column`.
pub open spec fn in_column(e: Element, column: u32) -> bool {
    e.spec_container() matches Some(c) && (c.calculated_position matches Some(p)
        && p.spec_column() == Some(column))
}

/// The nodes of `s` that satisfy `keep`, in order.
pub open spec fn keep(s: Seq<Element>, keep_it: spec_fn(Element) -> bool) -> Seq<Element>
    decreases s.len(),
{
    if s.len() == 0 {
        Seq::empty()
    } else {
        let rest = keep(s.drop_last(), keep_it);
        if keep_it(s.last()) {
            rest.push(s.last())
        } else {
            rest
        }
    }
}

/// The nodes that references point to.
pub open spec fn targets(s: Seq<&Element>) -> Seq<Element> {
    s.map_values(|e: &Element| *e)
}

/// The highest grid row among the placed containers of `s`.
pub open spec fn max_row(s: Seq<Element>) -> Option<u32>
    decreases s.len(),
{
    if s.len() == 0 {
        None
    } else {
        let rest = max_row(s.drop_last());
        let here = match s.last().spec_container() {
            Some(c) => match c.calculated_position {
                Some(p) => p.spec_row(),
                None => None,
            },
            None => None,
        };
        match (rest, here) {
            (Some(a), Some(b)) => Some(if a >= b { a } else { b }),
            (Some(a), None) => Some(a),
            (None, h) => h,
        }
    }
}

/// The highest grid column among the placed containers of `s`.
pub open spec fn max_column(s: Seq<Element>) -> Option<u32>
    decreases s.len(),
{
    if s.len() == 0 {
        None
    } else {
        let rest = max_column(s.drop_last());
        let here = match s.last().spec_container() {
            Some(c) => match c.calculated_position {
                Some(p) => p.spec_column(),
                None => None,
            },
            None => None,
        };
        match (rest, here) {
            (Some(a), Some(b)) => Some(if a >= b { a } else { b }),
            (Some(a), None) => Some(a),
            (None, h) => h,
        }
    }
}

/// The row or column of a node, by `rows`: its grid row when `rows` is
/// set, its grid column otherwise.
fn grid_index(e: &Element, rows: bool) -> (i: Option<u32>)
    ensures
        rows ==> i == match e.spec_container() {
            Some(c) => match c.calculated_position {
                Some(p) => p.spec_row(),
                None => None,
            },
            None => None,
        },
        !rows ==> i == match e.spec_container() {
            Some(c) => match c.calculated_position {
                Some(p) => p.spec_column(),
                None => None,
            },
            None => None,
        },
{
    match e.container_element() {
        Some(c) => match &c.calculated_position {
            Some(p) => if rows {
                p.row()
            } else {
                p.column()
            },
            None => None,
        },
        None => None,
    }
}

/// Number of grid rows of the flowing children of `s`: one more than the
/// highest row any of them is placed in, 1 when none is placed.
pub open spec fn grid_rows(s: Seq<Element>) -> int {
    match max_row(flowing(s)) {
        Some(m) => m + 1,
        None => 1,
    }
}

/// Number of grid columns of the flowing children of `s`: one more than the
/// highest column any of them is placed in, 1 when none is placed.
pub open spec fn grid_columns(s: Seq<Element>) -> int {
    match max_column(flowing(s)) {
        Some(m) => m + 1,
        None => 1,
    }
}

/// No node of `t` lies in a row past the highest row of `t`.
proof fn lemma_no_row_past_max(t: Seq<Element>, row: u32)
    requires
        match max_row(t) {
            Some(m) => row > m,
            None => true,
        },
    ensures
        keep(t, |e: Element| in_row(e, row)).len() == 0,
    decreases t.len(),
{
    if t.len() > 0 {
        lemma_no_row_past_max(t.drop_last(), row);
    }
}

/// No node of `t` lies in a column past the highest column of `t`.
proof fn lemma_no_column_past_max(t: Seq<Element>, column: u32)
    requires
        match max_column(t) {
            Some(m) => column > m,
            None => true,
        },
    ensures
        keep(t, |e: Element| in_column(e, column)).len() == 0,
    decreases t.len(),
{
    if t.len() > 0 {
        lemma_no_column_past_max(t.drop_last(), column);
    }
}

/// Every flowing child lies in a row below `rows()` and a column below
/// `columns()`: the rows and columns from those counts on hold no child.
pub proof fn lemma_grid_bounds(s: Seq<Element>, row: u32, column: u32)
    requires
        row >= grid_rows(s),
        column >= grid_columns(s),
    ensures
        keep(flowing(s), |e: Element| in_row(e, row)).len()
            == 0,
        keep(flowing(s), |e: Element| in_column(e, column)).len()
            == 0,
{
    lemma_no_row_past_max(flowing(s), row);
    lemma_no_column_past_max(flowing(s), column);
}

/// `max_row` is the highest row a node of `t` is placed in: some node lies
/// in that row and none lies in a higher one; it is `None` exactly when no
/// node of `t` is placed in a row.
pub proof fn lemma_max_row_tight(t: Seq<Element>)
    ensures
        max_row(t) matches Some(m) ==> exists|k: int| 0 <= k < t.len() && #[trigger] in_row(t[k], m),
        forall|k: int, r: u32|
            0 <= k < t.len() && #[trigger] in_row(t[k], r) ==> (max_row(t) matches Some(m) && r
                <= m),
    decreases t.len(),
{
    if t.len() > 0 {
        let front = t.drop_last();
        lemma_max_row_tight(front);
        assert forall|k: int| 0 <= k < front.len() implies #[trigger] front[k] == t[k] by {}
        if let Some(m) = max_row(t) {
            if max_row(front) == Some(m) {
                let k = choose|k: int| 0 <= k < front.len() && #[trigger] in_row(front[k], m);
                assert(in_row(t[k], m));
            } else {
                assert(in_row(t[t.len() - 1], m));
            }
        }
        assert forall|k: int, r: u32| 0 <= k < t.len() && #[trigger] in_row(t[k], r) implies (max_row(
            t,
        ) matches Some(m) && r <= m) by {
            if k < front.len() {
                assert(in_row(front[k], r));
            }
        }
    }
}

/// `max_column` is the highest column a node of `t` is placed in: some
/// node lies in that column and none lies in a higher one; it is `None`
/// exactly when no node of `t` is placed in a column.
pub proof fn lemma_max_column_tight(t: Seq<Element>)
    ensures
        max_column(t) matches Some(m) ==> exists|k: int|
            0 <= k < t.len() && #[trigger] in_column(t[k], m),
        forall|k: int, c: u32|
            0 <= k < t.len() && #[trigger] in_column(t[k], c) ==> (max_column(t) matches Some(m)
                && c <= m),
    decreases t.len(),
{
    if t.len() > 0 {
        let front = t.drop_last();
        lemma_max_column_tight(front);
        assert forall|k: int| 0 <= k < front.len() implies #[trigger] front[k] == t[k] by {}
        if let Some(m) = max_column(t) {
            if max_column(front) == Some(m) {
                let k = choose|k: int| 0 <= k < front.len() && #[trigger] in_column(front[k], m);
                assert(in_column(t[k], m));
            } else {
                assert(in_column(t[t.len() - 1], m));
            }
        }
        assert forall|k: int, c: u32|
            0 <= k < t.len() && #[trigger] in_column(t[k], c) implies (max_column(t) matches Some(m)
            && c <= m) by {
            if k < front.len() {
                assert(in_column(front[k], c));
            }
        }
    }
}

/// The row and column counts of a container are tight: every flowing child
/// lies in a row below `rows()` and a column below `columns()`, and when
/// some flowing child is placed in a row (column), one lies in the last row
/// (column) counted.
pub proof fn lemma_grid_counts_tight(s: Seq<Element>)
    ensures
        forall|k: int, r: u32|
            0 <= k < flowing(s).len() && #[trigger] in_row(
                flowing(s)[k],
                r,
            ) ==> r < grid_rows(s),
        forall|k: int, c: u32|
            0 <= k < flowing(s).len() && #[trigger] in_column(
                flowing(s)[k],
                c,
            ) ==> c < grid_columns(s),
        (exists|k: int, r: u32|
            0 <= k < flowing(s).len() && #[trigger] in_row(
                flowing(s)[k],
                r,
            )) ==> exists|k: int|
            0 <= k < flowing(s).len() && #[trigger] in_row(
                flowing(s)[k],
                (grid_rows(s) - 1) as u32,
            ),
        (exists|k: int, c: u32|
            0 <= k < flowing(s).len() && #[trigger] in_column(
                flowing(s)[k],
                c,
            )) ==> exists|k: int|
            0 <= k < flowing(s).len() && #[trigger] in_column(
                flowing(s)[k],
                (grid_columns(s) - 1) as u32,
            ),
{
    let t = flowing(s);
    lemma_max_row_tight(t);
    lemma_max_column_tight(t);
    if max_row(t) is Some {
        let m = max_row(t)->0;
        assert((grid_rows(s) - 1) as u32 == m);
        let w = choose|w: int| 0 <= w < t.len() && #[trigger] in_row(t[w], m);
        assert(in_row(flowing(s)[w], (grid_rows(s) - 1) as u32));
    } else {
        assert forall|k: int, r: u32| 0 <= k < t.len() implies !#[trigger] in_row(t[k], r) by {}
    }
    if max_column(t) is Some {
        let m = max_column(t)->0;
        assert((grid_columns(s) - 1) as u32 == m);
        let w = choose|w: int| 0 <= w < t.len() && #[trigger] in_column(t[w], m);
        assert(in_column(flowing(s)[w], (grid_columns(s) - 1) as u32));
    } else {
        assert forall|k: int, c: u32| 0 <= k < t.len() implies !#[trigger] in_column(t[k], c) by {}
    }
}

/// The highest row (by `rows`) or column among the nodes of `elements`.
fn max_line(elements: &Vec<&Element>, rows: bool) -> (m: Option<u32>)
    ensures
        rows ==> m == max_row(targets(elements@)),
        !rows ==> m == max_column(targets(elements@)),
{
    let ghost all = targets(elements@);
    let mut best: Option<u32> = None;
    let mut i: usize = 0;
    while i < elements.len()
        invariant
            i <= elements@.len(),
            all == targets(elements@),
            rows ==> best == max_row(all.take(i as int)),
            !rows ==> best == max_column(all.take(i as int)),
        decreases elements@.len() - i,
    {
        assert(all.take(i + 1).drop_last() =~= all.take(i as int));
        assert(all.take(i + 1).last() == *elements@[i as int]);
        let here = grid_index(elements[i], rows);
        best = match (best, here) {
            (Some(a), Some(b)) => Some(if a >= b { a } else { b }),
            (Some(a), None) => Some(a),
            (None, h) => h,
        };
        i = i + 1;
    }
    assert(all.take(elements@.len() as int) =~= all);
    best
}

impl ContainerElement {
    /// Number of grid rows that the flowing children occupy.
    pub fn rows(&self) -> (n: u32)
        requires
            max_row(flowing(self.elements@)) != Some(
                u32::MAX,
            ),
        ensures
            n == grid_rows(self.elements@),
    {
        let flowing = self.relative_positioned_elements();
        match max_line(&flowing, true) {
            Some(m) => m + 1,
            None => 1,
        }
    }

    /// Number of grid columns that the flowing children occupy.
    pub fn columns(&self) -> (n: u32)
        requires
            max_column(flowing(self.elements@)) != Some(
                u32::MAX,
            ),
        ensures
            n == grid_columns(self.elements@),
    {
        let flowing = self.relative_positioned_elements();
        match max_line(&flowing, false) {
            Some(m) => m + 1,
            None => 1,
        }
    }

    /// The children that take part in the flow, in order.
    pub fn relative_positioned_elements(&self) -> (elements: Vec<&Element>)
        ensures
            targets(elements@) == flowing(self.elements@),
    {
        let ghost pred = |e: Element| is_relative_positioned(e);
        let mut out: Vec<&Element> = Vec::new();
        let mut i: usize = 0;
        while i < self.elements.len()
            invariant
                i <= self.elements@.len(),
                pred == |e: Element| is_relative_positioned(e),
                targets(out@) == keep(self.elements@.take(i as int), pred),
            decreases self.elements@.len() - i,
        {
            let e = &self.elements[i];
            assert(self.elements@.take(i + 1).drop_last() =~= self.elements@.take(i as int));
            let absolute = match e.container_element() {
                Some(c) => match c.position {
                    Some(Position::Absolute) => true,
                    _ => false,
                },
                None => false,
            };
            if !absolute {
                let ghost before = out@;
                out.push(e);
                assert(targets(out@) =~= targets(before).push(*e));
            }
            i = i + 1;
        }
        assert(self.elements@.take(self.elements@.len() as int) =~= self.elements@);
        out
    }

    /// The nodes of `elements` that are containers placed in grid row `row`.
    pub fn elements_iter_row<'a>(elements: Vec<&'a Element>, row: u32) -> (picked: Vec<
        &'a Element,
    >)
        ensures
            targets(picked@) == keep(targets(elements@), |e: Element| in_row(e, row)),
    {
        Self::elements_in_line(elements, row, true)
    }

    /// The nodes of `elements` that are containers placed in grid column
    /// `column`.
    pub fn elements_iter_column<'a>(elements: Vec<&'a Element>, column: u32) -> (picked: Vec<
        &'a Element,
    >)
        ensures
            targets(picked@) == keep(targets(elements@), |e: Element| in_column(e, column)),
    {
        Self::elements_in_line(elements, column, false)
    }

    /// The nodes of `elements` in grid row `index` (by `rows`) or grid
    /// column `index`.
    fn elements_in_line<'a>(elements: Vec<&'a Element>, index: u32, rows: bool) -> (picked: Vec<
        &'a Element,
    >)
        ensures
            rows ==> targets(picked@) == keep(targets(elements@), |e: Element| in_row(e, index)),
            !rows ==> targets(picked@) == keep(
                targets(elements@),
                |e: Element| in_column(e, index),
            ),
    {
        let ghost pred = if rows {
            |e: Element| in_row(e, index)
        } else {
            |e: Element| in_column(e, index)
        };
        let ghost all = targets(elements@);
        let mut out: Vec<&'a Element> = Vec::new();
        let mut i: usize = 0;
        while i < elements.len()
            invariant
                i <= elements@.len(),
                all == targets(elements@),
                rows ==> pred == |e: Element| in_row(e, index),
                !rows ==> pred == |e: Element| in_column(e, index),
                targets(out@) == keep(all.take(i as int), pred),
            decreases elements@.len() - i,
        {
            let e = elements[i];
            assert(all.take(i + 1).drop_last() =~= all.take(i as int));
            assert(all.take(i + 1).last() == *e);
            let found = grid_index(e, rows);
            let hit = match found {
                Some(x) => x == index,
                None => false,
            };
            if hit {
                let ghost before = out@;
                out.push(e);
                assert(targets(out@) =~= targets(before).push(*e));
            }
            i = i + 1;
        }
        assert(all.take(elements@.len() as int) =~= all);
        out
    }

    /// The flowing children placed in grid row `row`.
    pub fn iter_row(&self, row: u32) -> (picked: Vec<&Element>)
        ensures
            targets(picked@) == keep(
                flowing(self.elements@),
                |e: Element| in_row(e, row),
            ),
    {
        Self::elements_iter_row(self.relative_positioned_elements(), row)
    }

    /// The flowing children placed in grid column `column`.
    pub fn iter_column(&self, column: u32) -> (picked: Vec<&Element>)
        ensures
            targets(picked@) == keep(
                flowing(self.elements@),
                |e: Element| in_column(e, column),
            ),
    {
        Self::elements_iter_column(self.relative_positioned_elements(), column)
    }
}

} // verus!
