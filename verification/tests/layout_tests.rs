use moosicbox::layout::{
    get_scrollbar_size, set_scrollbar_size, ContainerElement, Element, LayoutSettings,
};
use moosicbox::models::{
    AlignItems, Cursor, JustifyContent, LayoutDirection, LayoutOverflow, LayoutPosition,
    Position, SwapTarget, Visibility,
};

fn placed(row: u32, col: u32, position: Option<Position>) -> Element {
    Element::Div {
        element: ContainerElement {
            elements: vec![],
            calculated_position: Some(LayoutPosition::Wrap { row, col }),
            position,
            hidden: None,
        },
    }
}

fn grid() -> ContainerElement {
    ContainerElement {
        elements: vec![
            placed(0, 0, None),
            placed(0, 1, Some(Position::Relative)),
            Element::Raw { value: "text".to_string() },
            placed(1, 0, None),
            placed(5, 7, Some(Position::Absolute)),
            Element::Div {
                element: ContainerElement {
                    elements: vec![],
                    calculated_position: Some(LayoutPosition::Default),
                    position: None,
                    hidden: None,
                },
            },
        ],
        calculated_position: None,
        position: None,
        hidden: None,
    }
}

fn position_of(e: &Element) -> Option<LayoutPosition> {
    e.container_element().and_then(|c| c.calculated_position.clone())
}

#[test]
fn scrollbar_size_reads_back_what_was_set() {
    let mut settings = LayoutSettings::default();
    assert_eq!(get_scrollbar_size(&settings), 16);
    set_scrollbar_size(&mut settings, 20);
    assert_eq!(get_scrollbar_size(&settings), 20);
    set_scrollbar_size(&mut settings, 0);
    assert_eq!(get_scrollbar_size(&settings), 0);
}

#[test]
fn iter_row_picks_flowing_children_of_the_row() {
    let g = grid();
    let row0: Vec<_> = g.iter_row(0).into_iter().map(position_of).collect();
    assert_eq!(
        row0,
        vec![
            Some(LayoutPosition::Wrap { row: 0, col: 0 }),
            Some(LayoutPosition::Wrap { row: 0, col: 1 })
        ]
    );
    assert_eq!(g.iter_row(1).len(), 1);
    assert!(g.iter_row(5).is_empty());
}

#[test]
fn iter_column_picks_flowing_children_of_the_column() {
    let g = grid();
    assert_eq!(g.iter_column(0).len(), 2);
    assert_eq!(g.iter_column(1).len(), 1);
    assert!(g.iter_column(7).is_empty());
}

#[test]
fn elements_iter_row_and_column_filter_any_list() {
    let g = grid();
    let all: Vec<&Element> = g.elements.iter().collect();
    assert_eq!(ContainerElement::elements_iter_row(all.clone(), 5).len(), 1);
    assert_eq!(ContainerElement::elements_iter_column(all, 7).len(), 1);
}

#[test]
fn rows_and_columns_count_the_grid() {
    let g = grid();
    assert_eq!(g.rows(), 2);
    assert_eq!(g.columns(), 2);
    let empty = ContainerElement {
        elements: vec![Element::Raw { value: String::new() }],
        calculated_position: None,
        position: None,
        hidden: None,
    };
    assert_eq!(empty.rows(), 1);
    assert_eq!(empty.columns(), 1);
}

#[test]
fn relative_positioned_elements_skip_absolute_children() {
    let g = grid();
    assert_eq!(g.relative_positioned_elements().len(), 5);
}

#[test]
fn layout_position_row_and_column() {
    let p = LayoutPosition::Wrap { row: 3, col: 4 };
    assert_eq!(p.row(), Some(3));
    assert_eq!(p.column(), Some(4));
    assert_eq!(LayoutPosition::Default.row(), None);
    assert_eq!(LayoutPosition::Default.column(), None);
    assert_eq!(LayoutPosition::default(), LayoutPosition::Default);
}

#[test]
fn model_names_and_defaults() {
    assert_eq!(LayoutDirection::Row.as_str(), "row");
    assert_eq!(LayoutDirection::default().as_str(), "column");
    assert_eq!(LayoutOverflow::default().as_str(), "Squash");
    assert_eq!(LayoutOverflow::Wrap.as_str(), "Wrap");
    assert_eq!(JustifyContent::SpaceBetween.as_str(), "space-between");
    assert_eq!(JustifyContent::default(), JustifyContent::Default);
    assert_eq!(AlignItems::Center.as_str(), "center");
    assert_eq!(SwapTarget::default().as_str(), "self");
    assert_eq!(Cursor::NotAllowed.as_str(), "not-allowed");
    assert_eq!(Cursor::default(), Cursor::Auto);
    assert_eq!(Position::Absolute.as_str(), "absolute");
    assert_eq!(Position::default(), Position::Static);
    assert_eq!(Visibility::Hidden.as_str(), "hidden");
    assert_eq!(Visibility::default(), Visibility::Visible);
}
