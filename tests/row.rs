use alacritty_terminal::ansi::{Color, NamedColor};
use alacritty_terminal::cell::{Cell, LineLength};
use alacritty_terminal::grid::{GridCell, InvalidSplitPoint, Row};
use alacritty_terminal::index::Column;

#[test]
fn cell_line_length_works() {
    let template = Cell::default();
    let mut row = Row::new(Column(10), &template);
    row.index_mut(Column(5)).c = 'a';

    assert_eq!(row.line_length(), Column(6));
}

#[test]
fn cell_line_length_works_with_wrapline() {
    let template = Cell::default();
    let mut row = Row::new(Column(10), &template);
    row.index_mut(Column(9)).flags.wrapline = true;

    assert_eq!(row.line_length(), Column(10));
}

#[test]
fn len_follows_grow_and_shrink() {
    let template = Cell::default();
    let mut row = Row::new(Column(10), &template);
    assert_eq!(row.len(), 10);
    row.index_mut(Column(2)).c = 'x';
    assert_eq!(row.len(), 10);
    row.grow(Column(20));
    assert_eq!(row.len(), 20);
    assert!(row.shrink(Column(4)).is_none());
    assert_eq!(row.len(), 4);
    row.grow(Column(7));
    assert_eq!(row.len(), 7);
}

#[test]
fn implicit_row_is_empty() {
    let template = Cell::default();
    let row: Row<Cell> = Row::new(Column(80), &template);
    assert!(row.is_empty());
    assert_eq!(row.occupied(), Column(0));
    let wide: Row<Cell> = Row::new(Column(0), &template);
    assert!(wide.is_empty());
}

#[test]
fn row_with_text_is_not_empty() {
    let template = Cell::default();
    let mut row = Row::new(Column(10), &template);
    row.index_mut(Column(3)).c = 'z';
    assert!(!row.is_empty());
    assert_eq!(row.occupied(), Column(4));
    let mut blank = Row::new(Column(10), &template);
    blank.index_mut(Column(3)).c = ' ';
    assert!(blank.is_empty());
    assert_eq!(blank.occupied(), Column(0));
}

#[test]
fn shrink_hands_back_trimmed_overflow() {
    let template = Cell::default();
    let mut row = Row::new(Column(10), &template);
    row.index_mut(Column(5)).c = 'a';

    assert!(row.shrink(Column(6)).is_none());
    assert_eq!(row.len(), 6);

    let cut = row.shrink(Column(3)).expect("the non-empty cell is cut off");
    assert_eq!(row.len(), 3);
    assert_eq!(cut.len(), 3);
    assert_eq!(cut[2].c, 'a');
    assert!(cut[0].is_empty());
    assert!(cut[1].is_empty());
}

#[test]
fn shrink_drops_empty_overflow() {
    let template = Cell::default();
    let mut row = Row::new(Column(10), &template);
    row.index_mut(Column(1)).c = 'a';
    row.index_mut(Column(7)).c = ' ';
    assert!(row.shrink(Column(4)).is_none());
    assert_eq!(row.len(), 4);
    assert_eq!(row.index(Column(1)).c, 'a');
}

#[test]
fn index_reads_template_beyond_backing() {
    let template = Cell::new('.', Color::Named(NamedColor::Red), Color::Indexed(4));
    let row = Row::new(Column(5), &template);
    assert_eq!(*row.index(Column(3)), template);
    assert_eq!(*row.last().unwrap(), template);
    let empty: Row<Cell> = Row::new(Column(0), &template);
    assert!(empty.last().is_none());
}

#[test]
fn last_mut_materializes_row() {
    let template = Cell::default();
    let mut row = Row::new(Column(4), &template);
    row.last_mut().unwrap().c = 'q';
    assert_eq!(row.index(Column(3)).c, 'q');
    assert_eq!(row.index(Column(0)).c, ' ');
    assert_eq!(row.occupied(), Column(4));
    let mut none: Row<Cell> = Row::new(Column(0), &template);
    assert!(none.last_mut().is_none());
}

#[test]
fn iter_mut_covers_every_column() {
    let template = Cell::default();
    let mut row = Row::new(Column(5), &template);
    let mut n = 0;
    for cell in row.iter_mut() {
        cell.c = 'k';
        n += 1;
    }
    assert_eq!(n, 5);
    assert_eq!(row.occupied(), Column(5));
    assert_eq!(row.index(Column(4)).c, 'k');
}

#[test]
fn front_split_off_moves_leading_columns() {
    let template = Cell::default();
    let mut row = Row::new(Column(6), &template);
    row.index_mut(Column(0)).c = 'a';
    row.index_mut(Column(4)).c = 'e';
    let front = row.front_split_off(2).unwrap();
    assert_eq!(front.len(), 2);
    assert_eq!(front[0].c, 'a');
    assert_eq!(row.len(), 4);
    assert_eq!(row.index(Column(2)).c, 'e');

    let mut lazy = Row::new(Column(6), &template);
    let front = lazy.front_split_off(3).unwrap();
    assert_eq!(front.len(), 3);
    assert_eq!(lazy.len(), 3);
}

#[test]
fn front_split_off_refuses_point_beyond_row() {
    let template = Cell::default();
    let mut row = Row::new(Column(4), &template);
    row.index_mut(Column(1)).c = 'b';
    assert_eq!(row.front_split_off(5), Err(InvalidSplitPoint));
    assert_eq!(row.len(), 4);
    assert_eq!(row.index(Column(1)).c, 'b');
}

#[test]
fn append_extends_columns() {
    let template = Cell::default();
    let mut row = Row::new(Column(2), &template);
    let mut more = vec![Cell::new('x', Color::Named(NamedColor::Foreground), Color::Named(NamedColor::Background)); 3];
    row.append(&mut more);
    assert!(more.is_empty());
    assert_eq!(row.len(), 3);
    assert_eq!(row.index(Column(2)).c, 'x');

    let front = vec![Cell::new('f', Color::Named(NamedColor::Foreground), Color::Named(NamedColor::Background)); 2];
    row.append_front(front);
    assert_eq!(row.len(), 5);
    assert_eq!(row.index(Column(0)).c, 'f');
    assert_eq!(row.index(Column(2)).c, 'x');
}

#[test]
fn reset_and_reset_from_replace_template() {
    let template = Cell::default();
    let other = Cell::new('#', Color::Named(NamedColor::Blue), Color::Named(NamedColor::Background));
    let mut row = Row::new(Column(5), &template);
    for cell in row.iter_mut() {
        cell.c = 'w';
    }
    row.reset_from(2, &other);
    assert_eq!(row.index(Column(1)).c, 'w');
    assert_eq!(row.index(Column(3)).c, '#');
    row.reset(&template);
    assert!(row.is_empty());
    assert_eq!(row.len(), 5);
    assert_eq!(*row.index(Column(1)), template);
}

#[test]
fn from_vec_adopts_cells() {
    let template = Cell::default();
    let cells = vec![Cell::new('v', Color::Named(NamedColor::Foreground), Color::Named(NamedColor::Background)); 2];
    let row = Row::from_vec(cells, &template, Column(4));
    assert_eq!(row.len(), 4);
    assert_eq!(row.index(Column(1)).c, 'v');
    assert_eq!(row.index(Column(3)).c, ' ');
    assert_eq!(row.occupied(), Column(2));
}
