use de::color::Color;
use de::terminal::{
    draw_plan, modifier_attributes, row_move, Attribute, CellAt, CellStyle, DrawStep, Position, RowMove,
};

fn cell(x: u16, y: u16, fg: Color) -> CellAt {
    CellAt { x, y, style: CellStyle { fg, bg: Color::Reset, modifiers: 0 } }
}

#[test]
fn rows_move_relative_to_the_cursor() {
    assert_eq!(row_move(1, 4), RowMove::Down(3));
    assert_eq!(row_move(4, 1), RowMove::Up(3));
    assert_eq!(row_move(2, 2), RowMove::Stay);
}

#[test]
fn adjacent_cells_print_without_moving_and_styles_change_once() {
    let cells = vec![
        cell(0, 0, Color::White),
        cell(1, 0, Color::White),
        cell(2, 0, Color::Red),
        cell(0, 2, Color::Red),
    ];
    let (steps, cursor) = draw_plan(&cells, Position { x: 5, y: 3 });
    assert_eq!(
        steps,
        vec![
            DrawStep::Move { rows: RowMove::Up(3), column: 0 },
            DrawStep::Restyle(0),
            DrawStep::Print(0),
            DrawStep::Print(1),
            DrawStep::Restyle(2),
            DrawStep::Print(2),
            DrawStep::Move { rows: RowMove::Down(2), column: 0 },
            DrawStep::Print(3),
        ]
    );
    assert_eq!(cursor, Position { x: 1, y: 2 });
    let (none, same) = draw_plan(&Vec::new(), Position { x: 5, y: 3 });
    assert!(none.is_empty());
    assert_eq!(same, Position { x: 5, y: 3 });
}

#[test]
fn modifiers_turn_on_their_attributes_in_order() {
    assert_eq!(modifier_attributes(0), vec![]);
    assert_eq!(modifier_attributes(0b1), vec![Attribute::Bold]);
    assert_eq!(modifier_attributes(0b1_0100_0001), vec![Attribute::Bold, Attribute::Reverse, Attribute::CrossedOut]);
    assert_eq!(modifier_attributes(0b10_0000_0000), vec![]);
    assert_eq!(modifier_attributes(0b1000_0010), vec![Attribute::Dim, Attribute::Hidden]);
}
