use snake::game::Game;
use snake::grid::{Coordinate, Heading};
use snake::render::{render, render_start, Color, Delta, RenderOp};

fn at(col: u16, row: u16) -> Coordinate {
    Coordinate { col, row }
}

#[test]
fn render_of_a_plain_move_clears_the_tail() {
    let delta = Delta {
        old_head: at(5, 10),
        new_head: at(6, 10),
        vacated_tail: Some(at(3, 10)),
        new_food: None,
    };
    assert_eq!(
        render(&delta),
        vec![
            RenderOp::Paint { cell: at(5, 10), color: Color::Blue },
            RenderOp::Paint { cell: at(6, 10), color: Color::Red },
            RenderOp::Clear { cell: at(3, 10) },
        ]
    );
}

#[test]
fn render_of_growth_paints_the_new_food() {
    let delta = Delta {
        old_head: at(5, 10),
        new_head: at(6, 10),
        vacated_tail: None,
        new_food: Some(at(22, 10)),
    };
    assert_eq!(
        render(&delta),
        vec![
            RenderOp::Paint { cell: at(5, 10), color: Color::Blue },
            RenderOp::Paint { cell: at(6, 10), color: Color::Red },
            RenderOp::Paint { cell: at(22, 10), color: Color::Green },
        ]
    );
}

#[test]
fn render_of_growth_without_room_for_food_paints_two_cells() {
    let delta =
        Delta { old_head: at(5, 10), new_head: at(6, 10), vacated_tail: None, new_food: None };
    assert_eq!(
        render(&delta),
        vec![
            RenderOp::Paint { cell: at(5, 10), color: Color::Blue },
            RenderOp::Paint { cell: at(6, 10), color: Color::Red },
        ]
    );
}

#[test]
fn render_of_a_single_cell_move_clears_the_trail_last() {
    // The former head is also the tail: it turns blue, then blank.
    let delta = Delta {
        old_head: at(20, 10),
        new_head: at(21, 10),
        vacated_tail: Some(at(20, 10)),
        new_food: None,
    };
    let ops = render(&delta);
    assert_eq!(ops.len(), 3);
    assert_eq!(ops[0], RenderOp::Paint { cell: at(20, 10), color: Color::Blue });
    assert_eq!(ops[2], RenderOp::Clear { cell: at(20, 10) });
}

#[test]
fn render_never_takes_more_than_four_operations() {
    let delta = Delta {
        old_head: at(1, 1),
        new_head: at(2, 1),
        vacated_tail: Some(at(9, 9)),
        new_food: Some(at(12, 12)),
    };
    assert_eq!(render(&delta).len(), 4);
}

#[test]
fn render_start_paints_head_then_food() {
    assert_eq!(
        render_start(at(20, 10), Some(at(12, 10))),
        vec![
            RenderOp::Paint { cell: at(20, 10), color: Color::Red },
            RenderOp::Paint { cell: at(12, 10), color: Color::Green },
        ]
    );
    assert_eq!(
        render_start(at(10, 10), None),
        vec![RenderOp::Paint { cell: at(10, 10), color: Color::Red }]
    );
}

#[test]
fn initial_render_draws_the_game_as_it_stands() {
    let cells = vec![at(5, 10), at(4, 10)];
    let game = Game::from_parts(at(40, 20), &cells, Heading::Right, Some(at(30, 10))).unwrap();
    assert_eq!(
        game.initial_render(),
        vec![
            RenderOp::Paint { cell: at(5, 10), color: Color::Red },
            RenderOp::Paint { cell: at(30, 10), color: Color::Green },
        ]
    );
    let game = Game::new(at(40, 20)).unwrap();
    let food = game.food().unwrap();
    assert_eq!(
        game.initial_render(),
        vec![
            RenderOp::Paint { cell: at(20, 10), color: Color::Red },
            RenderOp::Paint { cell: food, color: Color::Green },
        ]
    );
}
