use snake::food::{
    count_free_cells, free_cell_at, generate_food_pos, holds_margin, keeps_margin, MARGIN,
};
use snake::grid::Coordinate;
use snake::snake::Snake;

fn at(col: u16, row: u16) -> Coordinate {
    Coordinate { col, row }
}

/// A snake that covers row 10 from column 10 to column 30 but for `gaps`.
fn row_ten_without(gaps: &[u16]) -> Snake {
    let mut cells: Vec<Coordinate> = Vec::new();
    for col in 10u16..=30u16 {
        if !gaps.contains(&col) {
            cells.push(at(col, 10));
        }
    }
    Snake::from_cells(&cells).unwrap()
}

#[test]
fn margin_is_ten() {
    assert_eq!(MARGIN, 10);
}

#[test]
fn holds_margin_from_twenty_by_twenty() {
    assert!(holds_margin(at(20, 20)));
    assert!(holds_margin(at(40, 20)));
    assert!(holds_margin(at(80, 24)));
    assert!(holds_margin(at(u16::MAX, u16::MAX)));
    assert!(!holds_margin(at(19, 20)));
    assert!(!holds_margin(at(20, 19)));
    assert!(!holds_margin(at(0, 0)));
    assert!(!holds_margin(at(5, 100)));
}

#[test]
fn keeps_margin_is_inclusive_at_both_ends() {
    let bounds = at(40, 20);
    assert!(keeps_margin(bounds, at(10, 10)));
    assert!(keeps_margin(bounds, at(30, 10)));
    assert!(!keeps_margin(bounds, at(9, 10)));
    assert!(!keeps_margin(bounds, at(31, 10)));
    assert!(!keeps_margin(bounds, at(10, 9)));
    assert!(!keeps_margin(bounds, at(10, 11)));
    let bounds = at(80, 24);
    assert!(keeps_margin(bounds, at(70, 14)));
    assert!(!keeps_margin(bounds, at(71, 14)));
    assert!(!keeps_margin(bounds, at(70, 15)));
    assert!(!keeps_margin(at(15, 15), at(10, 10)));
}

#[test]
fn count_free_cells_counts_the_range_less_the_snake() {
    let bounds = at(40, 20);
    assert_eq!(count_free_cells(bounds, &Snake::new(at(20, 10))), 20);
    assert_eq!(count_free_cells(bounds, &Snake::new(at(5, 5))), 21);
    let bounds = at(80, 24);
    assert_eq!(count_free_cells(bounds, &Snake::new(at(40, 12))), 61 * 5 - 1);
    let bounds = at(20, 20);
    assert_eq!(count_free_cells(bounds, &Snake::new(at(10, 10))), 0);
    assert_eq!(count_free_cells(bounds, &Snake::new(at(11, 10))), 1);
}

#[test]
fn free_cell_at_counts_row_by_row() {
    let bounds = at(80, 24);
    let snake = Snake::new(at(40, 12));
    assert_eq!(free_cell_at(bounds, &snake, 0), at(10, 10));
    assert_eq!(free_cell_at(bounds, &snake, 60), at(70, 10));
    assert_eq!(free_cell_at(bounds, &snake, 61), at(10, 11));
    // The snake holds (40, 12), the cell at index 2 * 61 + 30 of the range.
    assert_eq!(free_cell_at(bounds, &snake, 2 * 61 + 29), at(39, 12));
    assert_eq!(free_cell_at(bounds, &snake, 2 * 61 + 30), at(41, 12));
    assert_eq!(free_cell_at(bounds, &snake, 61 * 5 - 2), at(70, 14));
}

#[test]
fn free_cell_at_skips_the_snake() {
    let bounds = at(40, 20);
    let snake = Snake::new(at(20, 10));
    assert_eq!(free_cell_at(bounds, &snake, 9), at(19, 10));
    assert_eq!(free_cell_at(bounds, &snake, 10), at(21, 10));
    assert_eq!(free_cell_at(bounds, &snake, 19), at(30, 10));
    let snake = row_ten_without(&[12, 17, 30]);
    assert_eq!(count_free_cells(bounds, &snake), 3);
    assert_eq!(free_cell_at(bounds, &snake, 0), at(12, 10));
    assert_eq!(free_cell_at(bounds, &snake, 1), at(17, 10));
    assert_eq!(free_cell_at(bounds, &snake, 2), at(30, 10));
}

#[test]
fn generated_food_keeps_the_margin_and_avoids_the_snake() {
    let bounds = at(40, 20);
    let snake = Snake::new(at(20, 10));
    for _ in 0..500 {
        let food = generate_food_pos(bounds, &snake).unwrap();
        assert!(keeps_margin(bounds, food));
        assert!(!snake.contains(food));
        assert_eq!(food.row, 10);
        assert!(10 <= food.col && food.col <= 30 && food.col != 20);
    }
}

#[test]
fn generated_food_reaches_every_free_cell() {
    let bounds = at(24, 22);
    let snake = Snake::new(at(12, 11));
    // The range is columns 10..=14 by rows 10..=12; the snake holds one cell.
    let mut seen: Vec<Coordinate> = Vec::new();
    for _ in 0..5000 {
        let food = generate_food_pos(bounds, &snake).unwrap();
        assert!(keeps_margin(bounds, food));
        assert_ne!(food, at(12, 11));
        if !seen.contains(&food) {
            seen.push(food);
        }
    }
    assert_eq!(seen.len(), 14);
}

#[test]
fn generated_food_is_the_only_free_cell() {
    let bounds = at(40, 20);
    let snake = row_ten_without(&[17]);
    for _ in 0..50 {
        assert_eq!(generate_food_pos(bounds, &snake), Some(at(17, 10)));
    }
    let snake = row_ten_without(&[30]);
    for _ in 0..50 {
        assert_eq!(generate_food_pos(bounds, &snake), Some(at(30, 10)));
    }
}

#[test]
fn no_food_where_the_snake_covers_the_range() {
    let bounds = at(40, 20);
    let snake = row_ten_without(&[]);
    assert_eq!(count_free_cells(bounds, &snake), 0);
    assert_eq!(generate_food_pos(bounds, &snake), None);
    assert_eq!(generate_food_pos(at(20, 20), &Snake::new(at(10, 10))), None);
}

#[test]
fn food_on_the_smallest_grid_is_its_one_cell() {
    let snake = Snake::new(at(3, 3));
    assert_eq!(generate_food_pos(at(20, 20), &snake), Some(at(10, 10)));
}

#[test]
fn no_food_on_a_grid_that_is_too_small() {
    let snake = Snake::new(at(3, 3));
    assert_eq!(count_free_cells(at(19, 40), &snake), 0);
    assert_eq!(count_free_cells(at(40, 19), &snake), 0);
    assert_eq!(count_free_cells(at(0, 0), &snake), 0);
    assert_eq!(generate_food_pos(at(19, 40), &snake), None);
    assert_eq!(generate_food_pos(at(40, 19), &snake), None);
    assert_eq!(generate_food_pos(at(5, 5), &snake), None);
}

#[test]
fn count_free_cells_on_the_largest_row() {
    // One row of 65516 cells keeps the margin; the snake holds two of them.
    let bounds = at(u16::MAX, 20);
    let snake = Snake::from_cells(&vec![at(10, 10), at(65525, 10)]).unwrap();
    assert_eq!(count_free_cells(bounds, &snake), 65514);
    assert_eq!(free_cell_at(bounds, &snake, 0), at(11, 10));
    assert_eq!(free_cell_at(bounds, &snake, 65513), at(65524, 10));
}
