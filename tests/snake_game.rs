use rand::Rng;
use snake_game::food::{first_open_cell, generate_food, is_open_cell, MAX_FOOD_DRAWS};
use snake_game::game::{poll_timeout_ms, Game, Glyph, Key, Outcome};
use snake_game::grid::{is_wall, next_cell, wall_cells, Cell, Direction, HEIGHT, WIDTH};
use snake_game::snake::Snake;

fn snake_of(body: Vec<Cell>, direction: Direction) -> Snake {
    let grow_space = *body.last().unwrap();
    Snake { body, grow_space, direction }
}

fn adjacent(a: Cell, b: Cell) -> bool {
    let dx = (a.0 as i32 - b.0 as i32).abs();
    let dy = (a.1 as i32 - b.1 as i32).abs();
    dx + dy == 1
}

fn interior_cells() -> Vec<Cell> {
    let mut cells = Vec::new();
    for y in 1..HEIGHT - 1 {
        for x in 1..WIDTH - 1 {
            cells.push((x, y));
        }
    }
    cells
}

#[test]
fn new_snake_is_one_cell_at_centre() {
    let s = Snake::new();
    assert_eq!(s.body, vec![(20, 10)]);
    assert_eq!(s.grow_space, (21, 11));
    assert_eq!(s.direction, Direction::Right);
    assert!(!s.check_collision());
}

#[test]
fn move_forward_each_direction() {
    let cases = [
        (Direction::Up, (5, 4)),
        (Direction::Down, (5, 6)),
        (Direction::Left, (4, 5)),
        (Direction::Right, (6, 5)),
    ];
    for (d, head) in cases {
        let mut s = snake_of(vec![(5, 5), (5, 6), (6, 6)], d);
        if d == Direction::Down {
            s = snake_of(vec![(5, 5), (4, 5), (4, 6)], d);
        }
        let tail = *s.body.last().unwrap();
        let before = s.body.clone();
        s.move_forward();
        assert_eq!(s.body.len(), 3);
        assert_eq!(s.body[0], head);
        assert_eq!(&s.body[1..], &before[..2]);
        assert_eq!(s.grow_space, tail);
        assert_eq!(s.direction, d);
    }
}

#[test]
fn move_forward_keeps_chain() {
    let mut s = snake_of(vec![(10, 10), (9, 10), (9, 11), (10, 11), (11, 11)], Direction::Up);
    for d in [Direction::Up, Direction::Right, Direction::Right, Direction::Down, Direction::Left] {
        s.set_direction(d);
        s.move_forward();
        assert_eq!(s.body.len(), 5);
        for w in s.body.windows(2) {
            assert!(adjacent(w[0], w[1]));
        }
    }
}

#[test]
fn move_forward_saturates_at_zero() {
    let mut s = snake_of(vec![(0, 5)], Direction::Left);
    s.move_forward();
    assert_eq!(s.body, vec![(0, 5)]);
    assert!(s.check_collision());
    let mut s = snake_of(vec![(7, 0)], Direction::Up);
    s.move_forward();
    assert_eq!(s.body, vec![(7, 0)]);
}

#[test]
fn next_cell_saturates_at_max() {
    assert_eq!(next_cell((u16::MAX, 3), Direction::Right), (u16::MAX, 3));
    assert_eq!(next_cell((3, u16::MAX), Direction::Down), (3, u16::MAX));
    assert_eq!(next_cell((3, 3), Direction::Down), (3, 4));
}

#[test]
fn grow_after_move_appends_vacated_cell() {
    let mut s = snake_of(vec![(10, 10), (9, 10)], Direction::Right);
    s.move_forward();
    assert_eq!(s.grow_space, (9, 10));
    s.grow();
    assert_eq!(s.body, vec![(11, 10), (10, 10), (9, 10)]);
    assert_eq!(*s.body.last().unwrap(), (9, 10));
}

#[test]
fn grow_on_single_cell_snake() {
    let mut s = Snake::new();
    s.move_forward();
    s.grow();
    assert_eq!(s.body, vec![(21, 10), (20, 10)]);
}

#[test]
fn collision_with_each_wall() {
    for head in [(0, 5), (WIDTH - 1, 5), (5, 0), (5, HEIGHT - 1), (WIDTH + 3, 5), (5, HEIGHT + 1)] {
        assert!(snake_of(vec![head], Direction::Right).check_collision());
        assert!(is_wall(head));
    }
    assert!(!snake_of(vec![(1, 1)], Direction::Right).check_collision());
    assert!(!snake_of(vec![(WIDTH - 2, HEIGHT - 2)], Direction::Right).check_collision());
    assert!(!is_wall((1, 1)));
}

#[test]
fn collision_with_body() {
    let s = snake_of(vec![(5, 5), (6, 5), (6, 6), (5, 6), (5, 5)], Direction::Up);
    assert!(s.check_collision());
    let s = snake_of(vec![(5, 5), (6, 5), (6, 6), (5, 6)], Direction::Up);
    assert!(!s.check_collision());
}

#[test]
fn reversing_runs_into_the_body() {
    let mut s = snake_of(vec![(10, 10), (9, 10), (8, 10)], Direction::Right);
    s.set_direction(Direction::Left);
    s.move_forward();
    assert_eq!(s.body, vec![(9, 10), (10, 10), (9, 10)]);
    assert!(s.check_collision());
}

#[test]
fn open_cell_checks() {
    let body = vec![(3, 3), (4, 3)];
    assert!(is_open_cell(&body, (5, 3)));
    assert!(!is_open_cell(&body, (4, 3)));
    assert!(!is_open_cell(&body, (0, 3)));
    assert!(!is_open_cell(&body, (3, HEIGHT - 1)));
}

#[test]
fn first_open_cell_in_row_order() {
    assert_eq!(first_open_cell(&vec![(20, 10)]), Some((1, 1)));
    assert_eq!(first_open_cell(&vec![(1, 1), (2, 1)]), Some((3, 1)));
    let all = interior_cells();
    assert_eq!(first_open_cell(&all), None);
    let mut all_but_one = all.clone();
    all_but_one.retain(|&c| c != (17, 9));
    assert_eq!(first_open_cell(&all_but_one), Some((17, 9)));
}

#[test]
fn generated_food_is_free_and_inside() {
    let mut rng = rand::thread_rng();
    let interior = interior_cells();
    for _ in 0..1000 {
        let n = rng.gen_range(1..interior.len() / 2);
        let mut body = Vec::new();
        while body.len() < n {
            let c = interior[rng.gen_range(0..interior.len())];
            if !body.contains(&c) {
                body.push(c);
            }
        }
        let s = snake_of(body, Direction::Right);
        let food = generate_food(&s).unwrap();
        assert!(food.0 >= 1 && food.0 < WIDTH - 1 && food.1 >= 1 && food.1 < HEIGHT - 1);
        assert!(!s.body.contains(&food));
    }
}

#[test]
fn generated_food_on_nearly_full_grid() {
    assert!(MAX_FOOD_DRAWS > 0);
    let mut body = interior_cells();
    body.retain(|&c| c != (30, 2));
    let s = snake_of(body, Direction::Right);
    assert_eq!(generate_food(&s), Some((30, 2)));
    let s = snake_of(interior_cells(), Direction::Right);
    assert_eq!(generate_food(&s), None);
}

#[test]
fn poll_timeout_shrinks_with_length() {
    assert_eq!(poll_timeout_ms(0), 200);
    assert_eq!(poll_timeout_ms(1), 199);
    assert_eq!(poll_timeout_ms(150), 50);
    assert_eq!(poll_timeout_ms(198), 2);
    assert_eq!(poll_timeout_ms(199), 1);
    assert_eq!(poll_timeout_ms(200), 1);
    assert_eq!(poll_timeout_ms(5000), 1);
}

#[test]
fn wall_ring_cells() {
    let walls = wall_cells();
    assert_eq!(walls.len(), 2 * WIDTH as usize + 2 * HEIGHT as usize - 4);
    assert!(walls.contains(&(0, 0)));
    assert!(walls.contains(&(WIDTH - 1, HEIGHT - 1)));
    assert!(walls.contains(&(13, HEIGHT - 1)));
    assert!(!walls.contains(&(1, 1)));
    assert!(walls.iter().all(|&c| is_wall(c)));
}

#[test]
fn new_game_starts_clean() {
    let g = Game::new();
    assert_eq!(g.score, 0);
    assert_eq!(g.snake.body, vec![(20, 10)]);
    let food = g.food.unwrap();
    assert_ne!(food, (20, 10));
    assert!(!is_wall(food));
}

#[test]
fn tick_eats_food() {
    let mut g = Game { snake: snake_of(vec![(20, 10)], Direction::Right), food: Some((21, 10)), score: 0 };
    assert_eq!(g.tick(None), Outcome::Playing);
    assert_eq!(g.snake.body[0], (21, 10));
    assert_eq!(g.snake.body, vec![(21, 10), (20, 10)]);
    assert_eq!(g.score, 1);
    let food = g.food.unwrap();
    assert!(!g.snake.body.contains(&food));
    assert!(!is_wall(food));
}

#[test]
fn tick_into_right_wall() {
    let mut g = Game { snake: snake_of(vec![(WIDTH - 2, 10)], Direction::Right), food: Some((5, 5)), score: 3 };
    assert_eq!(g.tick(None), Outcome::Crashed);
    assert_eq!(g.snake.body, vec![(WIDTH - 1, 10)]);
    assert_eq!(g.score, 3);
    assert_eq!(g.food, Some((5, 5)));
}

#[test]
fn tick_quit_before_moving() {
    let mut g = Game::new();
    let food = g.food;
    assert_eq!(g.tick(Some(Key::Quit)), Outcome::Quit);
    assert_eq!(g.score, 0);
    assert_eq!(g.snake.body, vec![(20, 10)]);
    assert_eq!(g.food, food);
}

#[test]
fn tick_applies_arrow_keys() {
    let mut g = Game { snake: snake_of(vec![(10, 10)], Direction::Right), food: Some((1, 1)), score: 0 };
    assert_eq!(g.tick(Some(Key::Up)), Outcome::Playing);
    assert_eq!(g.snake.body, vec![(10, 9)]);
    assert_eq!(g.tick(Some(Key::Left)), Outcome::Playing);
    assert_eq!(g.snake.body, vec![(9, 9)]);
    assert_eq!(g.tick(Some(Key::Other)), Outcome::Playing);
    assert_eq!(g.snake.body, vec![(8, 9)]);
    assert_eq!(g.tick(Some(Key::Down)), Outcome::Playing);
    assert_eq!(g.snake.body, vec![(8, 10)]);
    assert_eq!(g.tick(Some(Key::Right)), Outcome::Playing);
    assert_eq!(g.snake.body, vec![(9, 10)]);
    assert_eq!(g.snake.direction, Direction::Right);
    assert_eq!(g.score, 0);
}

#[test]
fn score_counts_each_meal() {
    let mut g = Game { snake: snake_of(vec![(5, 10)], Direction::Right), food: Some((6, 10)), score: 0 };
    for meal in 1..=6u64 {
        let len = g.snake.body.len();
        assert_eq!(g.tick(None), Outcome::Playing);
        assert_eq!(g.score, meal);
        assert_eq!(g.snake.body.len(), len + 1);
        g.food = Some((g.snake.body[0].0 + 1, 10));
    }
    g.food = Some((1, 1));
    assert_eq!(g.tick(None), Outcome::Playing);
    assert_eq!(g.score, 6);
    assert_eq!(g.snake.body.len(), 7);
}

#[test]
fn frame_lists_vacated_food_and_body() {
    let g = Game {
        snake: Snake { body: vec![(4, 4), (3, 4)], grow_space: (2, 4), direction: Direction::Right },
        food: Some((8, 8)),
        score: 0,
    };
    assert_eq!(
        g.frame(),
        vec![((2, 4), Glyph::Blank), ((8, 8), Glyph::Food), ((4, 4), Glyph::Body), ((3, 4), Glyph::Body)]
    );
    let g = Game { food: None, ..g };
    assert_eq!(g.frame().len(), 3);
}
