use world_study::path::{outline_rings, parse_svg_path, ParseError, PathCommand};
use world_study::position::{Position, COORD_LIMIT};

fn abs(parameters: Vec<i64>) -> PathCommand {
    PathCommand::Move { relative: false, parameters }
}

fn rel(parameters: Vec<i64>) -> PathCommand {
    PathCommand::Move { relative: true, parameters }
}

fn pts(raw: &[(i64, i64)]) -> Vec<Position> {
    raw.iter().map(|&(x, y)| Position::new(x, y)).collect()
}

#[test]
fn square_path_closes_at_origin() {
    let commands = vec![
        abs(vec![0, 0]),
        rel(vec![10, 0]),
        rel(vec![0, 10]),
        rel(vec![-10, 0]),
        PathCommand::Close,
    ];
    let rings = parse_svg_path(&commands).unwrap();
    assert_eq!(rings.len(), 1);
    // Closing appends the origin, not the point visited last.
    assert_eq!(rings[0], pts(&[(0, 0), (10, 0), (10, 10), (0, 10), (0, 0)]));
    assert_eq!(rings[0].first(), rings[0].last());
    assert_ne!(rings[0][rings[0].len() - 1], Position::new(0, 10));
}

#[test]
fn triangle_path_gives_four_point_ring() {
    let commands = vec![abs(vec![0, 0]), rel(vec![10, 0]), rel(vec![0, 10]), PathCommand::Close];
    let rings = parse_svg_path(&commands).unwrap();
    assert_eq!(rings, vec![pts(&[(0, 0), (10, 0), (10, 10), (0, 0)])]);
}

#[test]
fn one_move_command_may_hold_many_pairs() {
    let commands = vec![rel(vec![1, 2, 3, 4, 5, 6]), PathCommand::Close];
    let rings = parse_svg_path(&commands).unwrap();
    assert_eq!(rings, vec![pts(&[(1, 2), (4, 6), (9, 12), (1, 2)])]);
}

#[test]
fn absolute_pairs_set_the_pen() {
    let commands = vec![abs(vec![1, 2, 3, 4, 5, 6]), PathCommand::Close];
    let rings = parse_svg_path(&commands).unwrap();
    assert_eq!(rings, vec![pts(&[(1, 2), (3, 4), (5, 6), (1, 2)])]);
}

#[test]
fn number_left_over_is_not_used() {
    let commands = vec![abs(vec![1, 2, 3]), PathCommand::Close];
    let rings = parse_svg_path(&commands).unwrap();
    assert_eq!(rings, vec![pts(&[(1, 2), (1, 2)])]);
}

#[test]
fn next_ring_starts_relative_to_last_origin() {
    let commands = vec![
        abs(vec![10, 10]),
        rel(vec![5, 0]),
        rel(vec![0, 5]),
        PathCommand::Close,
        rel(vec![100, 100]),
        rel(vec![1, 0]),
        rel(vec![0, 1]),
        PathCommand::Close,
    ];
    let rings = parse_svg_path(&commands).unwrap();
    assert_eq!(
        rings,
        vec![
            pts(&[(10, 10), (15, 10), (15, 15), (10, 10)]),
            pts(&[(110, 110), (111, 110), (111, 111), (110, 110)]),
        ]
    );
}

#[test]
fn absolute_move_after_close_sets_the_new_origin() {
    let commands = vec![
        abs(vec![10, 10]),
        rel(vec![5, 0]),
        PathCommand::Close,
        abs(vec![-3, -4]),
        rel(vec![1, 1]),
        PathCommand::Close,
    ];
    let rings = parse_svg_path(&commands).unwrap();
    assert_eq!(
        rings,
        vec![pts(&[(10, 10), (15, 10), (10, 10)]), pts(&[(-3, -4), (-2, -3), (-3, -4)])]
    );
}

#[test]
fn other_commands_are_ignored() {
    let commands = vec![
        PathCommand::Other,
        abs(vec![0, 0]),
        PathCommand::Other,
        rel(vec![2, 0]),
        rel(vec![0, 2]),
        PathCommand::Other,
        PathCommand::Close,
        PathCommand::Other,
    ];
    let rings = parse_svg_path(&commands).unwrap();
    assert_eq!(rings, vec![pts(&[(0, 0), (2, 0), (2, 2), (0, 0)])]);
}

#[test]
fn points_after_the_last_close_belong_to_no_ring() {
    let commands = vec![abs(vec![0, 0]), rel(vec![2, 0]), PathCommand::Close, rel(vec![7, 7])];
    let rings = parse_svg_path(&commands).unwrap();
    assert_eq!(rings, vec![pts(&[(0, 0), (2, 0), (0, 0)])]);
}

#[test]
fn no_command_gives_no_ring() {
    assert_eq!(parse_svg_path(&Vec::new()).unwrap(), Vec::<Vec<Position>>::new());
}

#[test]
fn close_without_points_gives_the_pen_alone() {
    let rings = parse_svg_path(&vec![PathCommand::Close]).unwrap();
    assert_eq!(rings, vec![pts(&[(0, 0)])]);
    let commands = vec![abs(vec![4, 5]), PathCommand::Close, PathCommand::Close];
    let rings = parse_svg_path(&commands).unwrap();
    assert_eq!(rings, vec![pts(&[(4, 5), (4, 5)]), pts(&[(4, 5)])]);
}

#[test]
fn pen_out_of_range_is_an_error() {
    let commands = vec![abs(vec![COORD_LIMIT + 1, 0]), PathCommand::Close];
    assert_eq!(parse_svg_path(&commands), Err(ParseError::OutOfRange));
    let commands = vec![abs(vec![COORD_LIMIT, 0]), rel(vec![1, 0]), PathCommand::Close];
    assert_eq!(parse_svg_path(&commands), Err(ParseError::OutOfRange));
    let commands = vec![abs(vec![0, -COORD_LIMIT]), rel(vec![0, i64::MIN])];
    assert_eq!(parse_svg_path(&commands), Err(ParseError::OutOfRange));
    let commands = vec![abs(vec![0, 0]), rel(vec![i64::MAX, 0])];
    assert_eq!(parse_svg_path(&commands), Err(ParseError::OutOfRange));
}

#[test]
fn pen_at_the_limit_is_accepted() {
    let commands = vec![
        abs(vec![COORD_LIMIT, -COORD_LIMIT]),
        rel(vec![-2 * COORD_LIMIT, 2 * COORD_LIMIT]),
        PathCommand::Close,
    ];
    let rings = parse_svg_path(&commands).unwrap();
    assert_eq!(
        rings,
        vec![pts(&[
            (COORD_LIMIT, -COORD_LIMIT),
            (-COORD_LIMIT, COORD_LIMIT),
            (COORD_LIMIT, -COORD_LIMIT)
        ])]
    );
}

#[test]
fn outline_that_failed_has_no_rings() {
    assert!(outline_rings(&Err(ParseError::Syntax)).is_empty());
    assert!(outline_rings(&Err(ParseError::OutOfRange)).is_empty());
    let beyond = vec![abs(vec![0, 0]), rel(vec![1, 1]), PathCommand::Close, abs(vec![i64::MAX, 0])];
    assert!(outline_rings(&Ok(beyond)).is_empty());
    let fine = vec![abs(vec![0, 0]), rel(vec![1, 1]), PathCommand::Close];
    assert_eq!(outline_rings(&Ok(fine)), vec![pts(&[(0, 0), (1, 1), (0, 0)])]);
}
