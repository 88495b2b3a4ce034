use rubiks_cube::RubiksColor::{BACK, DOWN, FORWARD, LEFT, RIGHT, UP};
use rubiks_cube::TurnDirection::{CLOCKWISE, COUNTERCLOCKWISE};
use rubiks_cube::{Axis, CubeError, RubiksColor, RubiksCube, TurnDirection};

const FACES: [RubiksColor; 6] = [UP, DOWN, LEFT, RIGHT, FORWARD, BACK];

const DIRECTIONS: [TurnDirection; 2] = [CLOCKWISE, COUNTERCLOCKWISE];

/// One face, row after row.
fn face_of(cube: &RubiksCube, face: RubiksColor, size: u8) -> Vec<RubiksColor> {
    let mut cells = Vec::new();
    for y in 0..size {
        for x in 0..size {
            cells.push(cube.get_square(face, x, y).unwrap());
        }
    }
    cells
}

/// How many stickers of each colour the cube shows, in the order of `FACES`.
fn colour_counts(cube: &RubiksCube, size: u8) -> Vec<usize> {
    FACES
        .iter()
        .map(|colour| {
            FACES
                .iter()
                .map(|face| face_of(cube, *face, size).iter().filter(|c| *c == colour).count())
                .sum()
        })
        .collect()
}

/// A cube of edge `size` after a fixed sequence of moves.
fn scrambled(size: u8) -> RubiksCube {
    let last = size - 1;
    let mut cube = RubiksCube::new(size);
    let moves = [
        (RIGHT, 0, CLOCKWISE),
        (UP, 0, CLOCKWISE),
        (FORWARD, last, COUNTERCLOCKWISE),
        (LEFT, 0, CLOCKWISE),
        (DOWN, last / 2, CLOCKWISE),
        (BACK, 0, COUNTERCLOCKWISE),
        (UP, last, CLOCKWISE),
    ];
    for (face, layer, direction) in moves {
        cube = cube.do_move(face, layer, direction).unwrap();
    }
    cube
}

#[test]
fn new_cube_shows_one_colour_per_face() {
    let cube = RubiksCube::new(3);
    for face in FACES {
        assert_eq!(face_of(&cube, face, 3), vec![face; 9]);
    }
}

#[test]
fn new_cube_up_face_has_nine_up_cells() {
    let cube = RubiksCube::new(3);
    let mut cells = 0;
    for x in 0..=255u8 {
        for y in 0..=255u8 {
            if let Some(colour) = cube.get_square(UP, x, y) {
                assert_eq!(colour, UP);
                cells += 1;
            }
        }
    }
    assert_eq!(cells, 9);
}

#[test]
fn new_cube_of_edge_one() {
    let cube = RubiksCube::new(1);
    for face in FACES {
        assert_eq!(cube.get_square(face, 0, 0), Some(face));
        assert_eq!(cube.get_square(face, 1, 0), None);
        assert_eq!(cube.get_square(face, 0, 1), None);
    }
}

#[test]
fn new_cube_of_largest_edge() {
    let cube = RubiksCube::new(255);
    assert_eq!(cube.get_square(BACK, 254, 254), Some(BACK));
    assert_eq!(cube.get_square(LEFT, 0, 254), Some(LEFT));
    assert_eq!(cube.get_square(LEFT, 255, 0), None);
}

#[test]
fn get_square_outside_the_face_is_absent() {
    let cube = RubiksCube::new(3);
    assert_eq!(cube.get_square(UP, 3, 0), None);
    assert_eq!(cube.get_square(UP, 0, 3), None);
    assert_eq!(cube.get_square(UP, 3, 3), None);
    assert_eq!(cube.get_square(FORWARD, 255, 255), None);
    // a column past the edge is absent even where the flat place exists
    assert_eq!(cube.get_square(DOWN, 4, 0), None);
    assert_eq!(cube.get_square(DOWN, 8, 0), None);
    assert_eq!(cube.get_square(DOWN, 2, 2), Some(DOWN));
}

#[test]
fn right_turn_brings_forward_column_up() {
    let cube = RubiksCube::new(3);
    let turned = cube.do_move(RIGHT, 0, CLOCKWISE).unwrap();
    for y in 0..3 {
        assert_eq!(turned.get_square(UP, 2, y), Some(FORWARD));
        assert_eq!(turned.get_square(UP, 0, y), Some(UP));
        assert_eq!(turned.get_square(UP, 1, y), Some(UP));
    }
}

#[test]
fn right_turn_on_solved_cube_all_faces() {
    let turned = RubiksCube::new(3).do_move(RIGHT, 0, CLOCKWISE).unwrap();
    assert_eq!(face_of(&turned, UP, 3), vec![UP, UP, FORWARD, UP, UP, FORWARD, UP, UP, FORWARD]);
    assert_eq!(
        face_of(&turned, FORWARD, 3),
        vec![FORWARD, FORWARD, DOWN, FORWARD, FORWARD, DOWN, FORWARD, FORWARD, DOWN]
    );
    assert_eq!(
        face_of(&turned, DOWN, 3),
        vec![DOWN, DOWN, BACK, DOWN, DOWN, BACK, DOWN, DOWN, BACK]
    );
    assert_eq!(face_of(&turned, BACK, 3), vec![UP, BACK, BACK, UP, BACK, BACK, UP, BACK, BACK]);
    assert_eq!(face_of(&turned, RIGHT, 3), vec![RIGHT; 9]);
    assert_eq!(face_of(&turned, LEFT, 3), vec![LEFT; 9]);
}

#[test]
fn middle_layer_turn_leaves_the_axis_faces() {
    let cube = RubiksCube::new(3);
    let turned = cube.do_move(RIGHT, 1, CLOCKWISE).unwrap();
    assert_eq!(face_of(&turned, RIGHT, 3), vec![RIGHT; 9]);
    assert_eq!(face_of(&turned, LEFT, 3), vec![LEFT; 9]);
    assert_eq!(face_of(&turned, UP, 3), vec![UP, FORWARD, UP, UP, FORWARD, UP, UP, FORWARD, UP]);
    assert_eq!(
        face_of(&turned, FORWARD, 3),
        vec![FORWARD, DOWN, FORWARD, FORWARD, DOWN, FORWARD, FORWARD, DOWN, FORWARD]
    );
    assert_eq!(
        face_of(&turned, DOWN, 3),
        vec![DOWN, BACK, DOWN, DOWN, BACK, DOWN, DOWN, BACK, DOWN]
    );
    assert_eq!(face_of(&turned, BACK, 3), vec![BACK, UP, BACK, BACK, UP, BACK, BACK, UP, BACK]);
}

#[test]
fn middle_layer_turn_leaves_scrambled_axis_faces() {
    let cube = scrambled(3);
    let turned = cube.do_move(RIGHT, 1, CLOCKWISE).unwrap();
    assert_eq!(face_of(&turned, RIGHT, 3), face_of(&cube, RIGHT, 3));
    assert_eq!(face_of(&turned, LEFT, 3), face_of(&cube, LEFT, 3));
    assert_ne!(turned, cube);
}

#[test]
fn layer_past_the_cube_is_invalid() {
    let cube = RubiksCube::new(3);
    assert_eq!(cube.do_move(UP, 3, CLOCKWISE), Err(CubeError::InvalidLayer));
}

#[test]
fn invalid_layer_for_every_face_and_direction() {
    let cube = scrambled(3);
    for face in FACES {
        for direction in DIRECTIONS {
            assert_eq!(cube.do_move(face, 3, direction), Err(CubeError::InvalidLayer));
            assert_eq!(cube.do_move(face, 4, direction), Err(CubeError::InvalidLayer));
            assert_eq!(cube.do_move(face, 255, direction), Err(CubeError::InvalidLayer));
            assert!(cube.do_move(face, 2, direction).is_ok());
        }
    }
}

#[test]
fn invalid_layer_on_edge_one() {
    let cube = RubiksCube::new(1);
    assert_eq!(cube.do_move(LEFT, 1, COUNTERCLOCKWISE), Err(CubeError::InvalidLayer));
    assert!(cube.do_move(LEFT, 0, COUNTERCLOCKWISE).is_ok());
}

#[test]
fn move_leaves_the_given_cube_as_it_was() {
    let cube = scrambled(3);
    let copy = cube.clone();
    let turned = cube.do_move(FORWARD, 0, CLOCKWISE).unwrap();
    assert_eq!(cube, copy);
    assert_ne!(turned, cube);
    let refused = cube.do_move(FORWARD, 9, CLOCKWISE);
    assert!(refused.is_err());
    assert_eq!(cube, copy);
}

#[test]
fn clone_is_equal_and_independent() {
    let cube = scrambled(4);
    let copy = cube.clone();
    assert_eq!(copy, cube);
    for face in FACES {
        assert_eq!(face_of(&copy, face, 4), face_of(&cube, face, 4));
    }
}

#[test]
fn up_turn_passes_rows_forward_left_back_right() {
    // seen from above, clockwise: FORWARD -> LEFT -> BACK -> RIGHT -> FORWARD
    let turned = RubiksCube::new(3).do_move(UP, 0, CLOCKWISE).unwrap();
    for x in 0..3 {
        assert_eq!(turned.get_square(LEFT, x, 0), Some(FORWARD));
        assert_eq!(turned.get_square(BACK, x, 0), Some(LEFT));
        assert_eq!(turned.get_square(RIGHT, x, 0), Some(BACK));
        assert_eq!(turned.get_square(FORWARD, x, 0), Some(RIGHT));
        for y in 1..3 {
            assert_eq!(turned.get_square(LEFT, x, y), Some(LEFT));
            assert_eq!(turned.get_square(FORWARD, x, y), Some(FORWARD));
        }
    }
    assert_eq!(face_of(&turned, UP, 3), vec![UP; 9]);
    assert_eq!(face_of(&turned, DOWN, 3), vec![DOWN; 9]);
}

#[test]
fn forward_turn_passes_strips_up_right_down_left() {
    // seen from the front, clockwise: UP -> RIGHT -> DOWN -> LEFT -> UP
    let turned = RubiksCube::new(3).do_move(FORWARD, 0, CLOCKWISE).unwrap();
    assert_eq!(face_of(&turned, UP, 3), vec![UP, UP, UP, UP, UP, UP, LEFT, LEFT, LEFT]);
    assert_eq!(
        face_of(&turned, RIGHT, 3),
        vec![UP, RIGHT, RIGHT, UP, RIGHT, RIGHT, UP, RIGHT, RIGHT]
    );
    assert_eq!(
        face_of(&turned, DOWN, 3),
        vec![RIGHT, RIGHT, RIGHT, DOWN, DOWN, DOWN, DOWN, DOWN, DOWN]
    );
    assert_eq!(
        face_of(&turned, LEFT, 3),
        vec![LEFT, LEFT, DOWN, LEFT, LEFT, DOWN, LEFT, LEFT, DOWN]
    );
    assert_eq!(face_of(&turned, FORWARD, 3), vec![FORWARD; 9]);
    assert_eq!(face_of(&turned, BACK, 3), vec![BACK; 9]);
}

#[test]
fn forward_last_layer_turn_touches_the_far_lines() {
    // layer 2 counted from FORWARD is the layer of BACK
    let turned = RubiksCube::new(3).do_move(FORWARD, 2, CLOCKWISE).unwrap();
    assert_eq!(face_of(&turned, UP, 3), vec![LEFT, LEFT, LEFT, UP, UP, UP, UP, UP, UP]);
    assert_eq!(
        face_of(&turned, RIGHT, 3),
        vec![RIGHT, RIGHT, UP, RIGHT, RIGHT, UP, RIGHT, RIGHT, UP]
    );
    assert_eq!(
        face_of(&turned, DOWN, 3),
        vec![DOWN, DOWN, DOWN, DOWN, DOWN, DOWN, RIGHT, RIGHT, RIGHT]
    );
    assert_eq!(
        face_of(&turned, LEFT, 3),
        vec![DOWN, LEFT, LEFT, DOWN, LEFT, LEFT, DOWN, LEFT, LEFT]
    );
}

#[test]
fn right_then_up_on_solved_cube() {
    let cube = RubiksCube::new(3)
        .do_move(RIGHT, 0, CLOCKWISE)
        .unwrap()
        .do_move(UP, 0, CLOCKWISE)
        .unwrap();
    // the UP face turned: its right column, taken from FORWARD, is now its bottom row
    assert_eq!(
        face_of(&cube, UP, 3),
        vec![UP, UP, UP, UP, UP, UP, FORWARD, FORWARD, FORWARD]
    );
    assert_eq!(
        face_of(&cube, FORWARD, 3),
        vec![RIGHT, RIGHT, RIGHT, FORWARD, FORWARD, DOWN, FORWARD, FORWARD, DOWN]
    );
    assert_eq!(
        face_of(&cube, LEFT, 3),
        vec![FORWARD, FORWARD, DOWN, LEFT, LEFT, LEFT, LEFT, LEFT, LEFT]
    );
    assert_eq!(face_of(&cube, BACK, 3), vec![LEFT, LEFT, LEFT, UP, BACK, BACK, UP, BACK, BACK]);
    assert_eq!(
        face_of(&cube, RIGHT, 3),
        vec![UP, BACK, BACK, RIGHT, RIGHT, RIGHT, RIGHT, RIGHT, RIGHT]
    );
    assert_eq!(
        face_of(&cube, DOWN, 3),
        vec![DOWN, DOWN, BACK, DOWN, DOWN, BACK, DOWN, DOWN, BACK]
    );
}

#[test]
fn near_face_turns_with_its_own_layer() {
    // mark the UP face by a FORWARD turn, then turn UP itself
    let marked = RubiksCube::new(3).do_move(FORWARD, 0, CLOCKWISE).unwrap();
    let turned = marked.do_move(UP, 0, CLOCKWISE).unwrap();
    // the bottom row of UP goes to its left column
    assert_eq!(face_of(&turned, UP, 3), vec![LEFT, UP, UP, LEFT, UP, UP, LEFT, UP, UP]);
    let back = marked.do_move(UP, 0, COUNTERCLOCKWISE).unwrap();
    assert_eq!(face_of(&back, UP, 3), vec![UP, UP, LEFT, UP, UP, LEFT, UP, UP, LEFT]);
}

#[test]
fn far_face_turns_the_other_way() {
    let marked = RubiksCube::new(3).do_move(FORWARD, 0, CLOCKWISE).unwrap();
    // DOWN now has RIGHT stickers in its top row; layer 2 from UP carries DOWN along
    let turned = marked.do_move(UP, 2, CLOCKWISE).unwrap();
    assert_eq!(
        face_of(&turned, DOWN, 3),
        vec![RIGHT, DOWN, DOWN, RIGHT, DOWN, DOWN, RIGHT, DOWN, DOWN]
    );
    assert_eq!(face_of(&turned, UP, 3), face_of(&marked, UP, 3));
}

#[test]
fn edge_one_cube_turns_its_four_side_stickers() {
    let turned = RubiksCube::new(1).do_move(UP, 0, CLOCKWISE).unwrap();
    assert_eq!(turned.get_square(UP, 0, 0), Some(UP));
    assert_eq!(turned.get_square(DOWN, 0, 0), Some(DOWN));
    assert_eq!(turned.get_square(LEFT, 0, 0), Some(FORWARD));
    assert_eq!(turned.get_square(BACK, 0, 0), Some(LEFT));
    assert_eq!(turned.get_square(RIGHT, 0, 0), Some(BACK));
    assert_eq!(turned.get_square(FORWARD, 0, 0), Some(RIGHT));
}

#[test]
fn move_then_inverse_restores_the_cube() {
    for size in [1u8, 2, 3, 4, 5] {
        let cube = scrambled(size);
        for face in FACES {
            for layer in 0..size {
                for direction in DIRECTIONS {
                    let there = cube.do_move(face, layer, direction).unwrap();
                    let back = there.do_move(face, layer, direction.opposite()).unwrap();
                    assert_eq!(back, cube);
                }
            }
        }
    }
}

#[test]
fn four_equal_moves_restore_the_cube() {
    for size in [1u8, 2, 3, 4] {
        let cube = scrambled(size);
        for face in FACES {
            for layer in 0..size {
                for direction in DIRECTIONS {
                    let mut turned = cube.clone();
                    for _ in 0..4 {
                        turned = turned.do_move(face, layer, direction).unwrap();
                    }
                    assert_eq!(turned, cube);
                }
            }
        }
    }
}

#[test]
fn two_equal_moves_do_not_restore_a_scrambled_cube() {
    let cube = scrambled(3);
    let twice = cube
        .do_move(RIGHT, 0, CLOCKWISE)
        .unwrap()
        .do_move(RIGHT, 0, CLOCKWISE)
        .unwrap();
    assert_ne!(twice, cube);
}

#[test]
fn opposite_face_move_is_the_mirrored_move() {
    for size in [1u8, 2, 3, 4, 5] {
        let cube = scrambled(size);
        for face in FACES {
            for layer in 0..size {
                for direction in DIRECTIONS {
                    let one = cube.do_move(face, layer, direction).unwrap();
                    let other = cube
                        .do_move(face.opposite(), size - 1 - layer, direction.opposite())
                        .unwrap();
                    assert_eq!(one, other);
                }
            }
        }
    }
}

#[test]
fn down_turn_is_up_last_layer_reversed() {
    let cube = RubiksCube::new(3);
    let by_down = cube.do_move(DOWN, 0, CLOCKWISE).unwrap();
    let by_up = cube.do_move(UP, 2, COUNTERCLOCKWISE).unwrap();
    assert_eq!(by_down, by_up);
    // seen from below, clockwise: FORWARD -> RIGHT -> BACK -> LEFT -> FORWARD
    for x in 0..3 {
        assert_eq!(by_down.get_square(RIGHT, x, 2), Some(FORWARD));
        assert_eq!(by_down.get_square(BACK, x, 2), Some(RIGHT));
        assert_eq!(by_down.get_square(LEFT, x, 2), Some(BACK));
        assert_eq!(by_down.get_square(FORWARD, x, 2), Some(LEFT));
    }
}

#[test]
fn moves_keep_every_colour_count() {
    for size in [1u8, 2, 3, 4] {
        let cells = usize::from(size) * usize::from(size);
        let solved = RubiksCube::new(size);
        assert_eq!(colour_counts(&solved, size), vec![cells; 6]);
        let cube = scrambled(size);
        assert_eq!(colour_counts(&cube, size), vec![cells; 6]);
        for face in FACES {
            for layer in 0..size {
                for direction in DIRECTIONS {
                    let turned = cube.do_move(face, layer, direction).unwrap();
                    assert_eq!(colour_counts(&turned, size), vec![cells; 6]);
                }
            }
        }
    }
}

#[test]
fn axis_turns_agree_with_moves() {
    let cube = scrambled(4);
    for layer in 0..4u8 {
        for direction in DIRECTIONS {
            assert_eq!(
                cube.clone().rotate_top(&direction, &layer),
                cube.do_move(UP, layer, direction).unwrap()
            );
            assert_eq!(
                cube.clone().rotate_right(&direction, &layer),
                cube.do_move(RIGHT, layer, direction).unwrap()
            );
            assert_eq!(
                cube.clone().rotate_front(&direction, &layer),
                cube.do_move(FORWARD, layer, direction).unwrap()
            );
            assert_eq!(
                cube.clone().rotate_top(&direction.opposite(), &(3 - layer)),
                cube.do_move(DOWN, layer, direction).unwrap()
            );
        }
    }
}

#[test]
fn rotate_right_counter_clockwise_on_solved_cube() {
    // seen from the right, counter-clockwise: FORWARD -> DOWN -> BACK -> UP -> FORWARD
    let turned = RubiksCube::new(2).rotate_right(&COUNTERCLOCKWISE, &0);
    assert_eq!(face_of(&turned, DOWN, 2), vec![DOWN, FORWARD, DOWN, FORWARD]);
    assert_eq!(face_of(&turned, BACK, 2), vec![DOWN, BACK, DOWN, BACK]);
    assert_eq!(face_of(&turned, UP, 2), vec![UP, BACK, UP, BACK]);
    assert_eq!(face_of(&turned, FORWARD, 2), vec![FORWARD, UP, FORWARD, UP]);
    assert_eq!(face_of(&turned, RIGHT, 2), vec![RIGHT; 4]);
    assert_eq!(face_of(&turned, LEFT, 2), vec![LEFT; 4]);
}

#[test]
fn corner_stickers_travel_together() {
    // On a 2×2×2 cube, follow the corner between UP, FORWARD and RIGHT
    // through a clockwise RIGHT turn: it goes to the corner between UP, BACK
    // and RIGHT, and its three stickers stay on one corner.
    let cube = RubiksCube::new(2).do_move(FORWARD, 0, CLOCKWISE).unwrap();
    let up = cube.get_square(UP, 1, 1).unwrap();
    let forward = cube.get_square(FORWARD, 1, 0).unwrap();
    let right = cube.get_square(RIGHT, 0, 0).unwrap();
    assert_eq!((up, forward, right), (LEFT, FORWARD, UP));
    let turned = cube.do_move(RIGHT, 0, CLOCKWISE).unwrap();
    assert_eq!(turned.get_square(BACK, 0, 0), Some(up));
    assert_eq!(turned.get_square(UP, 1, 0), Some(forward));
    assert_eq!(turned.get_square(RIGHT, 1, 0), Some(right));
}

#[test]
fn large_cube_moves() {
    let size: u8 = 20;
    let cube = RubiksCube::new(size);
    let turned = cube.do_move(RIGHT, 7, CLOCKWISE).unwrap();
    for y in 0..size {
        assert_eq!(turned.get_square(UP, 12, y), Some(FORWARD));
        assert_eq!(turned.get_square(UP, 11, y), Some(UP));
        assert_eq!(turned.get_square(UP, 13, y), Some(UP));
        assert_eq!(turned.get_square(BACK, 7, y), Some(UP));
    }
    let back = turned.do_move(LEFT, 12, CLOCKWISE).unwrap();
    assert_eq!(back, cube);
}

#[test]
fn largest_cube_moves() {
    let cube = RubiksCube::new(255);
    let turned = cube.do_move(FORWARD, 254, CLOCKWISE).unwrap();
    assert_eq!(turned.get_square(UP, 100, 0), Some(LEFT));
    assert_eq!(turned.get_square(UP, 100, 1), Some(UP));
    assert_eq!(turned.do_move(FORWARD, 254, COUNTERCLOCKWISE).unwrap(), cube);
    assert_eq!(cube.do_move(FORWARD, 255, CLOCKWISE), Err(CubeError::InvalidLayer));
}

#[test]
fn face_size_is_the_edge_given() {
    assert_eq!(RubiksCube::new(1).face_size(), 1);
    assert_eq!(RubiksCube::new(3).face_size(), 3);
    assert_eq!(RubiksCube::new(255).face_size(), 255);
    assert_eq!(scrambled(4).face_size(), 4);
}

#[test]
fn turn_about_an_axis_agrees_with_the_named_turns() {
    let cube = scrambled(3);
    for layer in 0..3u8 {
        for direction in DIRECTIONS {
            assert_eq!(
                cube.clone().turn(Axis::Top, direction, layer),
                cube.clone().rotate_top(&direction, &layer)
            );
            assert_eq!(
                cube.clone().turn(Axis::Right, direction, layer),
                cube.clone().rotate_right(&direction, &layer)
            );
            assert_eq!(
                cube.clone().turn(Axis::Front, direction, layer),
                cube.clone().rotate_front(&direction, &layer)
            );
        }
    }
}

#[test]
fn turn_about_the_front_axis_on_solved_cube() {
    let turned = RubiksCube::new(2).turn(Axis::Front, COUNTERCLOCKWISE, 1);
    // layer 1 of a cube of edge 2 is the layer of BACK; seen from the front,
    // counter-clockwise: UP -> LEFT -> DOWN -> RIGHT -> UP
    assert_eq!(face_of(&turned, UP, 2), vec![RIGHT, RIGHT, UP, UP]);
    assert_eq!(face_of(&turned, LEFT, 2), vec![UP, LEFT, UP, LEFT]);
    assert_eq!(face_of(&turned, DOWN, 2), vec![DOWN, DOWN, LEFT, LEFT]);
    assert_eq!(face_of(&turned, RIGHT, 2), vec![RIGHT, DOWN, RIGHT, DOWN]);
    assert_eq!(face_of(&turned, FORWARD, 2), vec![FORWARD; 4]);
    assert_eq!(face_of(&turned, BACK, 2), vec![BACK; 4]);
}
