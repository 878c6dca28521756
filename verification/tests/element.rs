use powder::atom::Atom;
use powder::color::Color;
use powder::coordinate::SandboxCoordinate;
use powder::element::{
    heads_or_tails, heads_or_zip, neighbour_offset, neighbourhood_full, Element, ABOVE, ABOVE_LEFT,
    ABOVE_RIGHT, BELOW, BELOW_LEFT, BELOW_RIGHT, LEFT, RIGHT,
};

/// A neighbourhood in which exactly the given cells are blocked.
fn blocked(cells: &[usize]) -> Vec<bool> {
    let mut neighbourhood = vec![false; 8];
    for cell in cells {
        neighbourhood[*cell] = true;
    }
    neighbourhood
}

#[test]
fn neighbourhood_runs_row_by_row() {
    assert_eq!(
        [ABOVE_LEFT, ABOVE, ABOVE_RIGHT, LEFT, RIGHT, BELOW_LEFT, BELOW, BELOW_RIGHT],
        [0, 1, 2, 3, 4, 5, 6, 7]
    );
    assert_eq!(neighbour_offset(ABOVE_LEFT), (-1, -1));
    assert_eq!(neighbour_offset(ABOVE), (0, -1));
    assert_eq!(neighbour_offset(ABOVE_RIGHT), (1, -1));
    assert_eq!(neighbour_offset(LEFT), (-1, 0));
    assert_eq!(neighbour_offset(RIGHT), (1, 0));
    assert_eq!(neighbour_offset(BELOW_LEFT), (-1, 1));
    assert_eq!(neighbour_offset(BELOW), (0, 1));
    assert_eq!(neighbour_offset(BELOW_RIGHT), (1, 1));
}

#[test]
fn coin_gives_a_step() {
    assert_eq!(heads_or_tails(true), 1);
    assert_eq!(heads_or_tails(false), -1);
    assert_eq!(heads_or_zip(true), 1);
    assert_eq!(heads_or_zip(false), 0);
}

#[test]
fn elements_have_their_colours() {
    assert_eq!(Element::Sand.color(), Color { r: 255, g: 255, b: 255, a: 255 });
    assert_eq!(Element::Water.color(), Color { r: 0, g: 0, b: 255, a: 255 });
    let atom = Atom::new(SandboxCoordinate::new(1, 2), Element::Water);
    assert_eq!(atom.color(), Color { r: 0, g: 0, b: 255, a: 255 });
}

#[test]
fn both_elements_fall_when_the_cell_below_is_free() {
    for element in [Element::Sand, Element::Water] {
        for heads in [true, false] {
            assert_eq!(element.calculate_move_with(&blocked(&[]), heads), (0, 1));
            assert_eq!(
                element.calculate_move_with(
                    &blocked(&[ABOVE_LEFT, ABOVE, ABOVE_RIGHT, LEFT, RIGHT, BELOW_LEFT, BELOW_RIGHT]),
                    heads
                ),
                (0, 1)
            );
        }
        assert!(!element.uses_coin(&blocked(&[])));
        assert_eq!(element.calculate_move(blocked(&[LEFT, RIGHT])), (0, 1));
    }
}

#[test]
fn both_elements_slide_to_the_one_free_side() {
    for element in [Element::Sand, Element::Water] {
        for heads in [true, false] {
            assert_eq!(element.calculate_move_with(&blocked(&[BELOW, BELOW_RIGHT]), heads), (-1, 1));
            assert_eq!(element.calculate_move_with(&blocked(&[BELOW, BELOW_LEFT]), heads), (1, 1));
        }
        assert!(!element.uses_coin(&blocked(&[BELOW, BELOW_RIGHT])));
        assert!(!element.uses_coin(&blocked(&[BELOW, BELOW_LEFT])));
        assert_eq!(element.calculate_move(blocked(&[BELOW, BELOW_RIGHT])), (-1, 1));
        assert_eq!(element.calculate_move(blocked(&[BELOW, BELOW_LEFT])), (1, 1));
    }
}

#[test]
fn both_elements_slide_down_by_the_coin_when_both_sides_are_free() {
    for element in [Element::Sand, Element::Water] {
        assert_eq!(element.calculate_move_with(&blocked(&[BELOW]), true), (1, 1));
        assert_eq!(element.calculate_move_with(&blocked(&[BELOW]), false), (-1, 1));
        assert_eq!(element.calculate_move_with(&blocked(&[BELOW, LEFT, RIGHT]), true), (1, 1));
        assert!(element.uses_coin(&blocked(&[BELOW])));
        for _ in 0..50 {
            let delta = element.calculate_move(blocked(&[BELOW]));
            assert!(delta == (1, 1) || delta == (-1, 1));
        }
    }
}

#[test]
fn sand_rests_when_the_three_cells_below_are_taken() {
    let support = [BELOW_LEFT, BELOW, BELOW_RIGHT];
    for heads in [true, false] {
        assert_eq!(Element::Sand.calculate_move_with(&blocked(&support), heads), (0, 0));
        assert_eq!(
            Element::Sand.calculate_move_with(&blocked(&[LEFT, BELOW_LEFT, BELOW, BELOW_RIGHT]), heads),
            (0, 0)
        );
        assert_eq!(Element::Sand.calculate_move_with(&vec![true; 8], heads), (0, 0));
    }
    assert!(!Element::Sand.uses_coin(&blocked(&support)));
    assert_eq!(Element::Sand.calculate_move(blocked(&support)), (0, 0));
}

#[test]
fn water_flows_right_if_the_coin_allows() {
    let neighbourhood = blocked(&[LEFT, BELOW_LEFT, BELOW, BELOW_RIGHT]);
    assert_eq!(Element::Water.calculate_move_with(&neighbourhood, true), (1, 0));
    assert_eq!(Element::Water.calculate_move_with(&neighbourhood, false), (0, 0));
    assert!(Element::Water.uses_coin(&neighbourhood));
    for _ in 0..50 {
        let delta = Element::Water.calculate_move(neighbourhood.clone());
        assert!(delta == (1, 0) || delta == (0, 0));
    }
}

#[test]
fn water_flows_left_if_the_coin_allows() {
    let neighbourhood = blocked(&[RIGHT, BELOW_LEFT, BELOW, BELOW_RIGHT]);
    assert_eq!(Element::Water.calculate_move_with(&neighbourhood, true), (-1, 0));
    assert_eq!(Element::Water.calculate_move_with(&neighbourhood, false), (0, 0));
    assert!(Element::Water.uses_coin(&neighbourhood));
    for _ in 0..50 {
        let delta = Element::Water.calculate_move(neighbourhood.clone());
        assert!(delta == (-1, 0) || delta == (0, 0));
    }
}

#[test]
fn water_flows_to_a_side_by_the_coin_when_both_are_free() {
    let neighbourhood = blocked(&[BELOW_LEFT, BELOW, BELOW_RIGHT]);
    assert_eq!(Element::Water.calculate_move_with(&neighbourhood, true), (1, 0));
    assert_eq!(Element::Water.calculate_move_with(&neighbourhood, false), (-1, 0));
    assert!(Element::Water.uses_coin(&neighbourhood));
    let mut left = 0;
    let mut right = 0;
    for _ in 0..200 {
        match Element::Water.calculate_move(neighbourhood.clone()) {
            (-1, 0) => left += 1,
            (1, 0) => right += 1,
            other => panic!("water moved by {:?}", other),
        }
    }
    assert!(left > 0);
    assert!(right > 0);
}

#[test]
fn water_rests_when_boxed_in() {
    let neighbourhood = blocked(&[LEFT, RIGHT, BELOW_LEFT, BELOW, BELOW_RIGHT]);
    for heads in [true, false] {
        assert_eq!(Element::Water.calculate_move_with(&neighbourhood, heads), (0, 0));
        assert_eq!(Element::Water.calculate_move_with(&vec![true; 8], heads), (0, 0));
    }
    assert!(!Element::Water.uses_coin(&neighbourhood));
    assert_eq!(Element::Water.calculate_move(neighbourhood), (0, 0));
}

#[test]
fn every_move_is_one_step_into_a_free_cell() {
    for pattern in 0..256u32 {
        let neighbourhood: Vec<bool> = (0..8).map(|k| pattern & (1 << k) != 0).collect();
        for element in [Element::Sand, Element::Water] {
            let mut answers = vec![];
            for heads in [true, false] {
                let (dx, dy) = element.calculate_move_with(&neighbourhood, heads);
                assert!((-1..=1).contains(&dx));
                assert!((0..=1).contains(&dy));
                if (dx, dy) != (0, 0) {
                    let cell = (0..8).find(|k| neighbour_offset(*k) == (dx, dy)).unwrap();
                    assert!(!neighbourhood[cell]);
                }
                answers.push((dx, dy));
            }
            assert_eq!(element.uses_coin(&neighbourhood), answers[0] != answers[1]);
            assert!(answers.contains(&element.calculate_move(neighbourhood.clone())));
        }
    }
}

#[test]
fn full_neighbourhood_is_recognised() {
    assert!(neighbourhood_full(&vec![true; 8]));
    assert!(!neighbourhood_full(&vec![false; 8]));
    for cell in 0..8 {
        let mut neighbourhood = vec![true; 8];
        neighbourhood[cell] = false;
        assert!(!neighbourhood_full(&neighbourhood));
    }
}

#[test]
fn new_atom_is_settled() {
    let atom = Atom::new(SandboxCoordinate::new(4, 7), Element::Water);
    assert_eq!(atom.element, Element::Water);
    assert_eq!(atom.coord, SandboxCoordinate { x: 4, y: 7 });
    assert_eq!(atom.next_coord, SandboxCoordinate { x: 4, y: 7 });
}

#[test]
fn atom_proposes_moves_and_resets() {
    let mut atom = Atom::new(SandboxCoordinate::new(4, 7), Element::Sand);
    atom.set_next(blocked(&[BELOW, BELOW_LEFT]));
    assert_eq!(atom.coord, SandboxCoordinate { x: 4, y: 7 });
    assert_eq!(atom.next_coord, SandboxCoordinate { x: 5, y: 8 });
    atom.reset_next();
    assert_eq!(atom, Atom::new(SandboxCoordinate::new(4, 7), Element::Sand));
    atom.set_next(blocked(&[]));
    assert_eq!(atom.next_coord, SandboxCoordinate { x: 4, y: 8 });
    atom.update();
    assert_eq!(atom, Atom::new(SandboxCoordinate::new(4, 8), Element::Sand));
}

#[test]
fn atom_on_a_peak_proposes_one_of_two_cells() {
    for _ in 0..50 {
        let mut atom = Atom::new(SandboxCoordinate::new(0, 0), Element::Sand);
        atom.set_next(blocked(&[BELOW]));
        assert_eq!(atom.coord, SandboxCoordinate { x: 0, y: 0 });
        assert_eq!(atom.next_coord.y, 1);
        assert!(atom.next_coord.x == -1 || atom.next_coord.x == 1);
    }
}

#[test]
fn atom_proposes_by_the_given_coin() {
    let mut atom = Atom::new(SandboxCoordinate::new(4, 7), Element::Water);
    atom.set_next_with(&blocked(&[BELOW_LEFT, BELOW, BELOW_RIGHT, LEFT]), true);
    assert_eq!(atom.next_coord, SandboxCoordinate { x: 5, y: 7 });
    atom.set_next_with(&blocked(&[BELOW_LEFT, BELOW, BELOW_RIGHT, LEFT]), false);
    assert_eq!(atom.next_coord, SandboxCoordinate { x: 4, y: 7 });
    atom.set_next_with(&blocked(&[BELOW]), false);
    assert_eq!(atom.next_coord, SandboxCoordinate { x: 3, y: 8 });
    assert_eq!(atom.coord, SandboxCoordinate { x: 4, y: 7 });
    assert_eq!(atom.element, Element::Water);
}
