use tile_agents::select::mouse_selection;
use tile_agents::select::ActiveControl;
use tile_agents::select::CameraFollows;
use tile_agents::select::GUISelect;
use tile_agents::side::Side;
use tile_agents::side::Triside;

#[test]
fn a_selection_holds_each_entity_once() {
    let mut picked = GUISelect::new();
    assert!(picked.entities().is_empty());
    picked.add(7);
    picked.add(3);
    picked.add(7);
    assert_eq!(picked.entities(), vec![3, 7]);
    picked.clear();
    assert!(picked.entities().is_empty());
}

#[test]
fn a_click_selects_all_under_the_pointer() {
    let mut picked = GUISelect::new();
    let mut ac = ActiveControl(None);
    mouse_selection(&vec![(5, false), (2, true)], false, &mut picked, &mut ac);
    assert_eq!(picked.entities(), vec![2, 5]);
    assert_eq!(ac, ActiveControl(None));
}

#[test]
fn a_click_with_control_takes_over_the_last_agent() {
    let mut picked = GUISelect::new();
    let mut ac = ActiveControl(Some(1));
    mouse_selection(&vec![(5, true), (2, true), (8, false)], true, &mut picked, &mut ac);
    assert_eq!(picked.entities(), vec![2, 5, 8]);
    assert_eq!(ac, ActiveControl(Some(2)));
    mouse_selection(&vec![(9, false)], true, &mut picked, &mut ac);
    assert_eq!(ac, ActiveControl(Some(2)));
    mouse_selection(&Vec::new(), true, &mut picked, &mut ac);
    assert_eq!(picked.entities(), vec![2, 5, 8, 9]);
}

#[test]
fn nothing_is_followed_or_controlled_at_first() {
    assert_eq!(ActiveControl::default(), ActiveControl(None));
    assert_eq!(CameraFollows::default(), CameraFollows(None));
}

#[test]
fn sides_have_opposites() {
    assert_eq!(Side::Top.opposite(), Side::Bottom);
    assert_eq!(Side::Bottom.opposite(), Side::Top);
    assert_eq!(Side::Left.opposite(), Side::Right);
    assert_eq!(Side::Right.opposite(), Side::Left);
}

#[test]
fn sides_in_order() {
    assert_eq!(Side::iter(), vec![Side::Top, Side::Bottom, Side::Left, Side::Right]);
    assert_eq!(Triside::iter(), vec![Triside::Down, Triside::Left, Triside::Right]);
}

#[test]
fn sides_by_number() {
    assert_eq!(Side::from_roll(0), Side::Top);
    assert_eq!(Side::from_roll(1), Side::Bottom);
    assert_eq!(Side::from_roll(2), Side::Left);
    assert_eq!(Side::from_roll(3), Side::Right);
    assert_eq!(Triside::from_roll(0), Triside::Down);
    assert_eq!(Triside::from_roll(1), Triside::Left);
    assert_eq!(Triside::from_roll(2), Triside::Right);
}

#[test]
fn shuffled_sides_are_the_same_sides() {
    let shuffled = Side::shuffled();
    assert_eq!(shuffled.len(), 4);
    for side in Side::iter() {
        assert!(shuffled.contains(&side));
    }
    let three = Triside::shuffled();
    assert_eq!(three.len(), 3);
    for side in Triside::iter() {
        assert!(three.contains(&side));
    }
}

#[test]
fn shuffling_changes_the_order_sometimes() {
    let plain = Side::iter();
    let mut moved = false;
    for _ in 0..200 {
        if Side::shuffled() != plain {
            moved = true;
        }
    }
    assert!(moved);
}

#[test]
fn random_sides_cover_every_side() {
    let mut seen = Vec::new();
    let mut seen_three = Vec::new();
    for _ in 0..400 {
        let side = Side::random();
        if !seen.contains(&side) {
            seen.push(side);
        }
        let tri = Triside::random();
        if !seen_three.contains(&tri) {
            seen_three.push(tri);
        }
    }
    assert_eq!(seen.len(), 4);
    assert_eq!(seen_three.len(), 3);
}

#[test]
fn a_random_side_is_one_of_the_four() {
    for _ in 0..100 {
        let side = Side::random();
        assert!(Side::iter().contains(&side));
    }
}

#[test]
fn a_triangle_side_lies_between_two_corners() {
    let corners = [(0.0f32, 1.0f32), (1.0, -1.0), (-1.0, -1.0)];
    assert_eq!(Triside::Right.filter_abc(corners), [(0.0, 1.0), (1.0, -1.0)]);
    assert_eq!(Triside::Down.filter_abc(corners), [(1.0, -1.0), (-1.0, -1.0)]);
    assert_eq!(Triside::Left.filter_abc(corners), [(-1.0, -1.0), (0.0, 1.0)]);
}
