use pane_group::{
    Axis, DividerDrag, Handle, LayoutPass, Limit, Painting, PaneAxisElement, Placement, Rect,
    ResizeCursor, SizeConstraint, Vector2, FLEX_ONE, HANDLE_HITBOX_SIZE,
};

fn area(x: i32, y: i32, width: i32, height: i32) -> Rect {
    Rect::new(Vector2::new(x, y), Vector2::new(width, height))
}

fn constraint(min: (i32, i32), max: (Option<i32>, Option<i32>)) -> SizeConstraint {
    SizeConstraint { min: Vector2::new(min.0, min.1), max: Limit { x: max.0, y: max.1 } }
}

fn fixed(axis: Axis, span: i32, cross_min: i32, cross_max: Option<i32>) -> SizeConstraint {
    SizeConstraint {
        min: Vector2::on_axis(axis, span, cross_min),
        max: Limit::on_axis(axis, Some(span), cross_max),
    }
}

fn run_pass(
    element: &PaneAxisElement,
    outer: &SizeConstraint,
    sizes: &[Vector2],
) -> (Vec<Option<SizeConstraint>>, LayoutPass) {
    assert!(element.is_valid());
    let mut pass = element.begin_layout(outer);
    let mut offers = Vec::new();
    for size in sizes {
        assert!(pass.tracks(element));
        offers.push(element.child_constraint(outer, &pass));
        element.child_laid_out(&mut pass, *size);
    }
    assert!(pass.tracks(element));
    (offers, pass)
}

#[test]
fn element_keeps_what_it_is_made_of() {
    let element = PaneAxisElement::new(Axis::Vertical, 7, vec![FLEX_ONE, 2 * FLEX_ONE]);
    assert_eq!(element.axis, Axis::Vertical);
    assert_eq!(element.basis, 7);
    assert_eq!(element.flexes, vec![FLEX_ONE, 2 * FLEX_ONE]);
}

#[test]
fn element_with_a_negative_weight_is_not_valid() {
    assert!(PaneAxisElement::new(Axis::Horizontal, 0, vec![FLEX_ONE, 0]).is_valid());
    assert!(PaneAxisElement::new(Axis::Horizontal, 0, vec![]).is_valid());
    assert!(!PaneAxisElement::new(Axis::Horizontal, 0, vec![FLEX_ONE, -1]).is_valid());
}

#[test]
fn limits_by_axis() {
    let limit = Limit { x: Some(3), y: None };
    assert_eq!(limit.along(Axis::Horizontal), Some(3));
    assert_eq!(limit.along(Axis::Vertical), None);
    assert_eq!(Limit::on_axis(Axis::Horizontal, Some(1), None), Limit { x: Some(1), y: None });
    assert_eq!(Limit::on_axis(Axis::Vertical, Some(1), None), Limit { x: None, y: Some(1) });
}

#[test]
fn pass_starts_with_all_space_and_all_weight() {
    let element =
        PaneAxisElement::new(Axis::Horizontal, 0, vec![FLEX_ONE, FLEX_ONE, 2 * FLEX_ONE]);
    let pass = element.begin_layout(&constraint((0, 0), (Some(1000), Some(600))));
    assert_eq!(
        pass,
        LayoutPass {
            remaining_space: 1000,
            remaining_flex: 262_144,
            cross_axis_max: 0,
            next: 0
        }
    );
    let upright = PaneAxisElement::new(Axis::Vertical, 0, vec![FLEX_ONE]);
    let pass = upright.begin_layout(&constraint((0, 0), (None, Some(600))));
    assert_eq!(pass.remaining_space, 600);
    assert_eq!(pass.remaining_flex, 65_536);
}

#[test]
fn members_are_offered_their_share_of_what_is_left() {
    let element =
        PaneAxisElement::new(Axis::Horizontal, 0, vec![FLEX_ONE, FLEX_ONE, 2 * FLEX_ONE]);
    let outer = constraint((0, 10), (Some(1000), Some(600)));
    let mut pass = element.begin_layout(&outer);

    assert_eq!(
        element.child_constraint(&outer, &pass),
        Some(fixed(Axis::Horizontal, 250, 10, Some(600)))
    );
    element.child_laid_out(&mut pass, Vector2::new(250, 300));
    assert_eq!(
        pass,
        LayoutPass { remaining_space: 750, remaining_flex: 196_608, cross_axis_max: 300, next: 1 }
    );

    assert_eq!(
        element.child_constraint(&outer, &pass),
        Some(fixed(Axis::Horizontal, 250, 10, Some(600)))
    );
    element.child_laid_out(&mut pass, Vector2::new(300, 200));
    assert_eq!(
        pass,
        LayoutPass { remaining_space: 450, remaining_flex: 131_072, cross_axis_max: 300, next: 2 }
    );

    assert_eq!(
        element.child_constraint(&outer, &pass),
        Some(fixed(Axis::Horizontal, 450, 10, Some(600)))
    );
    element.child_laid_out(&mut pass, Vector2::new(450, 700));
    assert_eq!(
        pass,
        LayoutPass { remaining_space: 0, remaining_flex: 0, cross_axis_max: 700, next: 3 }
    );

    assert_eq!(element.finish_layout(&outer, &pass), (Vector2::new(1000, 600), 0));
}

#[test]
fn offered_constraint_fixes_the_axis_and_passes_the_other_through() {
    let element = PaneAxisElement::new(Axis::Vertical, 0, vec![FLEX_ONE, 3 * FLEX_ONE]);
    let outer = constraint((20, 0), (None, Some(400)));
    let pass = element.begin_layout(&outer);
    assert_eq!(
        element.child_constraint(&outer, &pass),
        Some(SizeConstraint {
            min: Vector2::new(20, 100),
            max: Limit { x: None, y: Some(100) }
        })
    );
}

#[test]
fn shares_round_down_and_the_last_member_takes_the_rest() {
    let element =
        PaneAxisElement::new(Axis::Horizontal, 0, vec![FLEX_ONE, FLEX_ONE, FLEX_ONE]);
    let outer = constraint((0, 0), (Some(100), Some(50)));
    let mut pass = element.begin_layout(&outer);
    let mut spans = Vec::new();
    for _ in 0..3 {
        let offer = element.child_constraint(&outer, &pass).unwrap();
        let span = offer.min.x;
        assert_eq!(offer.max.x, Some(span));
        spans.push(span);
        element.child_laid_out(&mut pass, Vector2::new(span, 50));
    }
    assert_eq!(spans, vec![33, 33, 34]);
    assert_eq!(pass.remaining_space, 0);
    assert_eq!(element.finish_layout(&outer, &pass), (Vector2::new(100, 50), 0));
}

#[test]
fn members_after_a_greedy_one_absorb_the_difference() {
    let element = PaneAxisElement::new(Axis::Horizontal, 0, vec![FLEX_ONE, FLEX_ONE]);
    let outer = constraint((0, 0), (Some(100), Some(50)));
    let (offers, pass) =
        run_pass(&element, &outer, &[Vector2::new(150, 10), Vector2::new(0, 10)]);
    assert_eq!(offers[0], Some(fixed(Axis::Horizontal, 50, 0, Some(50))));
    assert_eq!(offers[1], Some(fixed(Axis::Horizontal, -50, 0, Some(50))));
    assert_eq!(pass.remaining_space, -50);
    assert_eq!(element.finish_layout(&outer, &pass), (Vector2::new(100, 10), -50));
}

#[test]
fn share_of_negative_space_rounds_down() {
    let element =
        PaneAxisElement::new(Axis::Horizontal, 0, vec![FLEX_ONE, FLEX_ONE, FLEX_ONE]);
    let outer = constraint((0, 0), (Some(100), None));
    let (offers, _) = run_pass(&element, &outer, &[Vector2::new(201, 0), Vector2::new(0, 0)]);
    assert_eq!(offers[1], Some(fixed(Axis::Horizontal, -51, 0, None)));
}

#[test]
fn all_space_is_offered_where_no_weight_remains() {
    let element = PaneAxisElement::new(Axis::Horizontal, 0, vec![0, 0]);
    let outer = constraint((0, 0), (Some(80), Some(50)));
    let (offers, pass) = run_pass(&element, &outer, &[Vector2::new(80, 5), Vector2::new(0, 5)]);
    assert_eq!(offers[0], Some(fixed(Axis::Horizontal, 80, 0, Some(50))));
    assert_eq!(offers[1], Some(fixed(Axis::Horizontal, 0, 0, Some(50))));
    assert_eq!(pass.remaining_flex, 0);
}

#[test]
fn member_without_weight_is_offered_nothing() {
    let element = PaneAxisElement::new(Axis::Horizontal, 0, vec![0, FLEX_ONE]);
    let outer = constraint((0, 0), (Some(80), Some(50)));
    let (offers, _) = run_pass(&element, &outer, &[Vector2::new(0, 5), Vector2::new(80, 5)]);
    assert_eq!(offers[0], Some(fixed(Axis::Horizontal, 0, 0, Some(50))));
    assert_eq!(offers[1], Some(fixed(Axis::Horizontal, 80, 0, Some(50))));
}

#[test]
fn no_offer_where_the_share_is_not_a_length() {
    let element = PaneAxisElement::new(Axis::Horizontal, 0, vec![FLEX_ONE, FLEX_ONE]);
    let outer = constraint((0, 0), (Some(i32::MAX), Some(50)));
    let (offers, pass) =
        run_pass(&element, &outer, &[Vector2::new(i32::MIN, 0), Vector2::new(0, 0)]);
    assert_eq!(pass.remaining_space, 4_294_967_295);
    assert!(offers[0].is_some());
    assert_eq!(offers[1], None);
}

#[test]
fn size_is_raised_to_the_least_allowed() {
    let element = PaneAxisElement::new(Axis::Horizontal, 0, vec![FLEX_ONE]);
    let outer = constraint((200, 50), (Some(300), Some(400)));
    let (_, pass) = run_pass(&element, &outer, &[Vector2::new(100, 10)]);
    assert_eq!(pass.remaining_space, 200);
    assert_eq!(element.finish_layout(&outer, &pass), (Vector2::new(200, 50), 200));
}

#[test]
fn size_is_lowered_to_the_greatest_allowed() {
    let element = PaneAxisElement::new(Axis::Vertical, 0, vec![FLEX_ONE]);
    let outer = constraint((0, 0), (Some(400), Some(300)));
    let (_, pass) = run_pass(&element, &outer, &[Vector2::new(500, 350)]);
    assert_eq!(pass.remaining_space, -50);
    assert_eq!(pass.cross_axis_max, 500);
    assert_eq!(element.finish_layout(&outer, &pass), (Vector2::new(400, 300), -50));
}

#[test]
fn size_across_the_axis_has_no_limit_where_there_is_none() {
    let element = PaneAxisElement::new(Axis::Horizontal, 0, vec![FLEX_ONE, FLEX_ONE]);
    let outer = constraint((0, 0), (Some(500), None));
    let (_, pass) = run_pass(&element, &outer, &[Vector2::new(250, 900), Vector2::new(250, 700)]);
    assert_eq!(element.finish_layout(&outer, &pass), (Vector2::new(500, 900), 0));
}

#[test]
fn least_wins_over_greatest_only_below_it() {
    let element = PaneAxisElement::new(Axis::Horizontal, 0, vec![FLEX_ONE]);
    let outer = constraint((700, 0), (Some(500), Some(10)));
    let (_, pass) = run_pass(&element, &outer, &[Vector2::new(100, 5)]);
    assert_eq!(element.finish_layout(&outer, &pass), (Vector2::new(500, 5), 400));
}

#[test]
fn empty_axis_takes_no_space() {
    let element = PaneAxisElement::new(Axis::Horizontal, 0, vec![]);
    let outer = constraint((0, 0), (Some(500), Some(10)));
    let pass = element.begin_layout(&outer);
    assert_eq!(pass.remaining_flex, 0);
    assert_eq!(element.finish_layout(&outer, &pass), (Vector2::new(0, 0), 500));
}

#[test]
fn members_are_placed_one_after_the_other() {
    let element =
        PaneAxisElement::new(Axis::Horizontal, 5, vec![FLEX_ONE, FLEX_ONE, FLEX_ONE]);
    let bounds = area(10, 20, 300, 100);
    let sizes = vec![Vector2::new(100, 100), Vector2::new(120, 100), Vector2::new(80, 100)];
    let painting = element.paint(bounds, bounds, 0, &sizes).unwrap();
    assert_eq!(painting.clip, None);
    assert_eq!(
        painting.children,
        vec![
            Placement {
                origin: Vector2::new(10, 20),
                handle: Some(Handle {
                    id: 5,
                    bounds: area(108, 20, 4, 100),
                    cursor: ResizeCursor::LeftRight,
                    drag: DividerDrag {
                        axis: Axis::Horizontal,
                        ix: 0,
                        child_start: Vector2::new(10, 20),
                        child_size: Vector2::new(100, 100),
                        next_child_size: Vector2::new(120, 100),
                        drag_bounds: bounds,
                    },
                }),
            },
            Placement {
                origin: Vector2::new(110, 20),
                handle: Some(Handle {
                    id: 6,
                    bounds: area(228, 20, 4, 100),
                    cursor: ResizeCursor::LeftRight,
                    drag: DividerDrag {
                        axis: Axis::Horizontal,
                        ix: 1,
                        child_start: Vector2::new(110, 20),
                        child_size: Vector2::new(120, 100),
                        next_child_size: Vector2::new(80, 100),
                        drag_bounds: bounds,
                    },
                }),
            },
            Placement { origin: Vector2::new(230, 20), handle: None },
        ]
    );
}

#[test]
fn members_of_a_vertical_axis_are_stacked() {
    let element = PaneAxisElement::new(Axis::Vertical, 0, vec![FLEX_ONE, FLEX_ONE]);
    let bounds = area(0, 0, 200, 300);
    let sizes = vec![Vector2::new(200, 100), Vector2::new(200, 200)];
    let painting = element.paint(bounds, bounds, 0, &sizes).unwrap();
    assert_eq!(painting.children.len(), 2);
    assert_eq!(painting.children[0].origin, Vector2::new(0, 0));
    assert_eq!(painting.children[1].origin, Vector2::new(0, 100));
    let handle = painting.children[0].handle.unwrap();
    assert_eq!(handle.bounds, area(0, 98, 200, 4));
    assert_eq!(handle.cursor, ResizeCursor::UpDown);
    assert_eq!(handle.drag.axis, Axis::Vertical);
    assert_eq!(painting.children[1].handle, None);
    assert_eq!(HANDLE_HITBOX_SIZE, 4);
}

#[test]
fn handles_are_numbered_from_the_basis() {
    let element = PaneAxisElement::new(Axis::Horizontal, usize::MAX, vec![FLEX_ONE; 3]);
    let bounds = area(0, 0, 300, 100);
    let sizes = vec![Vector2::new(100, 100); 3];
    let painting = element.paint(bounds, bounds, 0, &sizes).unwrap();
    assert_eq!(painting.children[0].handle.unwrap().id, usize::MAX);
    assert_eq!(painting.children[1].handle.unwrap().id, 0);
}

#[test]
fn handle_is_centred_on_the_boundary() {
    let element = PaneAxisElement::new(Axis::Horizontal, 0, vec![FLEX_ONE, FLEX_ONE]);
    let bounds = area(0, 0, 500, 100);
    let sizes = vec![Vector2::new(250, 100), Vector2::new(250, 100)];
    let painting = element.paint(bounds, bounds, 0, &sizes).unwrap();
    let handle = painting.children[0].handle.unwrap();
    let boundary = painting.children[1].origin.x;
    assert_eq!(handle.bounds.origin.x + handle.bounds.size.x / 2, boundary);
    assert_eq!(handle.bounds.size.x, HANDLE_HITBOX_SIZE);
}

#[test]
fn members_are_clipped_when_they_took_too_much() {
    let element = PaneAxisElement::new(Axis::Horizontal, 0, vec![FLEX_ONE, FLEX_ONE]);
    let bounds = area(0, 0, 300, 100);
    let visible = area(50, 10, 100, 200);
    let sizes = vec![Vector2::new(200, 100), Vector2::new(120, 100)];
    let painting = element.paint(bounds, visible, -20, &sizes).unwrap();
    assert_eq!(painting.clip, Some(area(50, 10, 100, 90)));
    let handle = painting.children[0].handle.unwrap();
    assert_eq!(handle.bounds, area(198, 0, 4, 90));
    assert_eq!(handle.drag.drag_bounds, area(50, 10, 100, 90));

    let painting = element.paint(bounds, visible, 0, &sizes).unwrap();
    assert_eq!(painting.clip, None);
}

#[test]
fn nothing_is_in_view_where_the_bounds_are_out_of_view() {
    let element = PaneAxisElement::new(Axis::Horizontal, 0, vec![FLEX_ONE, FLEX_ONE]);
    let bounds = area(0, 0, 300, 100);
    let visible = area(1000, 1000, 10, 10);
    let sizes = vec![Vector2::new(200, 100), Vector2::new(120, 100)];
    let painting = element.paint(bounds, visible, -20, &sizes).unwrap();
    assert_eq!(painting.clip, Some(area(0, 0, 0, 0)));
    assert_eq!(painting.children[0].handle.unwrap().bounds, area(198, 0, 4, 0));
}

#[test]
fn nothing_to_place_in_an_empty_axis() {
    let element = PaneAxisElement::new(Axis::Horizontal, 0, vec![]);
    let bounds = area(0, 0, 300, 100);
    assert_eq!(
        element.paint(bounds, bounds, 5, &vec![]),
        Some(Painting { clip: None, children: vec![] })
    );
}

#[test]
fn no_painting_where_a_member_starts_out_of_range() {
    let element = PaneAxisElement::new(Axis::Horizontal, 0, vec![FLEX_ONE, FLEX_ONE]);
    let bounds = area(i32::MAX - 10, 0, 300, 100);
    let sizes = vec![Vector2::new(100, 100), Vector2::new(10, 100)];
    assert_eq!(element.paint(bounds, bounds, 0, &sizes), None);
    let sizes = vec![Vector2::new(10, 100), Vector2::new(100, 100)];
    assert!(element.paint(bounds, bounds, 0, &sizes).is_some());
    let bounds = area(i32::MIN, 0, 300, 100);
    let sizes = vec![Vector2::new(1, 100), Vector2::new(100, 100)];
    assert_eq!(element.paint(bounds, bounds, 0, &sizes), None);
    let sizes = vec![Vector2::new(2, 100), Vector2::new(100, 100)];
    assert!(element.paint(bounds, bounds, 0, &sizes).is_some());
}

#[test]
fn layout_with_known_sizes() {
    let element = PaneAxisElement::new(Axis::Horizontal, 0, vec![FLEX_ONE, FLEX_ONE]);
    let outer = constraint((0, 0), (Some(100), Some(50)));
    assert_eq!(
        element.layout_with(&outer, &vec![Vector2::new(150, 10), Vector2::new(0, 10)]),
        Some((Vector2::new(100, 10), -50))
    );
    assert_eq!(
        element.layout_with(&outer, &vec![Vector2::new(30, 60), Vector2::new(40, -5)]),
        Some((Vector2::new(70, 50), 30))
    );
    let outer = constraint((80, 20), (Some(100), None));
    assert_eq!(
        element.layout_with(&outer, &vec![Vector2::new(30, -60), Vector2::new(40, -5)]),
        Some((Vector2::new(80, 20), 30))
    );
}

#[test]
fn layout_with_agrees_with_the_pass() {
    let element =
        PaneAxisElement::new(Axis::Vertical, 0, vec![FLEX_ONE, 3 * FLEX_ONE, FLEX_ONE / 2]);
    let outer = constraint((10, 20), (Some(300), Some(700)));
    let sizes = [Vector2::new(120, 200), Vector2::new(350, 190), Vector2::new(90, 400)];
    let (_, pass) = run_pass(&element, &outer, &sizes);
    assert_eq!(
        element.layout_with(&outer, &sizes.to_vec()),
        Some(element.finish_layout(&outer, &pass))
    );
    assert_eq!(
        element.layout_with(&outer, &sizes.to_vec()),
        Some((Vector2::new(300, 700), -90))
    );
}

#[test]
fn no_layout_without_what_it_needs() {
    let sizes = vec![Vector2::new(10, 10), Vector2::new(10, 10)];
    let outer = constraint((0, 0), (Some(100), Some(50)));
    let element = PaneAxisElement::new(Axis::Horizontal, 0, vec![FLEX_ONE, -FLEX_ONE]);
    assert_eq!(element.layout_with(&outer, &sizes), None);
    let element = PaneAxisElement::new(Axis::Horizontal, 0, vec![FLEX_ONE]);
    assert_eq!(element.layout_with(&outer, &sizes), None);
    let element = PaneAxisElement::new(Axis::Horizontal, 0, vec![FLEX_ONE, FLEX_ONE]);
    assert_eq!(element.layout_with(&constraint((0, 0), (None, Some(50))), &sizes), None);
    assert!(element.layout_with(&constraint((0, 0), (Some(50), None)), &sizes).is_some());
}

#[test]
fn pass_tracks_the_element_that_began_it() {
    let element = PaneAxisElement::new(Axis::Horizontal, 0, vec![FLEX_ONE, 2 * FLEX_ONE]);
    let other = PaneAxisElement::new(Axis::Horizontal, 0, vec![FLEX_ONE, FLEX_ONE]);
    let short = PaneAxisElement::new(Axis::Horizontal, 0, vec![]);
    let outer = constraint((0, 0), (Some(100), Some(50)));
    let mut pass = element.begin_layout(&outer);
    assert!(pass.tracks(&element));
    assert!(!pass.tracks(&other));
    element.child_laid_out(&mut pass, Vector2::new(10, 10));
    assert!(pass.tracks(&element));
    assert!(!pass.tracks(&other));
    assert!(!pass.tracks(&short));
    let made_up = LayoutPass {
        remaining_space: i64::MAX,
        remaining_flex: 2 * 65_536,
        cross_axis_max: 0,
        next: 1,
    };
    assert!(!made_up.tracks(&element));
    let made_up = LayoutPass { remaining_space: 5, remaining_flex: 2 * 65_536, ..made_up };
    assert!(made_up.tracks(&element));
}
