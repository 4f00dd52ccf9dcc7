use pane_group::{Axis, Member, NotFound, PaneAxis, PaneGroup, PaneId, SplitDirection, FLEX_ONE};

const A: PaneId = PaneId(1);
const B: PaneId = PaneId(2);
const C: PaneId = PaneId(3);
const D: PaneId = PaneId(4);

fn pane(id: PaneId) -> Member {
    Member::Pane(id)
}

fn axis(axis: Axis, members: Vec<Member>) -> Member {
    Member::Axis(PaneAxis::new(axis, members))
}

fn count_leaves(member: &Member) -> usize {
    match member {
        Member::Pane(_) => 1,
        Member::Axis(axis) => axis.members.iter().map(count_leaves).sum(),
    }
}

fn well_formed(member: &Member) -> bool {
    match member {
        Member::Pane(_) => true,
        Member::Axis(axis) => {
            axis.members.len() >= 2
                && axis.flexes.len() == axis.members.len()
                && axis.flexes.iter().all(|flex| *flex > 0)
                && axis.members.iter().all(well_formed)
        }
    }
}

fn three_deep() -> PaneGroup {
    PaneGroup::with_root(axis(
        Axis::Horizontal,
        vec![
            pane(A),
            axis(Axis::Vertical, vec![pane(B), axis(Axis::Horizontal, vec![pane(C), pane(D)])]),
        ],
    ))
}

#[test]
fn new_group_holds_one_pane() {
    let group = PaneGroup::new(A);
    assert_eq!(group.root, pane(A));
    assert_eq!(group.panes(), vec![A]);
}

#[test]
fn new_axis_has_unit_weights() {
    let made = PaneAxis::new(Axis::Vertical, vec![pane(A), pane(B), pane(C)]);
    assert_eq!(made.axis, Axis::Vertical);
    assert_eq!(made.members, vec![pane(A), pane(B), pane(C)]);
    assert_eq!(made.flexes, vec![FLEX_ONE, FLEX_ONE, FLEX_ONE]);
    assert_eq!(FLEX_ONE, 65_536);
}

#[test]
fn new_axis_orders_by_direction() {
    assert_eq!(
        Member::new_axis(A, B, SplitDirection::Right),
        axis(Axis::Horizontal, vec![pane(A), pane(B)])
    );
    assert_eq!(
        Member::new_axis(A, B, SplitDirection::Left),
        axis(Axis::Horizontal, vec![pane(B), pane(A)])
    );
    assert_eq!(
        Member::new_axis(A, B, SplitDirection::Down),
        axis(Axis::Vertical, vec![pane(A), pane(B)])
    );
    assert_eq!(
        Member::new_axis(A, B, SplitDirection::Up),
        axis(Axis::Vertical, vec![pane(B), pane(A)])
    );
}

#[test]
fn split_lone_pane_right() {
    let mut group = PaneGroup::new(A);
    assert_eq!(group.split(&A, &B, SplitDirection::Right), Ok(()));
    match &group.root {
        Member::Axis(made) => {
            assert_eq!(made.axis, Axis::Horizontal);
            assert_eq!(made.members, vec![pane(A), pane(B)]);
            assert_eq!(made.flexes, vec![FLEX_ONE, FLEX_ONE]);
        }
        Member::Pane(_) => panic!("the root is still a pane"),
    }
}

#[test]
fn split_lone_pane_left() {
    let mut group = PaneGroup::new(A);
    assert_eq!(group.split(&A, &B, SplitDirection::Left), Ok(()));
    assert_eq!(group.root, axis(Axis::Horizontal, vec![pane(B), pane(A)]));
}

#[test]
fn split_lone_pane_up() {
    let mut group = PaneGroup::new(A);
    assert_eq!(group.split(&A, &B, SplitDirection::Up), Ok(()));
    assert_eq!(group.root, axis(Axis::Vertical, vec![pane(B), pane(A)]));
}

#[test]
fn split_lone_pane_down() {
    let mut group = PaneGroup::new(A);
    assert_eq!(group.split(&A, &B, SplitDirection::Down), Ok(()));
    assert_eq!(group.root, axis(Axis::Vertical, vec![pane(A), pane(B)]));
}

#[test]
fn split_lone_pane_against_another_fails() {
    let mut group = PaneGroup::new(A);
    assert_eq!(group.split(&B, &C, SplitDirection::Right), Err(NotFound));
    assert_eq!(group.root, pane(A));
}

#[test]
fn split_along_the_axis_adds_a_sibling() {
    let mut group = PaneGroup::with_root(axis(Axis::Horizontal, vec![pane(A), pane(B)]));
    if let Member::Axis(root) = &mut group.root {
        root.flexes = vec![3 * FLEX_ONE / 2, FLEX_ONE / 2];
    }
    assert_eq!(group.split(&A, &C, SplitDirection::Right), Ok(()));
    match &group.root {
        Member::Axis(root) => {
            assert_eq!(root.axis, Axis::Horizontal);
            assert_eq!(root.members, vec![pane(A), pane(C), pane(B)]);
            assert_eq!(root.flexes, vec![FLEX_ONE, FLEX_ONE, FLEX_ONE]);
        }
        Member::Pane(_) => panic!("the root is a pane"),
    }
}

#[test]
fn split_along_the_axis_to_the_left_inserts_before() {
    let mut group = PaneGroup::with_root(axis(Axis::Horizontal, vec![pane(A), pane(B)]));
    assert_eq!(group.split(&B, &C, SplitDirection::Left), Ok(()));
    assert_eq!(group.root, axis(Axis::Horizontal, vec![pane(A), pane(C), pane(B)]));
}

#[test]
fn split_last_member_along_the_axis_appends() {
    let mut group = PaneGroup::with_root(axis(Axis::Vertical, vec![pane(A), pane(B)]));
    assert_eq!(group.split(&B, &C, SplitDirection::Down), Ok(()));
    assert_eq!(group.root, axis(Axis::Vertical, vec![pane(A), pane(B), pane(C)]));
    assert_eq!(group.split(&A, &D, SplitDirection::Up), Ok(()));
    assert_eq!(group.root, axis(Axis::Vertical, vec![pane(D), pane(A), pane(B), pane(C)]));
}

#[test]
fn split_across_the_axis_nests() {
    let mut group = PaneGroup::with_root(axis(Axis::Horizontal, vec![pane(A), pane(B)]));
    if let Member::Axis(root) = &mut group.root {
        root.flexes = vec![3 * FLEX_ONE / 2, FLEX_ONE / 2];
    }
    assert_eq!(group.split(&B, &C, SplitDirection::Up), Ok(()));
    match &group.root {
        Member::Axis(root) => {
            assert_eq!(root.axis, Axis::Horizontal);
            assert_eq!(
                root.members,
                vec![pane(A), axis(Axis::Vertical, vec![pane(C), pane(B)])]
            );
            assert_eq!(root.flexes, vec![3 * FLEX_ONE / 2, FLEX_ONE / 2]);
        }
        Member::Pane(_) => panic!("the root is a pane"),
    }
}

#[test]
fn split_deep_in_the_tree_resets_only_that_axis() {
    let mut group = three_deep();
    if let Member::Axis(root) = &mut group.root {
        root.flexes = vec![FLEX_ONE / 2, 3 * FLEX_ONE / 2];
        if let Member::Axis(inner) = &mut root.members[1] {
            inner.flexes = vec![FLEX_ONE / 4, 7 * FLEX_ONE / 4];
        }
    }
    let e = PaneId(5);
    assert_eq!(group.split(&D, &e, SplitDirection::Left), Ok(()));
    match &group.root {
        Member::Axis(root) => {
            assert_eq!(root.flexes, vec![FLEX_ONE / 2, 3 * FLEX_ONE / 2]);
            match &root.members[1] {
                Member::Axis(inner) => {
                    assert_eq!(inner.flexes, vec![FLEX_ONE / 4, 7 * FLEX_ONE / 4]);
                    assert_eq!(
                        inner.members[1],
                        axis(Axis::Horizontal, vec![pane(C), pane(e), pane(D)])
                    );
                }
                Member::Pane(_) => panic!("the second member is a pane"),
            }
        }
        Member::Pane(_) => panic!("the root is a pane"),
    }
    assert_eq!(group.panes(), vec![A, B, C, e, D]);
}

#[test]
fn split_against_a_missing_pane_fails() {
    let mut group = three_deep();
    let before = group.clone();
    assert_eq!(group.split(&PaneId(9), &PaneId(10), SplitDirection::Down), Err(NotFound));
    assert_eq!(group, before);
}

#[test]
fn split_takes_the_first_holder() {
    let mut group = PaneGroup::with_root(axis(
        Axis::Horizontal,
        vec![axis(Axis::Vertical, vec![pane(B), pane(A)]), pane(A)],
    ));
    assert_eq!(group.split(&A, &C, SplitDirection::Right), Ok(()));
    assert_eq!(
        group.root,
        axis(
            Axis::Horizontal,
            vec![
                axis(Axis::Vertical, vec![pane(B), axis(Axis::Horizontal, vec![pane(A), pane(C)])]),
                pane(A),
            ],
        )
    );
}

#[test]
fn remove_from_a_lone_pane_does_nothing() {
    let mut group = PaneGroup::new(A);
    assert_eq!(group.remove(&A), Ok(false));
    assert_eq!(group.root, pane(A));
    assert_eq!(group.remove(&B), Ok(false));
    assert_eq!(group.root, pane(A));
}

#[test]
fn remove_collapses_a_two_member_root() {
    let mut group = PaneGroup::with_root(axis(Axis::Horizontal, vec![pane(A), pane(B)]));
    assert_eq!(group.remove(&A), Ok(true));
    assert_eq!(group.root, pane(B));

    let mut group = PaneGroup::with_root(axis(Axis::Horizontal, vec![pane(A), pane(B)]));
    assert_eq!(group.remove(&B), Ok(true));
    assert_eq!(group.root, pane(A));
}

#[test]
fn remove_leaves_a_nested_axis_as_the_survivor() {
    let nested = axis(Axis::Vertical, vec![pane(B), pane(C)]);
    let mut group =
        PaneGroup::with_root(axis(Axis::Horizontal, vec![pane(A), nested.clone()]));
    assert_eq!(group.remove(&A), Ok(true));
    assert_eq!(group.root, nested);
    assert_eq!(group.panes(), vec![B, C]);
}

#[test]
fn remove_from_three_members_resets_the_weights() {
    let mut group =
        PaneGroup::with_root(axis(Axis::Vertical, vec![pane(A), pane(B), pane(C)]));
    if let Member::Axis(root) = &mut group.root {
        root.flexes = vec![FLEX_ONE / 2, FLEX_ONE, 3 * FLEX_ONE / 2];
    }
    assert_eq!(group.remove(&B), Ok(true));
    match &group.root {
        Member::Axis(root) => {
            assert_eq!(root.members, vec![pane(A), pane(C)]);
            assert_eq!(root.flexes, vec![FLEX_ONE, FLEX_ONE]);
        }
        Member::Pane(_) => panic!("the root is a pane"),
    }
}

#[test]
fn remove_in_a_nested_axis_keeps_the_outer_weights() {
    let mut group = three_deep();
    if let Member::Axis(root) = &mut group.root {
        root.flexes = vec![FLEX_ONE / 2, 3 * FLEX_ONE / 2];
        if let Member::Axis(inner) = &mut root.members[1] {
            inner.flexes = vec![FLEX_ONE / 4, 7 * FLEX_ONE / 4];
        }
    }
    assert_eq!(group.remove(&C), Ok(true));
    match &group.root {
        Member::Axis(root) => {
            assert_eq!(root.flexes, vec![FLEX_ONE / 2, 3 * FLEX_ONE / 2]);
            match &root.members[1] {
                Member::Axis(inner) => {
                    assert_eq!(inner.members, vec![pane(B), pane(D)]);
                    assert_eq!(inner.flexes, vec![FLEX_ONE / 4, 7 * FLEX_ONE / 4]);
                }
                Member::Pane(_) => panic!("the second member is a pane"),
            }
        }
        Member::Pane(_) => panic!("the root is a pane"),
    }
}

#[test]
fn remove_a_missing_pane_fails() {
    let mut group = three_deep();
    let before = group.clone();
    assert_eq!(group.remove(&PaneId(9)), Err(NotFound));
    assert_eq!(group, before);
}

#[test]
fn remove_takes_the_first_holder() {
    let mut group = PaneGroup::with_root(axis(
        Axis::Horizontal,
        vec![pane(B), axis(Axis::Vertical, vec![pane(A), pane(C)]), pane(A)],
    ));
    assert_eq!(group.remove(&A), Ok(true));
    assert_eq!(group.root, axis(Axis::Horizontal, vec![pane(B), pane(C), pane(A)]));
}

#[test]
fn axis_remove_hands_the_survivor_up() {
    let mut made = PaneAxis::new(Axis::Horizontal, vec![pane(A), pane(B)]);
    assert_eq!(made.remove(&A), Ok(Some(pane(B))));
    assert!(made.members.is_empty());

    let mut made = PaneAxis::new(Axis::Horizontal, vec![pane(A), pane(B), pane(C)]);
    assert_eq!(made.remove(&A), Ok(None));
    assert_eq!(made.members, vec![pane(B), pane(C)]);

    let mut made = PaneAxis::new(Axis::Horizontal, vec![pane(A), pane(B)]);
    assert_eq!(made.remove(&C), Err(NotFound));
    assert_eq!(made.members, vec![pane(A), pane(B)]);
}

#[test]
fn axis_split_reports_a_missing_pane() {
    let mut made = PaneAxis::new(Axis::Horizontal, vec![pane(A), pane(B)]);
    assert_eq!(made.split(&C, &D, SplitDirection::Right), Err(NotFound));
    assert_eq!(made.members, vec![pane(A), pane(B)]);
    assert_eq!(made.split(&B, &D, SplitDirection::Right), Ok(()));
    assert_eq!(made.members, vec![pane(A), pane(B), pane(D)]);
}

#[test]
fn contains_looks_through_the_whole_tree() {
    let group = three_deep();
    for id in [A, B, C, D] {
        assert!(group.root.contains(&id));
    }
    assert!(!group.root.contains(&PaneId(9)));
    assert!(pane(A).contains(&A));
    assert!(!pane(A).contains(&B));
}

#[test]
fn panes_are_listed_in_layout_order() {
    let group = three_deep();
    assert_eq!(group.panes(), vec![A, B, C, D]);
    let mut collected = vec![PaneId(7)];
    group.root.collect_panes(&mut collected);
    assert_eq!(collected, vec![PaneId(7), A, B, C, D]);
}

#[test]
fn panes_are_as_many_as_the_leaves() {
    let mut group = PaneGroup::new(A);
    assert_eq!(group.panes().len(), count_leaves(&group.root));
    let steps = [
        (A, B, SplitDirection::Right),
        (B, C, SplitDirection::Down),
        (A, D, SplitDirection::Left),
        (C, PaneId(5), SplitDirection::Down),
        (D, PaneId(6), SplitDirection::Up),
    ];
    for (old, new, direction) in steps {
        assert_eq!(group.split(&old, &new, direction), Ok(()));
        assert_eq!(group.panes().len(), count_leaves(&group.root));
    }
    for id in [B, D, PaneId(5)] {
        assert_eq!(group.remove(&id), Ok(true));
        assert_eq!(group.panes().len(), count_leaves(&group.root));
    }
}

#[test]
fn edits_keep_the_tree_well_formed() {
    let mut group = PaneGroup::new(A);
    let steps = [
        (A, B, SplitDirection::Right),
        (B, C, SplitDirection::Down),
        (A, D, SplitDirection::Left),
        (C, PaneId(5), SplitDirection::Down),
        (D, PaneId(6), SplitDirection::Up),
    ];
    for (old, new, direction) in steps {
        assert_eq!(group.split(&old, &new, direction), Ok(()));
        assert!(well_formed(&group.root));
    }
    for id in [B, D, PaneId(5), A, C] {
        assert_eq!(group.remove(&id), Ok(true));
        assert!(well_formed(&group.root));
    }
    assert_eq!(group.root, pane(PaneId(6)));
}

#[test]
fn split_then_split_then_remove() {
    let mut group = PaneGroup::new(A);
    assert_eq!(group.split(&A, &B, SplitDirection::Right), Ok(()));
    assert_eq!(group.root, axis(Axis::Horizontal, vec![pane(A), pane(B)]));
    assert_eq!(group.split(&B, &C, SplitDirection::Down), Ok(()));
    assert_eq!(
        group.root,
        axis(Axis::Horizontal, vec![pane(A), axis(Axis::Vertical, vec![pane(B), pane(C)])])
    );
    assert_eq!(group.remove(&B), Ok(true));
    assert_eq!(group.root, axis(Axis::Horizontal, vec![pane(A), pane(C)]));
    assert_eq!(group.panes(), vec![A, C]);
}

#[test]
fn shift_flex_moves_weight_between_neighbours() {
    let mut made = PaneAxis::new(Axis::Horizontal, vec![pane(A), pane(B), pane(C)]);
    made.shift_flex(1, 1_000);
    assert_eq!(made.flexes, vec![FLEX_ONE, FLEX_ONE + 1_000, FLEX_ONE - 1_000]);
    made.shift_flex(0, -500);
    assert_eq!(made.flexes, vec![FLEX_ONE - 500, FLEX_ONE + 1_500, FLEX_ONE - 1_000]);
    assert_eq!(made.flexes.iter().sum::<i64>(), 3 * FLEX_ONE);
    assert_eq!(made.members, vec![pane(A), pane(B), pane(C)]);
}

#[test]
fn clone_copies_the_tree() {
    let group = three_deep();
    let copy = group.clone();
    assert_eq!(copy, group);
    let mut edited = group.clone();
    assert_eq!(edited.remove(&A), Ok(true));
    assert_eq!(group, copy);
    assert_ne!(edited, group);
}

#[test]
fn can_shift_flex_within_the_axis_and_the_range() {
    let mut made = PaneAxis::new(Axis::Horizontal, vec![pane(A), pane(B), pane(C)]);
    assert!(made.can_shift_flex(0, 5));
    assert!(made.can_shift_flex(1, -5));
    assert!(!made.can_shift_flex(2, 5));
    assert!(!made.can_shift_flex(usize::MAX, 5));
    assert!(made.can_shift_flex(0, i64::MAX - FLEX_ONE));
    assert!(!made.can_shift_flex(0, i64::MAX - FLEX_ONE + 1));
    assert!(!made.can_shift_flex(0, i64::MIN));
    made.flexes = vec![FLEX_ONE];
    assert!(!made.can_shift_flex(0, 0));
    made.flexes = vec![];
    assert!(!made.can_shift_flex(0, 0));
}

#[test]
fn shift_flex_at_the_end_of_a_path() {
    let mut group = three_deep();
    assert!(group.shift_flex_at(&vec![1, 1], 0, 700));
    assert!(group.shift_flex_at(&vec![], 0, -300));
    match &group.root {
        Member::Axis(root) => {
            assert_eq!(root.flexes, vec![FLEX_ONE - 300, FLEX_ONE + 300]);
            match &root.members[1] {
                Member::Axis(middle) => {
                    assert_eq!(middle.flexes, vec![FLEX_ONE, FLEX_ONE]);
                    match &middle.members[1] {
                        Member::Axis(inner) => {
                            assert_eq!(inner.flexes, vec![FLEX_ONE + 700, FLEX_ONE - 700]);
                        }
                        Member::Pane(_) => panic!("the innermost axis is a pane"),
                    }
                }
                Member::Pane(_) => panic!("the second member is a pane"),
            }
        }
        Member::Pane(_) => panic!("the root is a pane"),
    }
    assert_eq!(group.panes(), vec![A, B, C, D]);
}

#[test]
fn shift_flex_off_the_tree_changes_nothing() {
    let mut group = three_deep();
    let before = group.clone();
    assert!(!group.shift_flex_at(&vec![0], 0, 700));
    assert!(!group.shift_flex_at(&vec![2], 0, 700));
    assert!(!group.shift_flex_at(&vec![1, 1, 0], 0, 700));
    assert!(!group.shift_flex_at(&vec![1], 1, 700));
    assert!(!group.shift_flex_at(&vec![1], 0, i64::MIN));
    assert_eq!(group, before);
    let mut lone = PaneGroup::new(A);
    assert!(!lone.shift_flex_at(&vec![], 0, 1));
    assert_eq!(lone.root, pane(A));
}

#[test]
fn panes_are_told_apart_by_their_number() {
    let mut seen = std::collections::HashMap::new();
    seen.insert(A, "a");
    seen.insert(PaneId(1), "again");
    seen.insert(B, "b");
    assert_eq!(seen.len(), 2);
    assert_eq!(seen[&A], "again");
    let copy = A;
    assert_eq!(copy, A);
    assert_ne!(A, B);
}

#[test]
fn not_found_in_words() {
    assert_eq!(NotFound.message(), "Pane not found");
    let mut group = PaneGroup::new(A);
    let failure = group.split(&B, &C, SplitDirection::Up).unwrap_err();
    assert_eq!(failure.message(), "Pane not found");
}

#[test]
fn split_lists_the_new_pane_beside_the_old() {
    let mut group = three_deep();
    let mut next = 10;
    for old in [A, D, B, C, A, PaneId(10)] {
        for direction in SplitDirection::all() {
            let new = PaneId(next);
            next += 1;
            let mut expected = group.panes();
            let at = expected.iter().position(|id| *id == old).unwrap();
            expected.insert(if direction.increasing() { at + 1 } else { at }, new);
            assert_eq!(group.split(&old, &new, direction), Ok(()));
            assert_eq!(group.panes(), expected);
        }
    }
}

#[test]
fn remove_unlists_the_pane() {
    let mut group = three_deep();
    assert_eq!(group.split(&B, &PaneId(5), SplitDirection::Right), Ok(()));
    assert_eq!(group.split(&A, &PaneId(6), SplitDirection::Up), Ok(()));
    for pane in [C, A, PaneId(5), D, PaneId(6)] {
        let mut expected = group.panes();
        let at = expected.iter().position(|id| *id == pane).unwrap();
        expected.remove(at);
        assert_eq!(group.remove(&pane), Ok(true));
        assert_eq!(group.panes(), expected);
    }
    assert_eq!(group.panes(), vec![B]);
}
