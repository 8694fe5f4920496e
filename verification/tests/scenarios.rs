use behavior_tree::{
    create_basic_bt, Action, BehaviorTree, Constant, Node, Selector, Sequence, Status, TreeNode,
};

fn leaf(decision: Constant) -> TreeNode<Constant> {
    TreeNode::Action(Action::new(decision))
}

fn inner_sequence(tree: &BehaviorTree<Sequence<Constant>>) -> &Sequence<Constant> {
    match tree.root().child(1) {
        Some(TreeNode::Sequence(inner)) => inner,
        _ => panic!("the second child is a sequence"),
    }
}

#[test]
fn sequence_of_three_successes_completes_on_the_third_tick() {
    let mut sequence = Sequence::new(vec![
        leaf(Constant::Succeed),
        leaf(Constant::Succeed),
        leaf(Constant::Succeed),
    ])
    .unwrap();
    assert_eq!(sequence.active(), 0);

    assert_eq!(sequence.tick(), Status::Running);
    assert_eq!(sequence.active(), 1);
    assert_eq!(sequence.tick(), Status::Running);
    assert_eq!(sequence.active(), 2);
    assert_eq!(sequence.tick(), Status::Success);
    assert_eq!(sequence.active(), 0);
}

#[test]
fn sequence_with_failing_last_child_fails_on_the_third_tick() {
    let mut sequence = Sequence::new(vec![
        leaf(Constant::Succeed),
        leaf(Constant::Succeed),
        leaf(Constant::Fail),
    ])
    .unwrap();

    assert_eq!(sequence.tick(), Status::Running);
    assert_eq!(sequence.active(), 1);
    assert_eq!(sequence.tick(), Status::Running);
    assert_eq!(sequence.active(), 2);
    assert_eq!(sequence.tick(), Status::Failure);
    assert_eq!(sequence.active(), 0);
}

#[test]
fn nested_sequence_fails_when_the_inner_sequence_fails() {
    let inner = Sequence::new(vec![
        leaf(Constant::Succeed),
        leaf(Constant::Succeed),
        leaf(Constant::Fail),
    ])
    .unwrap();
    let outer = Sequence::new(vec![leaf(Constant::Succeed), TreeNode::Sequence(inner)]).unwrap();
    let mut tree = BehaviorTree::new(outer);

    // The first tick goes to the leading leaf and moves the outer cursor to the inner
    // sequence.
    assert_eq!(tree.tick(), Status::Running);
    assert_eq!(tree.root().active(), 1);
    assert_eq!(inner_sequence(&tree).active(), 0);

    // From here on every outer tick is one tick of the inner sequence.
    assert_eq!(tree.tick(), Status::Running);
    assert_eq!(tree.root().active(), 1);
    assert_eq!(inner_sequence(&tree).active(), 1);

    assert_eq!(tree.tick(), Status::Running);
    assert_eq!(tree.root().active(), 1);
    assert_eq!(inner_sequence(&tree).active(), 2);

    assert_eq!(tree.tick(), Status::Failure);
    assert_eq!(tree.root().active(), 0);
    assert_eq!(inner_sequence(&tree).active(), 0);
}

#[test]
fn nested_sequence_starts_over_after_its_failure() {
    let mut tree = create_basic_bt();
    let expected = [Status::Running, Status::Running, Status::Running, Status::Failure];
    for round in 0..3 {
        for (tick, status) in expected.iter().enumerate() {
            assert_eq!(tree.tick(), *status, "round {round}, tick {tick}");
        }
        assert_eq!(tree.root().active(), 0);
    }
}

#[test]
fn selector_of_failure_and_success_succeeds_on_the_second_tick() {
    let mut selector =
        Selector::new(vec![leaf(Constant::Fail), leaf(Constant::Succeed)]).unwrap();
    assert_eq!(selector.active(), 0);

    assert_eq!(selector.tick(), Status::Running);
    assert_eq!(selector.active(), 1);
    assert_eq!(selector.tick(), Status::Success);
    assert_eq!(selector.active(), 0);
}

#[test]
fn selector_of_failures_fails_after_the_last_alternative() {
    let mut selector = Selector::new(vec![
        leaf(Constant::Fail),
        leaf(Constant::Fail),
        leaf(Constant::Fail),
    ])
    .unwrap();

    assert_eq!(selector.tick(), Status::Running);
    assert_eq!(selector.active(), 1);
    assert_eq!(selector.tick(), Status::Running);
    assert_eq!(selector.active(), 2);
    assert_eq!(selector.tick(), Status::Failure);
    assert_eq!(selector.active(), 0);
}

#[test]
fn selector_under_sequence_reports_through_both_rules() {
    // Sequence [ Selector [Fail, Succeed], Fail ]
    let alternatives =
        Selector::new(vec![leaf(Constant::Fail), leaf(Constant::Succeed)]).unwrap();
    let mut sequence =
        Sequence::new(vec![TreeNode::Selector(alternatives), leaf(Constant::Fail)]).unwrap();

    // The first alternative fails: the selector moves on and reports Running.
    assert_eq!(sequence.tick(), Status::Running);
    assert_eq!(sequence.active(), 0);
    // The second alternative succeeds: the selector succeeds, the sequence moves on.
    assert_eq!(sequence.tick(), Status::Running);
    assert_eq!(sequence.active(), 1);
    // The last child of the sequence fails.
    assert_eq!(sequence.tick(), Status::Failure);
    assert_eq!(sequence.active(), 0);
}

#[test]
fn basic_tree_has_the_documented_shape() {
    let tree = create_basic_bt();
    let root = tree.root();
    assert_eq!(root.len(), 2);
    assert_eq!(root.active(), 0);
    assert!(matches!(root.child(0), Some(TreeNode::Action(_))));
    assert!(root.child(2).is_none());

    let inner = inner_sequence(&tree);
    assert_eq!(inner.len(), 3);
    assert_eq!(inner.active(), 0);
    for index in 0..3 {
        assert!(matches!(inner.child(index), Some(TreeNode::Action(_))));
    }
    assert!(inner.child(3).is_none());
}
