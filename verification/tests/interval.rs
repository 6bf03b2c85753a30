use plotline::interval::{Interval, IntervalST, Node};
use plotline::period::Period;

fn p(lo: u64, hi: u64) -> Period {
    Period::new(lo, hi)
}

#[test]
fn intersects_with_tree() {
    struct Test<'a> {
        name: &'a str,
        tree: Node<Period>,
        query: Period,
        intersects: bool,
    }

    vec![
        Test {
            name: "no intersaction",
            tree: Node::new(p(0, 2)),
            query: p(3, 3),
            intersects: false,
        },
        Test {
            name: "left-hand intersaction",
            tree: Node::new(p(0, 2)),
            query: p(1, 3),
            intersects: true,
        },
        Test {
            name: "right-hand intersaction",
            tree: Node::new(p(2, 4)),
            query: p(0, 3),
            intersects: true,
        },
        Test {
            name: "superset intersaction",
            tree: Node::new(p(0, 3)),
            query: p(1, 2),
            intersects: true,
        },
        Test {
            name: "subset intersaction",
            tree: Node::new(p(1, 2)),
            query: p(0, 3),
            intersects: true,
        },
        Test {
            name: "complex tree",
            tree: Node::new(p(5, 6))
                ._with_interval(p(0, 4))
                ._with_interval(p(2, 6))
                ._with_interval(p(7, 9)),
            query: p(1, 2),
            intersects: true,
        },
    ]
    .into_iter()
    .for_each(|test| {
        assert_eq!(
            test.tree._intersects(&test.query),
            test.intersects,
            "{}",
            test.name
        );
    });
}

#[test]
fn for_each_intersection_in_tree() {
    struct Test<'a> {
        name: &'a str,
        tree: Node<Period>,
        query: Period,
        output: Vec<Period>,
    }

    vec![
        Test {
            name: "no intersactions",
            tree: Node::new(p(1, 2)),
            query: p(0, 0),
            output: Vec::default(),
        },
        Test {
            name: "multiple intersactions",
            tree: Node::new(p(5, 6))
                ._with_interval(p(0, 2))
                ._with_interval(p(3, 3))
                ._with_interval(p(5, 9))
                ._with_interval(p(6, 6)),
            query: p(3, 5),
            output: vec![p(5, 6), p(3, 3), p(5, 9)],
        },
    ]
    .into_iter()
    .for_each(|test| {
        let intervals: Vec<Period> = test
            .tree
            ._for_each_intersection(&test.query)
            .into_iter()
            .cloned()
            .collect();

        assert_eq!(intervals.len(), test.output.len(), "{}", test.name,);
        test.output
            .into_iter()
            .for_each(|interval| assert!(intervals.contains(&interval), "{}", test.name));
    })
}

#[test]
fn interval_search_tree_from_vector() {
    struct Test<'a> {
        name: &'a str,
        input: Vec<Period>,
        output: IntervalST<Period>,
    }

    vec![
        Test {
            name: "node from empty vector must fail",
            input: Vec::new(),
            output: IntervalST::default(),
        },
        Test {
            name: "node from non empty vec must not fail",
            input: vec![p(0, 0), p(3, 3), p(5, 6), p(5, 9), p(6, 6)],
            output: IntervalST(Some(
                Node::new(p(5, 6))
                    ._with_interval(p(3, 3))
                    ._with_interval(p(0, 0))
                    ._with_interval(p(6, 6))
                    ._with_interval(p(5, 9)),
            )),
        },
    ]
    .into_iter()
    .for_each(|test| {
        let tree: IntervalST<Period> = IntervalST::from(test.input);
        assert_eq!(tree, test.output, "{0}", test.name);
    });
}

#[test]
fn node_keeps_the_highest_bound_of_its_subtree() {
    let node = Node::new(p(5, 6))
        ._with_interval(p(0, 9))
        ._with_interval(p(7, 8));
    assert_eq!(node.max, 9);
    assert_eq!(node._count(), 3);
}

#[test]
fn for_each_intersection_finds_exactly_the_overlapping_intervals() {
    let node = Node::new(p(10, 12))
        ._with_interval(p(1, 3))
        ._with_interval(p(4, 20))
        ._with_interval(p(13, 14))
        ._with_interval(p(21, 22));
    let mut found: Vec<Period> = node
        ._for_each_intersection(&p(11, 13))
        .into_iter()
        .cloned()
        .collect();
    found.sort_by_key(|period| (period.lo, period.hi));
    assert_eq!(found, vec![p(4, 20), p(10, 12), p(13, 14)]);
    assert!(!node._intersects(&p(23, 30)));
    assert!(node._intersects(&p(22, 30)));
}

#[test]
fn tree_walks_its_intervals_in_order() {
    let input = vec![p(0, 0), p(3, 3), p(5, 6), p(5, 9), p(6, 6)];
    let tree = IntervalST::from(input.clone());
    let walked: Vec<Period> = tree.for_each().into_iter().cloned().collect();
    assert_eq!(walked, input);
    assert_eq!(tree.intervals(), input);
}

#[test]
fn empty_tree_has_no_interval() {
    let tree: IntervalST<Period> = IntervalST::default();
    assert!(tree.intervals().is_empty());
    assert!(tree.for_each().is_empty());
}

#[test]
fn period_bounds_and_intersection() {
    let a = p(1, 3);
    assert_eq!(a.lo(), 1);
    assert_eq!(a.hi(), 3);
    assert!(a.contains(1));
    assert!(a.contains(3));
    assert!(!a.contains(4));
    assert!(a.intersects(&p(3, 5)));
    assert!(p(3, 5).intersects(&a));
    assert!(!a.intersects(&p(4, 5)));
    assert!(p(0, 10).intersects(&p(4, 5)));
}
