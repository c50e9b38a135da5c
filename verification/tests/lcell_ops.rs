use lcell::{LCell, LCellOwner};

#[test]
fn scope_returns_closure_result() {
    let r = LCellOwner::<u64>::scope(|_o| 42u64);
    assert_eq!(r, 42);
}

#[test]
fn read_after_create_and_write() {
    LCellOwner::<u64>::scope(|mut o| {
        let c = o.cell(5);
        assert_eq!(*o.get(&c), 5);
        *o.get_mut(&c) = 7;
        assert_eq!(*o.get(&c), 7);
    });
}

#[test]
fn writes_visible_to_later_reads() {
    LCellOwner::<i64>::scope(|mut o| {
        let c = o.cell(-3);
        for v in [0i64, 1, -100, i64::MAX, i64::MIN] {
            *o.get_mut(&c) = v;
            assert_eq!(*o.get(&c), v);
        }
    });
}

#[test]
fn cell_new_is_owned_like_any_other() {
    LCellOwner::<String>::scope(|mut o| {
        let c1 = o.cell(String::from("one"));
        let c2 = LCell::new(String::from("two"), &mut o);
        assert_eq!(o.get(&c1), "one");
        assert_eq!(o.get(&c2), "two");
    });
}

#[test]
fn shared_reads_coexist() {
    LCellOwner::<u64>::scope(|mut o| {
        let c = o.cell(8);
        let r1 = o.get(&c);
        let r2 = o.get(&c);
        assert_eq!(*r1 + *r2, 16);
    });
}

#[test]
fn handles_are_freely_copied() {
    LCellOwner::<u64>::scope(|mut o| {
        let c = o.cell(1);
        let copies = vec![c, c, c.clone()];
        *o.get_mut(&copies[1]) = 2;
        for h in &copies {
            assert_eq!(*o.get(h), 2);
        }
        assert_eq!(*o.get(&c), 2);
    });
}

#[test]
fn pair_references_are_independent() {
    LCellOwner::<u64>::scope(|mut o| {
        let c1 = o.cell(1);
        let c2 = o.cell(2);
        let (a, b) = o.get_mut_2(&c1, &c2);
        assert_eq!((*a, *b), (1, 2));
        *a = 100;
        assert_eq!(*b, 2);
        *b = 200;
        assert_eq!((*o.get(&c1), *o.get(&c2)), (100, 200));
    });
}

#[test]
fn pair_increment_both() {
    LCellOwner::<u64>::scope(|mut o| {
        let c1 = o.cell(1);
        let c2 = o.cell(2);
        let (a, b) = o.get_mut_2(&c1, &c2);
        *a += 1;
        *b += 1;
        assert_eq!(*o.get(&c1), 2);
        assert_eq!(*o.get(&c2), 3);
    });
}

#[test]
fn pair_in_either_argument_order() {
    LCellOwner::<u64>::scope(|mut o| {
        let c1 = o.cell(1);
        let c2 = o.cell(2);
        let (b, a) = o.get_mut_2(&c2, &c1);
        assert_eq!((*a, *b), (1, 2));
        *a = 10;
        *b = 20;
        assert_eq!(*o.get(&c1), 10);
        assert_eq!(*o.get(&c2), 20);
    });
}

#[test]
fn triple_in_every_argument_order() {
    let cases: [[usize; 3]; 6] =
        [[0, 1, 2], [0, 2, 1], [1, 0, 2], [1, 2, 0], [2, 0, 1], [2, 1, 0]];
    for perm in cases {
        LCellOwner::<u64>::scope(|mut o| {
            let cells = [o.cell(10), o.cell(20), o.cell(30)];
            let (a, b, c) =
                o.get_mut_3(&cells[perm[0]], &cells[perm[1]], &cells[perm[2]]);
            assert_eq!(*a, 10 * (perm[0] as u64 + 1));
            assert_eq!(*b, 10 * (perm[1] as u64 + 1));
            assert_eq!(*c, 10 * (perm[2] as u64 + 1));
            *a += 1;
            *b += 2;
            *c += 3;
            assert_eq!(*o.get(&cells[perm[0]]), 10 * (perm[0] as u64 + 1) + 1);
            assert_eq!(*o.get(&cells[perm[1]]), 10 * (perm[1] as u64 + 1) + 2);
            assert_eq!(*o.get(&cells[perm[2]]), 10 * (perm[2] as u64 + 1) + 3);
        });
    }
}

#[test]
fn triple_leaves_other_cells_alone() {
    LCellOwner::<u64>::scope(|mut o| {
        let c0 = o.cell(0);
        let c1 = o.cell(1);
        let c2 = o.cell(2);
        let c3 = o.cell(3);
        let (x, y, z) = o.get_mut_3(&c3, &c1, &c0);
        *x = 33;
        *y = 11;
        *z = 0;
        assert_eq!(*o.get(&c2), 2);
        assert_eq!(*o.get(&c0), 0);
        assert_eq!(*o.get(&c1), 11);
        assert_eq!(*o.get(&c3), 33);
    });
}

#[test]
fn sibling_scopes_keep_their_own_cells() {
    LCellOwner::<u64>::scope(|mut o1| {
        let c1 = o1.cell(1);
        let inner = LCellOwner::<u64>::scope(|mut o2| {
            let c2 = o2.cell(2);
            *o2.get_mut(&c2) = 20;
            *o2.get(&c2)
        });
        assert_eq!(inner, 20);
        assert_eq!(*o1.get(&c1), 1);
    });
}

struct Node {
    val: u64,
    next: Option<LCell<Node>>,
}

#[test]
fn two_node_cycle_under_one_owner() {
    LCellOwner::<Node>::scope(|mut o| {
        let a = o.cell(Node { val: 1, next: None });
        let b = o.cell(Node { val: 2, next: Some(a) });
        o.get_mut(&a).next = Some(b);

        let from_a = o.get(&a).next.unwrap();
        assert_eq!(o.get(&from_a).val, 2);
        let from_b = o.get(&from_a).next.unwrap();
        assert_eq!(o.get(&from_b).val, 1);

        o.get_mut(&from_b).val = 10;
        assert_eq!(o.get(&a).val, 10);

        let (ra, rb) = o.get_mut_2(&a, &b);
        ra.val += 1;
        rb.val += 1;
        assert_eq!(o.get(&a).val, 11);
        assert_eq!(o.get(&b).val, 3);
    });
}
