use tezedge_node::service_stats::fat_tail_vec;
use tezedge_node::top_n::TopN;

#[test]
fn top_n_adds_below_the_bound() {
    let mut t = TopN::new(3);
    t.add((5, 0));
    t.add((1, 1));
    assert_eq!(t.len(), 2);
    assert_eq!(t.into_descending_vec(), vec![(5, 0), (1, 1)]);
}

#[test]
fn top_n_replaces_least_when_full() {
    let mut t = TopN::new(2);
    t.add((5, 0));
    t.add((1, 1));
    t.add((3, 2));
    assert_eq!(t.len(), 2);
    assert_eq!(t.into_descending_vec(), vec![(5, 0), (3, 2)]);
}

#[test]
fn top_n_refuses_value_not_above_least() {
    let mut t = TopN::new(2);
    t.add((5, 0));
    t.add((4, 1));
    t.add((4, 1));
    t.add((2, 7));
    assert_eq!(t.into_descending_vec(), vec![(5, 0), (4, 1)]);
}

#[test]
fn top_n_ties_broken_by_identifier() {
    let mut t = TopN::new(1);
    t.add((4, 1));
    t.add((4, 2));
    t.add((4, 0));
    assert_eq!(t.into_descending_vec(), vec![(4, 2)]);
}

#[test]
fn top_n_zero_bound_keeps_one() {
    let mut t = TopN::new(0);
    t.add((1, 0));
    assert_eq!(t.len(), 1);
    t.add((0, 1));
    t.add((9, 2));
    assert_eq!(t.len(), 1);
    assert_eq!(t.into_descending_vec(), vec![(9, 2)]);
}

#[test]
fn top_n_keeps_greatest_of_all_offered() {
    let mut t = TopN::new(4);
    let values: Vec<u64> = vec![17, 3, 99, 42, 8, 56, 23, 77, 1, 64, 12, 90];
    for (i, v) in values.iter().enumerate() {
        t.add((*v, i as u64));
    }
    assert_eq!(t.len(), 4);
    let kept = t.into_descending_vec();
    assert_eq!(kept, vec![(99, 2), (90, 11), (77, 7), (64, 9)]);
}

#[test]
fn fat_tail_vec_is_greatest_first() {
    let mut t = TopN::new(10);
    for (i, v) in [3u64, 9, 1, 9, 4].iter().enumerate() {
        t.add((*v, i as u64));
    }
    assert_eq!(fat_tail_vec(t), vec![(9, 3), (9, 1), (4, 4), (3, 0), (1, 2)]);
}

#[test]
fn fat_tail_vec_of_empty_is_empty() {
    let t = TopN::new(5);
    assert_eq!(fat_tail_vec(t), Vec::<(u64, u64)>::new());
}
