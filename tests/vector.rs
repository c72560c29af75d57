use handmade_collections::vector::Vec;

fn filled(values: &[i32]) -> Vec<i32> {
    let mut v = Vec::new();
    for x in values {
        v.push(*x);
    }
    v
}

fn contents(v: &Vec<i32>) -> std::vec::Vec<i32> {
    (0..v.len()).map(|i| *v.get(i)).collect()
}

#[test]
fn new_is_empty_without_slots() {
    let v: Vec<i32> = Vec::new();
    assert_eq!(v.len(), 0);
    assert_eq!(v.cap(), 0);
}

#[test]
fn pushes_keep_count_and_order() {
    let mut v = Vec::new();
    for i in 0..37 {
        v.push(i * 3);
        assert_eq!(v.len(), (i + 1) as usize);
    }
    let expected: std::vec::Vec<i32> = (0..37).map(|i| i * 3).collect();
    assert_eq!(contents(&v), expected);
}

#[test]
fn capacity_doubles_from_one() {
    let mut v = Vec::new();
    let mut seen = vec![v.cap()];
    for i in 0..9 {
        v.push(i);
        if *seen.last().unwrap() != v.cap() {
            seen.push(v.cap());
        }
        assert!(v.cap() >= v.len());
    }
    assert_eq!(seen, vec![0, 1, 2, 4, 8, 16]);
}

#[test]
fn capacity_never_shrinks() {
    let mut v = filled(&[1, 2, 3, 4, 5]);
    assert_eq!(v.cap(), 8);
    v.pop();
    v.remove(0);
    assert_eq!(v.cap(), 8);
    let mut d = v.drain();
    assert_eq!(d.next(), Some(2));
    drop(d);
    assert_eq!(v.cap(), 8);
    assert_eq!(v.len(), 0);
}

#[test]
fn pop_returns_in_reverse() {
    let mut v = filled(&[1, 2, 3, 4]);
    assert_eq!(v.pop(), Some(4));
    assert_eq!(v.pop(), Some(3));
    assert_eq!(v.pop(), Some(2));
    assert_eq!(v.pop(), Some(1));
    assert_eq!(v.len(), 0);
    assert_eq!(v.pop(), None);
}

#[test]
fn pop_on_empty_is_none() {
    let mut v: Vec<i32> = Vec::new();
    assert_eq!(v.pop(), None);
    assert_eq!(v.len(), 0);
}

#[test]
fn insert_shifts_the_tail() {
    let mut v = filled(&[1, 2, 4]);
    v.insert(2, 3);
    assert_eq!(contents(&v), vec![1, 2, 3, 4]);
    v.insert(0, 0);
    assert_eq!(contents(&v), vec![0, 1, 2, 3, 4]);
    v.insert(5, 5);
    assert_eq!(contents(&v), vec![0, 1, 2, 3, 4, 5]);
}

#[test]
fn insert_into_empty() {
    let mut v = Vec::new();
    v.insert(0, 9);
    assert_eq!(contents(&v), vec![9]);
    assert_eq!(v.cap(), 1);
}

#[test]
fn remove_closes_the_gap() {
    let mut v = filled(&[10, 20, 30, 40]);
    assert_eq!(v.remove(1), 20);
    assert_eq!(contents(&v), vec![10, 30, 40]);
    assert_eq!(v.remove(2), 40);
    assert_eq!(contents(&v), vec![10, 30]);
    assert_eq!(v.remove(0), 10);
    assert_eq!(contents(&v), vec![30]);
}

#[test]
fn insert_then_remove_round_trip() {
    let before = [7, 8, 9];
    for i in 0..=before.len() {
        let mut v = filled(&before);
        v.insert(i, 100);
        assert_eq!(v.remove(i), 100);
        assert_eq!(contents(&v), before.to_vec());
    }
}

#[test]
fn set_replaces_one_value() {
    let mut v = filled(&[1, 2, 3]);
    v.set(1, 20);
    assert_eq!(contents(&v), vec![1, 20, 3]);
}

#[test]
fn into_iter_forward() {
    let mut it = filled(&[1, 2, 3]).into_iter();
    assert_eq!(it.size_hint(), (3, Some(3)));
    assert_eq!(it.next(), Some(1));
    assert_eq!(it.next(), Some(2));
    assert_eq!(it.next(), Some(3));
    assert_eq!(it.next(), None);
    assert_eq!(it.size_hint(), (0, Some(0)));
}

#[test]
fn into_iter_backward() {
    let mut it = filled(&[1, 2, 3]).into_iter();
    assert_eq!(it.next_back(), Some(3));
    assert_eq!(it.next_back(), Some(2));
    assert_eq!(it.next_back(), Some(1));
    assert_eq!(it.next_back(), None);
}

#[test]
fn into_iter_from_both_ends() {
    let mut it = filled(&[1, 2, 3, 4, 5]).into_iter();
    assert_eq!(it.next(), Some(1));
    assert_eq!(it.next_back(), Some(5));
    assert_eq!(it.next(), Some(2));
    assert_eq!(it.next_back(), Some(4));
    assert_eq!(it.size_hint(), (1, Some(1)));
    assert_eq!(it.next(), Some(3));
    assert_eq!(it.next_back(), None);
    assert_eq!(it.next(), None);
}

#[test]
fn into_iter_abandoned_early() {
    let mut it = filled(&[1, 2, 3]).into_iter();
    assert_eq!(it.next(), Some(1));
    drop(it);
    let mut owned = Vec::new();
    owned.push(String::from("a"));
    owned.push(String::from("b"));
    let mut it = owned.into_iter();
    assert_eq!(it.next_back(), Some(String::from("b")));
}

#[test]
fn drain_empties_at_once_and_yields_all() {
    let mut v = filled(&[7, 8, 9]);
    {
        let mut d = v.drain();
        assert_eq!(d.size_hint(), (3, Some(3)));
        assert_eq!(d.next(), Some(7));
        assert_eq!(d.next(), Some(8));
        assert_eq!(d.next(), Some(9));
        assert_eq!(d.next(), None);
    }
    assert_eq!(v.len(), 0);
    v.push(1);
    assert_eq!(contents(&v), vec![1]);
}

#[test]
fn drain_from_back_and_abandon() {
    let mut v = filled(&[1, 2, 3, 4]);
    {
        let mut d = v.drain();
        assert_eq!(d.next_back(), Some(4));
        assert_eq!(d.next(), Some(1));
    }
    assert_eq!(v.len(), 0);
    assert_eq!(v.pop(), None);
    v.push(5);
    v.push(6);
    assert_eq!(contents(&v), vec![5, 6]);
}

#[test]
fn get_reads_each_position() {
    let v = filled(&[4, 5, 6]);
    assert_eq!(*v.get(0), 4);
    assert_eq!(*v.get(2), 6);
}

#[test]
fn zero_sized_values_have_the_largest_capacity() {
    let mut v: Vec<()> = Vec::new();
    assert_eq!(v.cap(), usize::MAX);
    assert_eq!(v.len(), 0);
    for _ in 0..10 {
        v.push(());
        assert_eq!(v.cap(), usize::MAX);
    }
    assert_eq!(v.len(), 10);
    v.insert(3, ());
    assert_eq!(v.remove(0), ());
    assert_eq!(v.pop(), Some(()));
    assert_eq!(v.len(), 9);
    assert_eq!(v.cap(), usize::MAX);
    let mut d = v.drain();
    assert_eq!(d.size_hint(), (9, Some(9)));
    assert_eq!(d.next_back(), Some(()));
    drop(d);
    assert_eq!(v.len(), 0);
    assert_eq!(v.cap(), usize::MAX);
    v.push(());
    let mut it = v.into_iter();
    assert_eq!(it.next(), Some(()));
    assert_eq!(it.next(), None);
}

#[test]
fn drain_keeps_the_capacity() {
    let mut v = filled(&[1, 2, 3]);
    assert_eq!(v.cap(), 4);
    {
        let mut d = v.drain();
        assert_eq!(d.next(), Some(1));
    }
    assert_eq!(v.cap(), 4);
    for i in 0..4 {
        v.push(i);
    }
    assert_eq!(v.cap(), 4);
    assert_eq!(contents(&v), vec![0, 1, 2, 3]);
}
