use handmade_collections::singly_linked_list::LinkedList;

#[test]
pub fn unsafe_linked_list_linked_list_new() {
    let linked_list: LinkedList<i32> = LinkedList::new();
    assert_eq!(linked_list.len(), 0);
}

#[test]
pub fn linked_list_push() {
    let mut linked_list: LinkedList<i32> = LinkedList::new();
    linked_list.push(5);
    linked_list.push(12);
    linked_list.push(23);

    assert_eq!(linked_list.len(), 3);
    assert_eq!(linked_list.front(), Some(&5));
}

#[test]
pub fn linked_list_pop() {
    let mut linked_list: LinkedList<i32> = LinkedList::new();
    linked_list.push(5);
    linked_list.push(12);
    linked_list.push(23);

    assert_eq!(linked_list.pop(), Some(23));
    assert_eq!(linked_list.len(), 2);
    assert_eq!(linked_list.pop(), Some(12));
    assert_eq!(linked_list.len(), 1);
    assert_eq!(linked_list.pop(), Some(5));
    assert_eq!(linked_list.len(), 0);
    assert_eq!(linked_list.pop(), None);
    assert_eq!(linked_list.len(), 0);
}

#[test]
pub fn linked_list_iter() {
    let mut linked_list: LinkedList<i32> = LinkedList::new();
    linked_list.push(5);
    linked_list.push(12);
    linked_list.push(23);

    let mut iter = linked_list.iter();
    assert_eq!(iter.next(), Some(&5));
    assert_eq!(iter.next(), Some(&12));
    assert_eq!(iter.next(), Some(&23));
}

#[test]
fn front_of_empty_is_none() {
    let linked_list: LinkedList<i32> = LinkedList::new();
    assert_eq!(linked_list.front(), None);
}

#[test]
fn iter_ends_and_leaves_list_unchanged() {
    let mut linked_list: LinkedList<i32> = LinkedList::new();
    linked_list.push(1);
    linked_list.push(2);
    {
        let mut iter = linked_list.iter();
        assert_eq!(iter.next(), Some(&1));
        assert_eq!(iter.next(), Some(&2));
        assert_eq!(iter.next(), None);
        assert_eq!(iter.next(), None);
    }
    assert_eq!(linked_list.len(), 2);
    let mut again = linked_list.iter();
    assert_eq!(again.next(), Some(&1));
    let empty: LinkedList<i32> = LinkedList::new();
    assert_eq!(empty.iter().next(), None);
}

#[test]
fn push_after_pop_appends_at_end() {
    let mut linked_list: LinkedList<String> = LinkedList::new();
    linked_list.push(String::from("a"));
    linked_list.push(String::from("b"));
    assert_eq!(linked_list.pop(), Some(String::from("b")));
    linked_list.push(String::from("c"));
    assert_eq!(linked_list.front(), Some(&String::from("a")));
    assert_eq!(linked_list.pop(), Some(String::from("c")));
    assert_eq!(linked_list.pop(), Some(String::from("a")));
    assert_eq!(linked_list.pop(), None);
}
