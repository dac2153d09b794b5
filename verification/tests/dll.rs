use embedded2020::dll::{DoublyLinkedList, Link};

#[test]
fn push_pop() {
    let mut list = DoublyLinkedList::new();
    let a = list.push_front(Link::new(()));

    assert!(list.link(a).next().is_none());
    assert!(list.link(a).prev().is_none());

    assert_eq!(list.head(), Some(a));
    assert_eq!(list.tail(), Some(a));

    let b = list.push_front(Link::new(()));

    assert!(list.link(b).next().is_none());
    assert_eq!(list.link(b).prev(), Some(a));

    assert_eq!(list.link(a).next(), Some(b));
    assert!(list.link(a).prev().is_none());

    assert_eq!(list.head(), Some(b));
    assert_eq!(list.tail(), Some(a));

    let c = list.push_front(Link::new(()));

    assert!(list.link(c).next().is_none());
    assert_eq!(list.link(c).prev(), Some(b));

    assert_eq!(list.link(b).next(), Some(c));
    assert_eq!(list.link(b).prev(), Some(a));

    assert_eq!(list.link(a).next(), Some(b));
    assert!(list.link(a).prev().is_none());

    assert_eq!(list.head(), Some(c));
    assert_eq!(list.tail(), Some(a));

    assert_eq!(list.pop_front(), Some(c));

    assert!(list.link(b).next().is_none());
    assert_eq!(list.link(b).prev(), Some(a));

    assert_eq!(list.link(a).next(), Some(b));
    assert!(list.link(a).prev().is_none());

    assert_eq!(list.head(), Some(b));
    assert_eq!(list.tail(), Some(a));

    assert_eq!(list.pop_front(), Some(b));

    assert!(list.link(a).next().is_none());
    assert!(list.link(a).prev().is_none());

    assert_eq!(list.head(), Some(a));
    assert_eq!(list.tail(), Some(a));

    assert_eq!(list.pop_front(), Some(a));

    assert!(list.head().is_none());
    assert!(list.tail().is_none());
}

#[test]
fn unlink() {
    let mut list = DoublyLinkedList::new();
    let a = list.push_front(Link::new(()));
    let b = list.push_front(Link::new(()));
    let c = list.push_front(Link::new(()));

    list.unlink(b);

    assert!(list.link(c).next().is_none());
    assert_eq!(list.link(c).prev(), Some(a));

    assert_eq!(list.link(a).next(), Some(c));
    assert!(list.link(a).prev().is_none());

    assert_eq!(list.head(), Some(c));
    assert_eq!(list.tail(), Some(a));
}

#[test]
fn unlink_ends_and_contains() {
    let mut list = DoublyLinkedList::new();
    let a = list.push_front(Link::new(1u8));
    let b = list.push_front(Link::new(2u8));
    let c = list.push_front(Link::new(3u8));
    list.unlink(c);
    assert_eq!(list.head(), Some(b));
    assert!(list.link(b).next().is_none());
    list.unlink(a);
    assert_eq!(list.tail(), Some(b));
    assert!(list.link(b).prev().is_none());
    assert!(list.contains(b));
    assert!(!list.contains(a));
    assert_eq!(*list.link(c).data(), 3);
    assert_eq!(list.replace_data(b, 9), 2);
    assert_eq!(*list.link(b).data(), 9);
}

#[test]
fn pop_empty_list() {
    let mut list: DoublyLinkedList<u8> = DoublyLinkedList::new();
    assert_eq!(list.pop_front(), None);
}
