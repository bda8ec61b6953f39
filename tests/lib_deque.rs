use array_deque::ArrayDeque;

#[test]
fn lib_push_pop() {
    let mut deque = ArrayDeque::new(3);
    deque.push_back(1);
    deque.push_back(2);
    deque.push_back(3);
    assert_eq!(deque.pop_front(), Some(1));
    assert_eq!(deque.pop_back(), Some(3));
    assert_eq!(deque.pop_front(), Some(2));
    assert_eq!(deque.pop_front(), None);
}

#[test]
fn lib_push_front_back() {
    let mut deque = ArrayDeque::new(3);
    deque.push_front(1);
    deque.push_front(2);
    deque.push_back(3);
    assert_eq!(deque.pop_front(), Some(2));
    assert_eq!(deque.pop_back(), Some(3));
    assert_eq!(deque.pop_front(), Some(1));
    assert_eq!(deque.pop_front(), None);
}

#[test]
fn lib_iter() {
    let mut deque = ArrayDeque::new(5);
    deque.push_back(1);
    deque.push_back(2);
    deque.push_back(3);
    let mut iter = deque.iter();
    assert_eq!(iter.next(), Some(&1));
    assert_eq!(iter.next(), Some(&2));
    assert_eq!(iter.next(), Some(&3));
    assert_eq!(iter.next(), None);
}

#[test]
fn lib_clear() {
    let mut deque = ArrayDeque::new(3);
    deque.push_back(1);
    deque.push_back(2);
    deque.clear();
    assert!(deque.is_empty());
    assert_eq!(deque.len(), 0);
}

#[test]
fn lib_capacity() {
    let deque = ArrayDeque::<i32>::new(5);
    assert_eq!(deque.capacity(), 5);
    assert!(deque.is_empty());
}

#[test]
fn lib_clone() {
    let mut deque = ArrayDeque::new(3);
    deque.push_back(1);
    deque.push_back(2);
    let cloned_deque = deque.clone();
    assert_eq!(cloned_deque.len(), 2);
    assert_eq!(*cloned_deque.get(0), 1);
    assert_eq!(*cloned_deque.get(1), 2);
}

#[test]
fn lib_from_iter() {
    let vec = vec![1, 2, 3];
    let deque: ArrayDeque<_> = ArrayDeque::from_iter(vec);
    assert_eq!(deque.len(), 3);
    assert_eq!(*deque.get(0), 1);
    assert_eq!(*deque.get(1), 2);
    assert_eq!(*deque.get(2), 3);
}

#[test]
fn lib_from_slice() {
    let slice = [1, 2, 3];
    let deque: ArrayDeque<_> = ArrayDeque::from(&slice[..]);
    assert_eq!(deque.len(), 3);
    assert_eq!(*deque.get(0), 1);
    assert_eq!(*deque.get(1), 2);
    assert_eq!(*deque.get(2), 3);
}

#[test]
fn lib_from_array() {
    let array = [1, 2, 3];
    let deque: ArrayDeque<_> = ArrayDeque::from(array);
    assert_eq!(deque.len(), 3);
    assert_eq!(*deque.get(0), 1);
    assert_eq!(*deque.get(1), 2);
    assert_eq!(*deque.get(2), 3);
}

#[test]
fn lib_index() {
    let mut deque = ArrayDeque::new(5);
    deque.push_back(1);
    deque.push_back(2);
    deque.push_back(3);
    assert_eq!(*deque.get(0), 1);
    assert_eq!(*deque.get(1), 2);
    assert_eq!(*deque.get(2), 3);
}

#[test]
fn lib_index_mut() {
    let mut deque = ArrayDeque::new(5);
    deque.push_back(1);
    deque.push_back(2);
    deque.push_back(3);
    *deque.get_mut(0) = 10;
    assert_eq!(*deque.get(0), 10);
    assert_eq!(*deque.get(1), 2);
    assert_eq!(*deque.get(2), 3);
}

#[test]
fn lib_extend() {
    let mut deque = ArrayDeque::new(5);
    deque.extend(vec![1, 2, 3]);
    assert_eq!(deque.len(), 3);
    assert_eq!(*deque.get(0), 1);
    assert_eq!(*deque.get(1), 2);
    assert_eq!(*deque.get(2), 3);
}

#[test]
fn lib_into_iter() {
    let mut deque = ArrayDeque::new(5);
    deque.push_back(1);
    deque.push_back(2);
    deque.push_back(3);
    let mut iter = deque.into_iter();
    assert_eq!(iter.next(), Some(1));
    assert_eq!(iter.next(), Some(2));
    assert_eq!(iter.next(), Some(3));
    assert_eq!(iter.next(), None);
}

#[test]
fn lib_into_iter_empty() {
    let deque: ArrayDeque<i32> = ArrayDeque::new(5);
    let mut iter = deque.into_iter();
    assert_eq!(iter.next(), None);
}

#[test]
fn lib_into_iter_full() {
    let mut deque = ArrayDeque::new(3);
    deque.push_back(1);
    deque.push_back(2);
    deque.push_back(3);
    let mut iter = deque.into_iter();
    assert_eq!(iter.next(), Some(1));
    assert_eq!(iter.next(), Some(2));
    assert_eq!(iter.next(), Some(3));
    assert_eq!(iter.next(), None);
}

#[test]
fn lib_into_iter_partial() {
    let mut deque = ArrayDeque::new(5);
    deque.push_back(1);
    deque.push_back(2);
    let mut iter = deque.into_iter();
    assert_eq!(iter.next(), Some(1));
    assert_eq!(iter.next(), Some(2));
    assert_eq!(iter.next(), None);
}

#[test]
fn lib_iter_empty() {
    let deque: ArrayDeque<i32> = ArrayDeque::new(5);
    let mut iter = deque.iter();
    assert_eq!(iter.next(), None);
}

#[test]
fn lib_iter_full() {
    let mut deque = ArrayDeque::new(3);
    deque.push_back(1);
    deque.push_back(2);
    deque.push_back(3);
    let mut iter = deque.iter();
    assert_eq!(iter.next(), Some(&1));
    assert_eq!(iter.next(), Some(&2));
    assert_eq!(iter.next(), Some(&3));
    assert_eq!(iter.next(), None);
}

#[test]
fn lib_iter_partial() {
    let mut deque = ArrayDeque::new(5);
    deque.push_back(1);
    deque.push_back(2);
    let mut iter = deque.iter();
    assert_eq!(iter.next(), Some(&1));
    assert_eq!(iter.next(), Some(&2));
    assert_eq!(iter.next(), None);
}

#[test]
fn lib_is_empty() {
    let deque: ArrayDeque<i32> = ArrayDeque::new(5);
    assert!(deque.is_empty());
    assert_eq!(deque.len(), 0);
}

#[test]
fn lib_is_full() {
    let mut deque = ArrayDeque::new(3);
    assert!(!deque.is_full());
    deque.push_back(1);
    deque.push_back(2);
    assert!(!deque.is_full());
    deque.push_back(3);
    assert!(deque.is_full());
}

#[test]
fn lib_clear_empty() {
    let mut deque = ArrayDeque::<()>::new(3);
    deque.clear();
    assert!(deque.is_empty());
    assert_eq!(deque.len(), 0);
}

#[test]
fn lib_clear_non_empty() {
    let mut deque = ArrayDeque::new(3);
    deque.push_back(1);
    deque.push_back(2);
    deque.clear();
    assert!(deque.is_empty());
    assert_eq!(deque.len(), 0);
}
