use kfs::memory::allocator::boxed::Box;
use kfs::string::{String, ToString};
use kfs::utils::queue::Queue;
use kfs::vec::Vec;

#[test]
fn vector_basics() {
    let mut x: Vec<u32> = Vec::new();
    let mut y: Vec<u32> = Vec::with_capacity(10);
    assert_eq!(x.capacity(), 0);
    assert_eq!(y.capacity(), 10);
    y.push(5);
    y.push(10);
    y.push(15);
    assert_eq!(y.len(), 3);
    x.push(10);
    assert!(x.capacity() > 0);
    assert_eq!(x.capacity(), 8);
}

#[test]
fn vector_reserve() {
    let mut x: Vec<u32> = Vec::new();
    assert_eq!(x.capacity(), 0);
    x.reserve(10);
    assert_eq!(x.capacity(), 10);
}

#[test]
fn vector_slices() {
    let mut x: Vec<u32> = Vec::with_capacity(10);
    x.push(5);
    x.push(10);
    x.push(15);
    assert_eq!(x.as_slice(), [5, 10, 15]);
}

#[test]
fn vector_insertion() {
    let mut x: Vec<u32> = Vec::new();
    for i in 0..5 {
        x.insert(i, i as u32);
    }
    assert_eq!(x.as_slice(), [0, 1, 2, 3, 4]);
    x.insert(3, 10);
    x.insert(3, 10);
    x.insert(3, 10);
    assert_eq!(x.as_slice(), [0, 1, 2, 10, 10, 10, 3, 4]);
    let n = x.len();
    x.insert(n, 15);
    assert_eq!(x.as_slice(), [0, 1, 2, 10, 10, 10, 3, 4, 15]);
}

#[test]
fn vector_extend_from_slice() {
    let mut x: Vec<u32> = Vec::new();
    x.extend_from_slice(&[0, 1, 2, 3, 4, 5, 6, 7]);
    assert_eq!(x.as_slice(), [0, 1, 2, 3, 4, 5, 6, 7]);
    assert_eq!(x.capacity(), 8);
    x.extend_from_slice(&[0, 1, 2, 3, 4]);
    assert_eq!(x.as_slice(), [0, 1, 2, 3, 4, 5, 6, 7, 0, 1, 2, 3, 4]);
    assert_eq!(x.capacity(), 21);
}

#[test]
fn vector_remove() {
    let mut x: Vec<u32> = Vec::new();
    x.extend_from_slice(&[0, 1, 2, 3, 4, 5]);
    let base_len = x.len();
    assert_eq!(x.remove(1), Some(1));
    assert_eq!(x.len(), base_len - 1);
    assert_eq!(x.remove(3), Some(4));
    assert_eq!(x.len(), base_len - 2);
    assert_eq!(x.remove(50), None);
    assert_eq!(x.is_empty(), false);
    x.clear();
    assert_eq!(x.is_empty(), true);
}

#[test]
fn vector_pop_after_push() {
    let mut x: Vec<u32> = Vec::new();
    x.push(7);
    x.push(9);
    assert_eq!(x.pop(), Some(9));
    assert_eq!(x.pop(), Some(7));
    assert_eq!(x.pop(), None);
}

#[test]
fn string_basics() {
    let x = String::new();
    let y = String::from_str("abcdefgh");
    let z = String::from_str("42");
    assert_eq!(x.as_str(), "");
    assert_eq!(y.as_str(), "abcdefgh");
    assert_eq!(z.as_bytes(), [52, 50]);
}

#[test]
fn string_capacity() {
    let x = String::with_capacity(15);
    let mut y = String::new();
    assert!(x.capacity() >= 15);
    assert_eq!(y.capacity(), 0);
    y.reserve(15);
    assert!(y.capacity() >= 15);
}

#[test]
fn string_push_pop() {
    let mut x = String::new();
    assert_eq!(x.capacity(), 0);
    assert_eq!(x.len(), 0);
    x.push('a');
    assert!(x.capacity() > 0);
    assert_eq!(x.len(), 1);
    x.push('b');
    x.push('c');
    x.push('d');
    assert_eq!(x.as_str(), "abcd");
    assert_eq!(x.pop(), Some('d'));
    assert_eq!(x.pop(), Some('c'));
    assert_eq!(x.pop(), Some('b'));
    assert_eq!(x.pop(), Some('a'));
    assert_eq!(x.pop(), None);
}

#[test]
fn string_clear() {
    let mut x = String::from_str("abcdef");
    assert_eq!(x.len(), 6);
    assert!(x.capacity() > 0);
    x.clear();
    assert_eq!(x.len(), 0);
    assert_eq!(x.as_str(), "");
}

#[test]
fn string_insert_and_remove() {
    let mut x = String::from_str("ace");
    x.insert(1, 'b');
    x.insert_str(3, "d");
    assert_eq!(x.as_str(), "abcde");
    assert_eq!(x.remove(0), 'a');
    assert_eq!(x.as_str(), "bcde");
    x.push_str("fg");
    assert_eq!(x.as_str(), "bcdefg");
    assert!(x.try_push('h').is_ok());
    assert_eq!(x.as_str(), "bcdefgh");
}

#[test]
fn string_keeps_low_byte_of_chars() {
    let mut x = String::new();
    x.push('\u{141}');
    assert_eq!(x.as_bytes(), [0x41]);
}

#[test]
fn str_to_string() {
    let s = <str as ToString>::to_string("hello");
    assert_eq!(s.as_str(), "hello");
}

#[test]
fn queue_is_first_in_first_out() {
    let mut q: Queue<u32> = Queue::new();
    assert!(q.is_empty());
    assert_eq!(q.front(), None);
    assert_eq!(q.peek(), None);
    q.push(1);
    q.push(2);
    q.push(3);
    assert_eq!(q.len(), 3);
    assert_eq!(q.front(), Some(&1));
    assert_eq!(q.get(2), Some(&3));
    assert_eq!(q.get(3), None);
    assert_eq!(q.peek(), Some(1));
    assert_eq!(q.pop(), 1);
    assert_eq!(q.pop(), 2);
    if let Some(x) = q.front_mut() {
        *x = 30;
    }
    assert_eq!(q.pop(), 30);
    assert!(q.is_empty());
}

#[test]
fn box_holds_value() {
    let x = Box::new(5);
    assert_eq!(*x.as_ref(), 5);
    let y = Box::new(10);
    assert_eq!(*y.as_ref(), 10);
    let z = Box::try_new(10);
    assert_eq!(z.is_ok(), true);
    let w = Box::write(x, 12);
    assert_eq!(*w.as_ref(), 12);
    let k = Box::knew([5u8; 10]);
    assert_eq!(*k.as_ref(), [5u8; 10]);
    assert!(Box::ktry_new(1u8).is_ok());
}

#[test]
fn vec_as_mut_slice_writes_through() {
    let mut x: Vec<u32> = Vec::new();
    x.push(1);
    x.push(2);
    x.push(3);
    x.as_mut_slice()[1] = 20;
    assert_eq!(x.as_slice(), [1, 20, 3]);
    assert_eq!(x.len(), 3);
}
