use std::cell::Cell;
use std::rc::Rc;

use my_vec::MyVec;

#[test]
fn it_works() {
    let mut vec = MyVec::<usize>::new();
    vec.push(1);
    vec.push(2);
    vec.push(3);
    vec.push(4);
    vec.push(5);
    assert_eq!(vec.get(3), Some(&4));
    assert_eq!(vec.capacity(), 8);
    assert_eq!(vec.len(), 5);
}

#[test]
fn fresh_array_is_empty() {
    let vec = MyVec::<i32>::new();
    assert_eq!(vec.len(), 0);
    assert_eq!(vec.capacity(), 0);
    assert_eq!(vec.get(0), None);
}

#[test]
fn five_integers_scenario() {
    let mut vec = MyVec::<i32>::new();
    for v in 1..=5 {
        vec.push(v);
    }
    assert_eq!(vec.len(), 5);
    assert_eq!(vec.capacity(), 8);
    assert_eq!(vec.get(3), Some(&4));
    assert_eq!(vec.get(10), None);
}

#[test]
fn capacity_follows_growth_sequence() {
    let mut vec = MyVec::<u64>::new();
    assert_eq!(vec.capacity(), 0);
    for n in 1..=70usize {
        vec.push(n as u64);
        let expected = if n <= 4 {
            4
        } else if n <= 8 {
            8
        } else if n <= 16 {
            16
        } else if n <= 32 {
            32
        } else if n <= 64 {
            64
        } else {
            128
        };
        assert_eq!(vec.capacity(), expected);
        assert_eq!(vec.len(), n);
    }
}

#[test]
fn values_read_back_across_reallocations() {
    let mut vec = MyVec::<String>::new();
    for i in 0..20usize {
        vec.push(format!("item {}", i));
        for j in 0..=i {
            assert_eq!(vec.get(j), Some(&format!("item {}", j)));
        }
        assert_eq!(vec.get(i + 1), None);
        assert_eq!(vec.get(usize::MAX), None);
    }
}

#[test]
fn growth_keeps_values_at_their_indices() {
    let mut vec = MyVec::<u8>::new();
    for v in [10u8, 20, 30, 40] {
        vec.push(v);
    }
    assert_eq!(vec.capacity(), 4);
    vec.push(50);
    assert_eq!(vec.capacity(), 8);
    assert_eq!(vec.get(0), Some(&10));
    assert_eq!(vec.get(1), Some(&20));
    assert_eq!(vec.get(2), Some(&30));
    assert_eq!(vec.get(3), Some(&40));
    assert_eq!(vec.get(4), Some(&50));
    assert_eq!(vec.get(5), None);
}

struct DropCounter {
    drops: Rc<Cell<usize>>,
}

impl Drop for DropCounter {
    fn drop(&mut self) {
        self.drops.set(self.drops.get() + 1);
    }
}

#[test]
fn each_element_is_destroyed_once() {
    let counters: Vec<Rc<Cell<usize>>> = (0..9).map(|_| Rc::new(Cell::new(0))).collect();
    {
        let mut vec = MyVec::<DropCounter>::new();
        for c in &counters {
            vec.push(DropCounter { drops: Rc::clone(c) });
        }
        assert_eq!(vec.capacity(), 16);
        for c in &counters {
            assert_eq!(c.get(), 0);
        }
    }
    for c in &counters {
        assert_eq!(c.get(), 1);
    }
}
