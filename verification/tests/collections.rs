use ockam::queue::{new_queue, Addressable, AddressedVec, Drain, Queue};
use ockam::task::{Poll, Task, TaskQueue};
use ockam::Address;
use ockam::Error;
use std::cell::RefCell;
use std::collections::VecDeque;
use std::rc::Rc;

#[test]
fn test_queue() {
    struct Item;

    let mut queue = new_queue();

    match queue.enqueue(Item {}) {
        Ok(_) => {}
        Err(_) => panic!(),
    };
    match queue.dequeue() {
        Some(_) => {}
        None => panic!(),
    };
}

#[test]
fn test_queue_order() {
    let mut queue = new_queue();
    queue.enqueue(1u32).unwrap();
    queue.enqueue(2u32).unwrap();
    queue.enqueue(3u32).unwrap();
    assert!(!Queue::is_empty(&queue));
    assert_eq!(queue.dequeue(), Some(1));
    assert_eq!(queue.dequeue(), Some(2));
    assert_eq!(queue.dequeue(), Some(3));
    assert_eq!(queue.dequeue(), None);
    assert!(Queue::is_empty(&queue));
}

#[test]
fn test_addressed_vec_drain() {
    let mut q = AddressedVec {
        address: Address::WorkerAddress(b"mailbox".to_vec()),
        vec: VecDeque::new(),
    };
    q.enqueue(10u8).unwrap();
    q.enqueue(20u8).unwrap();
    let drained = q.drain();
    assert_eq!(drained, vec![10u8, 20u8]);
    assert!(q.is_empty());
    assert_eq!(q.address(), Address::WorkerAddress(b"mailbox".to_vec()));
}

#[test]
fn test_task_queue() {
    struct Adder {
        state: Rc<RefCell<i32>>,
    }

    impl Task<i32, i32> for Adder {
        fn run(&mut self, data: i32) -> Result<i32, Error> {
            *self.state.borrow_mut() += data;
            Ok(*self.state.borrow())
        }

        fn state(&self) -> Option<i32> {
            Some(*self.state.borrow())
        }
    }

    let state: Rc<RefCell<i32>> = Rc::new(RefCell::new(0 as i32));

    let adder = Adder {
        state: state.clone(),
    };

    let mut task_queue = TaskQueue::new(adder);

    task_queue.enqueue(1);
    task_queue.enqueue(2);
    task_queue.safe_poll();

    assert_eq!(3, *state.borrow());
}

#[test]
fn test_task_queue_stops_at_error() {
    struct Failing;

    impl Task<i32, i32> for Failing {
        fn run(&mut self, _data: i32) -> Result<i32, Error> {
            Err(Error::WorkerRuntime)
        }

        fn state(&self) -> Option<i32> {
            None
        }
    }

    let mut task_queue = TaskQueue::new(Failing);
    task_queue.enqueue(1);
    assert_eq!(task_queue.poll(), Err(Error::WorkerRuntime));
}
