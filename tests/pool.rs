use thread_pool::validate_size;
use thread_pool::JobQueue;
use thread_pool::PoolCreationError;
use thread_pool::Received;
use thread_pool::WorkerSet;

fn job_id(r: Received<u32>) -> Option<u32> {
    match r {
        Received::Job(j) => Some(j),
        _ => None,
    }
}

#[test]
fn zero_size_is_a_configuration_error() {
    assert_eq!(validate_size(0), Err(PoolCreationError));
}

#[test]
fn positive_sizes_are_valid() {
    assert_eq!(validate_size(1), Ok(1));
    assert_eq!(validate_size(4), Ok(4));
    assert_eq!(validate_size(usize::MAX), Ok(usize::MAX));
}

#[test]
fn new_spawns_exactly_size_workers_with_ids_in_order() {
    let mut calls: Vec<usize> = Vec::new();
    let cell = std::cell::RefCell::new(&mut calls);
    let set = WorkerSet::new(4, |id| {
        cell.borrow_mut().push(id);
        id * 10
    });
    assert_eq!(set.len(), 4);
    assert_eq!(calls, vec![0, 1, 2, 3]);
}

#[test]
fn build_zero_spawns_nothing() {
    let mut spawned = 0usize;
    let cell = std::cell::RefCell::new(&mut spawned);
    let r = WorkerSet::build(0, |id| {
        **cell.borrow_mut() += 1;
        id
    });
    assert!(matches!(r, Err(PoolCreationError)));
    assert_eq!(spawned, 0);
}

#[test]
fn build_positive_gives_a_usable_set() {
    let r = WorkerSet::build(3, |id| id + 100);
    let mut set = match r {
        Ok(set) => set,
        Err(_) => panic!("a positive size must be accepted"),
    };
    assert_eq!(set.len(), 3);
    let taken = set.take_threads();
    assert_eq!(taken, vec![(0, Some(100)), (1, Some(101)), (2, Some(102))]);
}

#[test]
fn shutdown_leaves_no_joinable_handle() {
    let mut set = WorkerSet::new(3, |id| id);
    let first = set.take_threads();
    assert_eq!(first, vec![(0, Some(0)), (1, Some(1)), (2, Some(2))]);
    let second = set.take_threads();
    assert_eq!(second, vec![(0, None), (1, None), (2, None)]);
    assert_eq!(set.len(), 3);
}

#[test]
fn queue_hands_out_jobs_in_submission_order() {
    let mut q: JobQueue<u32> = JobQueue::new();
    q.attach_receiver();
    for j in [7u32, 8, 9] {
        assert!(q.push(j).is_ok());
    }
    assert_eq!(q.pending_len(), 3);
    assert_eq!(job_id(q.receive()), Some(7));
    assert_eq!(job_id(q.receive()), Some(8));
    assert_eq!(job_id(q.receive()), Some(9));
    assert!(matches!(q.receive(), Received::Empty));
}

#[test]
fn single_worker_runs_a_b_c_in_order() {
    let mut q: JobQueue<char> = JobQueue::new();
    q.attach_receiver();
    let _ = q.push('a');
    let _ = q.push('b');
    let _ = q.push('c');
    q.close();
    let mut ran: Vec<char> = Vec::new();
    loop {
        match q.receive() {
            Received::Job(j) => ran.push(j),
            Received::Empty => panic!("a closed queue never asks to wait"),
            Received::Disconnected => break,
        }
    }
    assert_eq!(ran, vec!['a', 'b', 'c']);
}

#[test]
fn every_job_accepted_before_close_runs_exactly_once() {
    let n: u32 = 100;
    let mut q: JobQueue<u32> = JobQueue::new();
    q.attach_receiver();
    for j in 0..n {
        assert!(q.push(j).is_ok());
    }
    q.close();
    let mut counter: Vec<u32> = vec![0; n as usize];
    loop {
        match q.receive() {
            Received::Job(j) => counter[j as usize] += 1,
            Received::Empty => panic!("a closed queue never asks to wait"),
            Received::Disconnected => break,
        }
    }
    assert!(counter.iter().all(|c| *c == 1));
    assert_eq!(counter.iter().sum::<u32>(), n);
}

#[test]
fn size_one_pool_serializes_jobs_on_its_worker() {
    let queue = std::cell::RefCell::new(JobQueue::<u32>::new());
    let mut set = WorkerSet::new(1, |id| {
        queue.borrow_mut().attach_receiver();
        id
    });
    let mut q = queue.into_inner();
    assert_eq!(set.len(), 1);
    assert_eq!(q.receiver_count(), 1);
    let worker = 0usize;
    let mut ran: Vec<(usize, u32)> = Vec::new();
    for j in 1..=5u32 {
        assert!(q.push(j).is_ok());
        if j % 2 == 0 {
            while let Received::Job(x) = q.receive() {
                ran.push((worker, x));
            }
        }
    }
    q.close();
    loop {
        match q.receive() {
            Received::Job(x) => ran.push((worker, x)),
            Received::Empty => panic!("a closed queue never asks to wait"),
            Received::Disconnected => break,
        }
    }
    q.detach_receiver();
    assert_eq!(ran, vec![(0, 1), (0, 2), (0, 3), (0, 4), (0, 5)]);
    assert_eq!(set.take_threads(), vec![(0, Some(0))]);
}

#[test]
fn closed_queue_refuses_new_jobs_and_hands_them_back() {
    let mut q: JobQueue<u32> = JobQueue::new();
    q.attach_receiver();
    assert!(q.is_open());
    assert_eq!(q.push(1), Ok(()));
    q.close();
    assert!(!q.is_open());
    assert_eq!(q.push(2), Err(2));
    assert_eq!(q.pending_len(), 1);
    assert_eq!(job_id(q.receive()), Some(1));
    assert!(matches!(q.receive(), Received::Disconnected));
    assert!(matches!(q.receive(), Received::Disconnected));
}

#[test]
fn open_empty_queue_asks_the_worker_to_wait() {
    let mut q: JobQueue<u32> = JobQueue::new();
    q.attach_receiver();
    assert!(matches!(q.receive(), Received::Empty));
    assert_eq!(q.pending_len(), 0);
    let _ = q.push(5);
    assert_eq!(job_id(q.receive()), Some(5));
    assert!(matches!(q.receive(), Received::Empty));
}

#[test]
fn create_workers_of_size_zero_is_empty_and_spawns_nothing() {
    let mut spawned = 0usize;
    let cell = std::cell::RefCell::new(&mut spawned);
    let mut set = WorkerSet::create_workers(0, |id| {
        **cell.borrow_mut() += 1;
        id
    });
    assert_eq!(set.len(), 0);
    assert_eq!(set.take_threads(), vec![]);
    assert_eq!(spawned, 0);
}

#[test]
fn create_workers_keeps_each_handle_under_its_id() {
    let mut set = WorkerSet::create_workers(3, |id| format!("w{id}"));
    assert_eq!(
        set.take_threads(),
        vec![
            (0, Some("w0".to_string())),
            (1, Some("w1".to_string())),
            (2, Some("w2".to_string())),
        ]
    );
}

#[test]
fn queue_without_receivers_refuses_jobs() {
    let mut q: JobQueue<u32> = JobQueue::new();
    assert_eq!(q.receiver_count(), 0);
    assert_eq!(q.push(1), Err(1));
    assert_eq!(q.pending_len(), 0);
    q.attach_receiver();
    q.attach_receiver();
    assert_eq!(q.push(2), Ok(()));
    q.detach_receiver();
    assert_eq!(q.push(3), Ok(()));
    q.detach_receiver();
    assert_eq!(q.receiver_count(), 0);
    assert_eq!(q.push(4), Err(4));
    assert_eq!(q.pending_len(), 2);
    assert!(q.is_open());
}
