use ic_asset::gate::{Gate, GateKind, GatePool, Permit};

#[test]
fn gate_refuses_beyond_capacity() {
    let mut g = Gate::new(2);
    let a = g.try_acquire(1).unwrap();
    let b = g.try_acquire(1).unwrap();
    assert!(g.try_acquire(1).is_none());
    assert_eq!(g.in_use(), 2);
    g.release(a);
    assert_eq!(g.in_use(), 1);
    let c = g.try_acquire(1).unwrap();
    g.release(b);
    g.release(c);
    assert_eq!(g.in_use(), 0);
    assert_eq!(g.capacity(), 2);
}

#[test]
fn gate_acquires_several_at_once() {
    let mut g = Gate::new(5);
    let p = g.try_acquire(3).unwrap();
    assert_eq!(p.permits(), 3);
    assert!(g.try_acquire(3).is_none());
    assert_eq!(g.in_use(), 3);
    let q = g.try_acquire(2).unwrap();
    assert_eq!(g.in_use(), 5);
    g.release(p);
    g.release(q);
    assert_eq!(g.in_use(), 0);
}

#[test]
fn zero_capacity_gate_admits_nothing() {
    let mut g = Gate::new(0);
    assert!(g.try_acquire(1).is_none());
    assert_eq!(g.in_use(), 0);
}

#[test]
fn five_chunks_through_gate_of_two() {
    let mut pool = GatePool::new(2, 10, 10);
    let mut waiting: Vec<usize> = vec![0, 1, 2, 3, 4];
    let mut inside: Vec<(usize, Permit)> = Vec::new();
    let mut done: Vec<usize> = Vec::new();
    let mut most = 0;
    while done.len() < 5 {
        let mut still = Vec::new();
        for c in waiting {
            match pool.try_acquire(GateKind::Workflow, 1) {
                Some(p) => inside.push((c, p)),
                None => still.push(c),
            }
        }
        waiting = still;
        most = most.max(inside.len());
        assert!(pool.workflow.in_use() <= 2);
        let (c, p) = inside.remove(0);
        pool.release(GateKind::Workflow, p);
        done.push(c);
    }
    assert_eq!(most, 2);
    done.sort();
    assert_eq!(done, vec![0, 1, 2, 3, 4]);
    assert_eq!(pool.workflow.in_use(), 0);
}

#[test]
fn pool_gates_are_independent() {
    let mut pool = GatePool::new(1, 2, 3);
    let w = pool.try_acquire(GateKind::Workflow, 1).unwrap();
    let s = pool.try_acquire(GateKind::Submission, 2).unwrap();
    let t = pool.try_acquire(GateKind::Wait, 3).unwrap();
    assert!(pool.try_acquire(GateKind::Workflow, 1).is_none());
    assert!(pool.try_acquire(GateKind::Submission, 1).is_none());
    assert!(pool.try_acquire(GateKind::Wait, 1).is_none());
    pool.release(GateKind::Submission, s);
    assert_eq!(pool.workflow.in_use(), 1);
    assert_eq!(pool.submission.in_use(), 0);
    assert_eq!(pool.wait.in_use(), 3);
    pool.release(GateKind::Workflow, w);
    pool.release(GateKind::Wait, t);
    assert_eq!(pool.wait.in_use(), 0);
}
