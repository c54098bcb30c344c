use prognest::channel::add_delta;
use prognest::convert;
use prognest::Progress;

#[test]
fn it_works() {
    let prog = Progress::new(10000);
    let mut rx = prog.subscribe();
    assert_eq!(*rx.borrow_and_update(), 0);
    prog.advance_raw(100);
    prog.advance_raw(200);
    assert_eq!(*rx.borrow_and_update(), 300);
}

#[test]
fn simple_subtask() {
    let prog = Progress::new(10000);
    let mut rx = prog.subscribe();
    assert_eq!(*rx.borrow_and_update(), 0);

    let mut subtask = prog.allocate(5000);
    subtask.set_internal(10000);

    // not recommended: fully exhausts the allocation
    subtask.advance_raw(5000);
    assert_eq!(*rx.borrow_and_update(), 5000);

    // 5000 alloc / 10000 internal * 5000 progress = 2500
    subtask.advance(5000);
    assert_eq!(*rx.borrow_and_update(), 7500);

    // a subtask with 2500 absolute units
    let mut subsubtask = subtask.allocate_fraction(2);
    subsubtask.set_internal(100);
    subsubtask.advance(100);
    // not recommended
    subsubtask.advance(100);

    // well past the root allocation
    assert_eq!(*rx.borrow_and_update(), 12500);
}

fn subtask(prog: Progress, tasks: u64) {
    for i in 0..tasks {
        let p = prog.allocate_fraction(tasks);
        update(p, i);
    }
}

fn update(mut prog: Progress, i: u64) {
    prog.set_internal(400000);
    prog.advance(50000 * i);
}

#[test]
fn subtasks() {
    let prog = Progress::new(10000);
    let mut rx = prog.subscribe();
    assert_eq!(*rx.borrow_and_update(), 0);
    const FRACTION: u64 = 8;
    subtask(prog, FRACTION);
    let fraction = 10000 / FRACTION / FRACTION;
    let progress = FRACTION * (FRACTION - 1) / 2;
    let control = progress * fraction;
    assert!((*rx.borrow_and_update() as i32 - control as i32).abs() <= FRACTION as i32);
}

#[test]
fn two_subtasks_without_thread() {
    let prog = Progress::new(10000);
    let mut rx = prog.subscribe();
    assert_eq!(*rx.borrow_and_update(), 0);
    subtask(prog, 2);
    assert_eq!(*rx.borrow_and_update(), 625);
}

#[test]
fn raw_accumulation_sums_deltas() {
    let prog = Progress::new(10000);
    let mut rx = prog.subscribe();
    let child = prog.allocate(10);
    for d in [7u64, 0, 13, 1000, 1] {
        child.advance_raw(d);
    }
    prog.advance_raw(9);
    assert_eq!(*rx.borrow_and_update(), 1030);
}

#[test]
fn add_delta_adds_and_wraps() {
    let mut total: u64 = 40;
    add_delta(&mut total, 2);
    assert_eq!(total, 42);
    let mut top: u64 = u64::MAX - 1;
    add_delta(&mut top, 3);
    assert_eq!(top, 1);
}

#[test]
fn single_step_conversion() {
    assert_eq!(convert(7, 0, 10, 3), (23, 1));
    assert_eq!(convert(5000, 0, 8000, 10000), (4000, 0));
    assert_eq!(convert(0, 0, 8000, 10000), (0, 0));
    assert_eq!(convert(2, 1, 5, 4), (2, 3));
}

#[test]
fn single_step_advance_returns_delta_and_keeps_remainder() {
    let prog = Progress::new(1000);
    let mut rx = prog.subscribe();
    let mut node = prog.allocate(10);
    node.set_internal(3);
    assert_eq!(node.advance(7), (0, 23));
    assert_eq!(*rx.borrow_and_update(), 23);
    // the remainder 1 is carried: (1 * 10 + 1) / 3 = 3, and 8 * 10 / 3 = 26
    assert_eq!(node.advance(1), (23, 26));
    assert_eq!(*rx.borrow_and_update(), 26);
}

#[test]
fn remainder_conserved_with_unit_allocation() {
    let prog = Progress::new(1);
    let mut rx = prog.subscribe();
    let mut node = prog.allocate(1);
    node.set_internal(3);
    for _ in 0..10 {
        node.advance(1);
    }
    // one step of 10 would push 10 / 3 = 3
    assert_eq!(*rx.borrow_and_update(), 3);
}

#[test]
fn carried_remainder_is_not_scaled_again() {
    let prog = Progress::new(100);
    let mut rx = prog.subscribe();
    let mut node = prog.allocate(3);
    node.set_internal(2);
    assert_eq!(node.advance(1), (0, 1));
    // the carried 1 is already scaled: (1 * 3 + 1) / 2 = 2
    assert_eq!(node.advance(1), (1, 3));
    assert_eq!(*rx.borrow_and_update(), 3);
}

#[test]
fn small_reports_push_the_cumulative_value() {
    let root = Progress::new(10000);
    let mut rx = root.subscribe();
    let mut sub = root.allocate(100);
    sub.set_internal(3);
    assert_eq!(sub.advance(1), (0, 33));
    assert_eq!(sub.advance(1), (33, 66));
    assert_eq!(sub.advance(1), (66, 100));
    assert_eq!(*rx.borrow_and_update(), 100);
}

#[test]
fn zero_report_pushes_nothing() {
    let root = Progress::new(10000);
    let mut sub = root.allocate(100);
    sub.set_internal(3);
    assert_eq!(sub.advance(1), (0, 33));
    assert_eq!(sub.advance(0), (33, 33));
    assert_eq!(sub.advance(0), (33, 33));
    assert_eq!(sub.advance(2), (33, 100));
}

#[test]
fn subdivision_pushes_close_to_allocation() {
    let prog = Progress::new(10000);
    let mut rx = prog.subscribe();
    let parent = prog.allocate(1000);
    for _ in 0..7 {
        let mut child = parent.allocate_fraction(7);
        assert_eq!(*child.allocation(), 142);
        child.set_internal(55);
        child.advance(55);
    }
    assert_eq!(*rx.borrow_and_update(), 994);
}

#[test]
fn no_bounds_enforcement() {
    let prog = Progress::new(100);
    let mut rx = prog.subscribe();
    let mut a = prog.allocate(80);
    let mut b = prog.allocate(80);
    a.set_internal(10);
    b.set_internal(10);
    a.advance(20);
    b.advance(10);
    assert_eq!(*rx.borrow_and_update(), 240);
}

#[test]
fn concrete_scenario() {
    let prog = Progress::new(10000);
    let mut rx = prog.subscribe();
    let mut sub = prog.allocate(8000);
    sub.set_internal(10000);
    sub.advance(5000);
    assert_eq!(*rx.borrow_and_update(), 4000);
}

#[test]
fn concrete_scenario_compounding() {
    let prog = Progress::new(10000);
    let mut rx = prog.subscribe();
    let mut sub = prog.allocate(5000);
    sub.set_internal(10000);
    sub.advance_raw(5000);
    assert_eq!(*rx.borrow_and_update(), 5000);
    assert_eq!(sub.advance(5000), (5000, 7500));
    assert_eq!(*rx.borrow_and_update(), 7500);
}

#[test]
fn reader_sees_latest_value_once() {
    let prog = Progress::new(10000);
    let mut rx = prog.subscribe();
    assert!(rx.has_changed().unwrap());
    assert_eq!(*rx.borrow_and_update(), 0);
    assert!(!rx.has_changed().unwrap());
    prog.advance_raw(3);
    prog.advance_raw(4);
    assert!(rx.has_changed().unwrap());
    assert_eq!(*rx.borrow_and_update(), 7);
    assert!(!rx.has_changed().unwrap());
}

#[test]
fn late_reader_sees_current_value() {
    let prog = Progress::new(10000);
    prog.advance_raw(12);
    let mut rx = prog.subscribe();
    assert!(rx.has_changed().unwrap());
    assert_eq!(*rx.borrow_and_update(), 12);
    assert!(!rx.has_changed().unwrap());
}

#[test]
fn advance_mul_matches_advance() {
    let prog = Progress::new(1000);
    let mut rx = prog.subscribe();
    let mut node = prog.allocate(10);
    node.set_internal(3);
    assert_eq!(node.advance_mul(7), (0, 23));
    assert_eq!(node.advance_mul(1), (23, 26));
    assert_eq!(*rx.borrow_and_update(), 26);
}

#[test]
fn with_internal_joins_given_channel() {
    let (tx, mut rx) = tokio::sync::watch::channel(5u64);
    let mut node = Progress::with_internal(tx, 30, 4);
    assert_eq!(*node.allocation(), 30);
    assert_eq!(node.advance(2), (5, 20));
    assert_eq!(*rx.borrow_and_update(), 20);
    let root = Progress::new(500);
    assert_eq!(*root.allocation(), 500);
}

#[test]
fn advance_raw_returns_totals_and_wraps() {
    let prog = Progress::new(10);
    let mut rx = prog.subscribe();
    assert_eq!(prog.advance_raw(4), (0, 4));
    assert_eq!(prog.advance_raw(u64::MAX), (4, 3));
    assert_eq!(*rx.borrow_and_update(), 3);
}

#[test]
fn children_share_the_root_channel() {
    let root = Progress::new(1000);
    let child = root.allocate_fraction(4);
    let grandchild = child.allocate(10);
    let mut rx = grandchild.subscribe();
    assert_eq!(*child.allocation(), 250);
    root.advance_raw(1);
    child.advance_raw(2);
    assert_eq!(grandchild.advance_raw(3), (3, 6));
    assert_eq!(*rx.borrow_and_update(), 6);
}
