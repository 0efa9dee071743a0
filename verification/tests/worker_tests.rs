use thread_safe_stack::logger::Logger;
use thread_safe_stack::stack::Stack;
use thread_safe_stack::worker::{
    pop_and_log, run_worker, test_stack, SharedState, MAX_OPS_PER_WORKER, OPS_PER_WORKER,
    WORKER_COUNT,
};

fn expected_worker_lines(ops: i32) -> Vec<String> {
    let mut lines = Vec::new();
    for i in 0..ops {
        lines.push(format!("Pushing {}", 3 * i + 1));
        lines.push(format!("Pushing {}", 3 * i + 2));
        lines.push(format!("Popped {}", 3 * i + 2));
        lines.push(format!("Pushing {}", 3 * i + 3));
        lines.push(format!("Popped {}", 3 * i + 3));
        lines.push(format!("Popped {}", 3 * i + 1));
    }
    lines
}

#[test]
fn standard_constants() {
    assert_eq!(WORKER_COUNT, 200);
    assert_eq!(OPS_PER_WORKER, 500);
    assert_eq!(MAX_OPS_PER_WORKER, (i32::MAX / 3) as u32);
}

#[test]
fn one_worker_one_block() {
    let mut stack = Stack::new();
    let mut logger = Logger::new();
    run_worker(&mut stack, &mut logger, 1);
    let expected: Vec<String> = vec![
        String::from("Pushing 1"),
        String::from("Pushing 2"),
        String::from("Popped 2"),
        String::from("Pushing 3"),
        String::from("Popped 3"),
        String::from("Popped 1"),
    ];
    assert_eq!(logger.lines(), &expected);
    assert_eq!(stack.pop(), None);
}

#[test]
fn one_worker_two_blocks() {
    let mut stack = Stack::new();
    let mut logger = Logger::new();
    run_worker(&mut stack, &mut logger, 2);
    let expected: Vec<String> = vec![
        String::from("Pushing 1"),
        String::from("Pushing 2"),
        String::from("Popped 2"),
        String::from("Pushing 3"),
        String::from("Popped 3"),
        String::from("Popped 1"),
        String::from("Pushing 4"),
        String::from("Pushing 5"),
        String::from("Popped 5"),
        String::from("Pushing 6"),
        String::from("Popped 6"),
        String::from("Popped 4"),
    ];
    assert_eq!(logger.lines(), &expected);
    assert_eq!(stack.pop(), None);
}

#[test]
fn zero_blocks_change_nothing() {
    let mut stack = Stack::new();
    stack.push(8);
    let mut logger = Logger::new();
    logger.append(String::from("kept"));
    run_worker(&mut stack, &mut logger, 0);
    assert_eq!(logger.lines(), &vec![String::from("kept")]);
    assert_eq!(stack.pop(), Some(8));
    assert_eq!(stack.pop(), None);
}

#[test]
fn standard_workload_writes_three_thousand_lines() {
    let mut stack = Stack::new();
    let mut logger = Logger::new();
    test_stack(&mut stack, &mut logger);
    assert_eq!(logger.lines().len(), 3000);
    assert_eq!(logger.lines(), &expected_worker_lines(500));
    assert_eq!(logger.lines()[2994], "Pushing 1498");
    assert_eq!(logger.lines()[2999], "Popped 1498");
    assert_eq!(logger.lines()[2998], "Popped 1500");
    assert_eq!(stack.pop(), None);
}

#[test]
fn worker_leaves_earlier_content_alone() {
    let mut stack = Stack::new();
    stack.push(-5);
    stack.push(900);
    let mut logger = Logger::new();
    logger.append(String::from("before"));
    run_worker(&mut stack, &mut logger, 3);
    let mut expected = vec![String::from("before")];
    expected.extend(expected_worker_lines(3));
    assert_eq!(logger.lines(), &expected);
    assert_eq!(stack.pop(), Some(900));
    assert_eq!(stack.pop(), Some(-5));
    assert_eq!(stack.pop(), None);
}

#[test]
fn pop_and_log_on_empty_stack() {
    let mut stack: Stack<i32> = Stack::new();
    let mut logger = Logger::new();
    pop_and_log(&mut stack, &mut logger);
    pop_and_log(&mut stack, &mut logger);
    let expected = vec![
        String::from("Stack was empty, nothing to pop"),
        String::from("Stack was empty, nothing to pop"),
    ];
    assert_eq!(logger.lines(), &expected);
    assert_eq!(stack.pop(), None);
}

#[test]
fn pop_and_log_reports_the_popped_value() {
    let mut stack: Stack<i32> = Stack::new();
    stack.push(17);
    stack.push(-4);
    let mut logger = Logger::new();
    pop_and_log(&mut stack, &mut logger);
    pop_and_log(&mut stack, &mut logger);
    pop_and_log(&mut stack, &mut logger);
    let expected = vec![
        String::from("Popped -4"),
        String::from("Popped 17"),
        String::from("Stack was empty, nothing to pop"),
    ];
    assert_eq!(logger.lines(), &expected);
}

#[test]
fn new_shared_state_is_empty() {
    let mut shared = SharedState::new();
    assert!(shared.logger.lines().is_empty());
    assert_eq!(shared.stack.pop(), None);
}

#[test]
fn workers_in_turn_write_whole_blocks() {
    let workers: usize = 4;
    let ops: u32 = 5;
    let mut shared = SharedState::new();
    for _ in 0..workers {
        shared.run_worker(ops);
    }
    let lines = shared.logger.lines();
    assert_eq!(lines.len(), 120);
    assert_eq!(lines.len(), workers * 5 * 6);
    let own = expected_worker_lines(5);
    for w in 0..workers {
        assert_eq!(&lines[w * 30..(w + 1) * 30], &own[..]);
    }
    assert_eq!(shared.stack.pop(), None);
}
