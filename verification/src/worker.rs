//! The workload: the fixed run of pushes and pops that every worker performs
//! on the shared stack while it alone holds the stack and the log.

use vstd::prelude::*;
use crate::stack::{pop_rest, pop_value, Stack};
use crate::logger::{empty_text, popped_text, pushing_text, Event, Logger};

verus! {

/// How many workers share one stack and one log.
pub const WORKER_COUNT: usize = 200;

/// How many blocks of operations one worker runs.
pub const OPS_PER_WORKER: u32 = 500;

/// The largest number of blocks whose values still fit the element type.
pub const MAX_OPS_PER_WORKER: u32 = 715_827_882;

/// The line that a pop on a stack holding `s` adds to the log.
pub open spec fn pop_text(s: Seq<i32>) -> Seq<char> {
    match pop_value(s) {
        Some(v) => popped_text(v as int),
        None => empty_text(),
    }
}

/// Line number `k` of a worker's own log, counted from zero. Block `i` pushes
/// `3i+1` and `3i+2`, pops, pushes `3i+3`, and pops twice, so it reads: pushing
/// `3i+1`, pushing `3i+2`, popped `3i+2`, pushing `3i+3`, popped `3i+3`, popped
/// `3i+1`.
pub open spec fn worker_line(k: int) -> Seq<char> {
    let i = k / 6;
    let step = k % 6;
    if step == 0 {
        pushing_text(3 * i + 1)
    } else if step == 1 {
        pushing_text(3 * i + 2)
    } else if step == 2 {
        popped_text(3 * i + 2)
    } else if step == 3 {
        pushing_text(3 * i + 3)
    } else if step == 4 {
        popped_text(3 * i + 3)
    } else {
        popped_text(3 * i + 1)
    }
}

/// The whole log of one worker that runs `ops` blocks: six lines a block.
pub open spec fn worker_lines(ops: nat) -> Seq<Seq<char>> {
    Seq::new(6 * ops, |k: int| worker_line(k))
}

/// Pops once and logs what came of it: the popped value, or that the stack was
/// empty. An empty stack is no error.
pub fn pop_and_log(stack: &mut Stack<i32>, logger: &mut Logger)
    ensures
        final(stack)@ == pop_rest(old(stack)@),
        final(logger)@ == old(logger)@.push(pop_text(old(stack)@)),
{
    match stack.pop() {
        Some(value) => logger.log(Event::Popped(value)),
        None => logger.log(Event::Empty),
    }
}

/// Logs a push and performs it.
fn push_and_log(stack: &mut Stack<i32>, logger: &mut Logger, value: i32)
    ensures
        final(stack)@ == old(stack)@.push(value),
        final(logger)@ == old(logger)@.push(pushing_text(value as int)),
{
    logger.log(Event::Pushing(value));
    stack.push(value);
}

/// Runs `ops_per_worker` blocks of six operations each, block `i` with the
/// values `3i+1`, `3i+2` and `3i+3`. The log grows by exactly the worker's
/// lines, whatever the stack held before, and the stack ends as it began.
pub fn run_worker(stack: &mut Stack<i32>, logger: &mut Logger, ops_per_worker: u32)
    requires
        ops_per_worker <= MAX_OPS_PER_WORKER,
    ensures
        final(stack)@ == old(stack)@,
        final(logger)@ == old(logger)@ + worker_lines(ops_per_worker as nat),
{
    let mut i: u32 = 0;
    assert(logger@ =~= old(logger)@ + worker_lines(0));
    while i < ops_per_worker
        invariant
            i <= ops_per_worker <= MAX_OPS_PER_WORKER,
            stack@ == old(stack)@,
            logger@ == old(logger)@ + worker_lines(i as nat),
        decreases ops_per_worker - i,
    {
        let base: i32 = (i * 3) as i32;
        let ghost below = stack@;
        let ghost logged = logger@;
        let first: i32 = base + 1;
        push_and_log(stack, logger, first);
        push_and_log(stack, logger, base + 2);
        pop_and_log(stack, logger);
        assert(stack@ =~= below.push(first));
        push_and_log(stack, logger, base + 3);
        pop_and_log(stack, logger);
        assert(stack@ =~= below.push(first));
        pop_and_log(stack, logger);
        assert(stack@ =~= below);
        proof {
            let k = 6 * (i as int);
            assert(worker_line(k) == pushing_text(base + 1));
            assert(worker_line(k + 1) == pushing_text(base + 2));
            assert(worker_line(k + 2) == popped_text(base + 2));
            assert(worker_line(k + 3) == pushing_text(base + 3));
            assert(worker_line(k + 4) == popped_text(base + 3));
            assert(worker_line(k + 5) == popped_text(base + 1));
            assert(logger@ =~= old(logger)@ + worker_lines((i + 1) as nat));
        }
        i = i + 1;
    }
}

/// The standard workload of one worker: `OPS_PER_WORKER` blocks.
pub fn test_stack(stack: &mut Stack<i32>, logger: &mut Logger)
    ensures
        final(stack)@ == old(stack)@,
        final(logger)@ == old(logger)@ + worker_lines(OPS_PER_WORKER as nat),
{
    run_worker(stack, logger, OPS_PER_WORKER);
}

/// One stack and one log that all workers share. Whoever shares it between
/// threads guards the pair as one unit, so that a worker's operations and its
/// lines can never be parted by another worker's.
pub struct SharedState {
    pub stack: Stack<i32>,
    pub logger: Logger,
}

impl SharedState {
    /// An empty stack and an empty log.
    pub fn new() -> (shared: Self)
        ensures
            shared.stack@ == Seq::<i32>::empty(),
            shared.logger@ == Seq::<Seq<char>>::empty(),
    {
        SharedState { stack: Stack::new(), logger: Logger::new() }
    }

    /// One worker's whole run on the shared pair, for the holder of exclusive
    /// access.
    pub fn run_worker(&mut self, ops_per_worker: u32)
        requires
            ops_per_worker <= MAX_OPS_PER_WORKER,
        ensures
            final(self).stack@ == old(self).stack@,
            final(self).logger@ == old(self).logger@ + worker_lines(ops_per_worker as nat),
    {
        run_worker(&mut self.stack, &mut self.logger, ops_per_worker);
    }
}

/// The log after `workers` workers ran one after the other, each for `ops`
/// blocks, on a log that began empty.
pub open spec fn serial_lines(workers: nat, ops: nat) -> Seq<Seq<char>>
    decreases workers,
{
    if workers == 0 {
        Seq::empty()
    } else {
        serial_lines((workers - 1) as nat, ops) + worker_lines(ops)
    }
}

/// The stretch of `log` that the worker in place `w` of the order wrote, when
/// every worker writes `6 * ops` lines.
pub open spec fn worker_part(log: Seq<Seq<char>>, w: nat, ops: nat) -> Seq<Seq<char>> {
    log.subrange((w * (6 * ops)) as int, ((w + 1) * (6 * ops)) as int)
}

/// Workers that run one at a time leave a log of exactly `workers * ops * 6`
/// lines, and the stretch of every worker, whichever place it had in the
/// order, is the same: the worker's own lines, whole and in order.
pub proof fn lemma_serial_log(workers: nat, ops: nat)
    ensures
        serial_lines(workers, ops).len() == workers * ops * 6,
        forall|w: nat|
            w < workers ==> #[trigger] worker_part(serial_lines(workers, ops), w, ops)
                == worker_lines(ops),
    decreases workers,
{
    let per_worker = 6 * ops;
    assert(workers * ops * 6 == workers * per_worker) by (nonlinear_arith)
        requires
            per_worker == 6 * ops,
    ;
    if workers == 0 {
        assert(workers * per_worker == 0) by (nonlinear_arith)
            requires
                workers == 0,
        ;
    } else {
        let earlier = serial_lines((workers - 1) as nat, ops);
        let all = serial_lines(workers, ops);
        lemma_serial_log((workers - 1) as nat, ops);
        assert((workers - 1) * ops * 6 == (workers - 1) * per_worker) by (nonlinear_arith)
            requires
                per_worker == 6 * ops,
        ;
        assert((workers - 1) * per_worker + per_worker == workers * per_worker)
            by (nonlinear_arith);
        assert forall|w: nat| w < workers implies #[trigger] worker_part(all, w, ops)
            == worker_lines(ops) by {
            if w < workers - 1 {
                assert((w + 1) * per_worker <= (workers - 1) * per_worker
                    && w * per_worker <= (w + 1) * per_worker) by (nonlinear_arith)
                    requires
                        w + 1 <= workers - 1,
                        0 <= per_worker,
                ;
                assert(worker_part(all, w, ops) =~= worker_part(earlier, w, ops));
            } else {
                assert((w + 1) * per_worker == w * per_worker + per_worker) by (nonlinear_arith);
                assert(worker_part(all, w, ops) =~= worker_lines(ops));
            }
        }
    }
}

/// A worker's log does not depend on what the stack held when it began: block
/// `i` always reads pushing `3i+1`, pushing `3i+2`, popped `3i+2`, pushing
/// `3i+3`, popped `3i+3`, popped `3i+1`.
pub proof fn lemma_worker_block(ops: nat, i: int)
    requires
        0 <= i < ops,
    ensures
        worker_lines(ops).len() == 6 * ops,
        worker_lines(ops).subrange(6 * i, 6 * i + 6) == seq![
            pushing_text(3 * i + 1),
            pushing_text(3 * i + 2),
            popped_text(3 * i + 2),
            pushing_text(3 * i + 3),
            popped_text(3 * i + 3),
            popped_text(3 * i + 1),
        ],
{
    let block = worker_lines(ops).subrange(6 * i, 6 * i + 6);
    let k = 6 * i;
    assert(block[0] == worker_line(k));
    assert(block[1] == worker_line(k + 1));
    assert(block[2] == worker_line(k + 2));
    assert(block[3] == worker_line(k + 3));
    assert(block[4] == worker_line(k + 4));
    assert(block[5] == worker_line(k + 5));
    assert(block =~= seq![
        pushing_text(3 * i + 1),
        pushing_text(3 * i + 2),
        popped_text(3 * i + 2),
        pushing_text(3 * i + 3),
        popped_text(3 * i + 3),
        popped_text(3 * i + 1),
    ]);
}

} // verus!
