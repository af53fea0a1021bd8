//! The receiver around one decoder: the decisions of its reading loop —
//! when to hand a record out, when to keep waiting, and when to give a
//! silent byte source up. The loop itself, with the blocking reads, lives
//! outside the library.

use vstd::prelude::*;

use crate::frame::LEN;
use crate::ins570::{step_ok, Ins570, Solution};

verus! {

/// How long, in milliseconds, rounds may yield nothing before the byte
/// source counts as silent.
pub const QUIET_LIMIT_MS: u64 = 500;

/// A receiver: the decoder fed from one byte source.
pub struct RTK {
    pub ins570: Ins570,
}

/// What the reading loop does after one round: keep reading, reset its
/// quiet timer (the sensor answered, though without a fix yet), hand a
/// full record out, or give the byte source up as silent.
#[derive(Clone, Copy, Debug, PartialEq, Eq, Structural)]
pub enum Poll {
    Pending,
    Refreshed,
    Ready(Solution),
    TimedOut,
}

/// The loop decision for one decoder answer: `now` is the time of this
/// round and `began` when the quiet timer last restarted.
pub open spec fn poll_of(sol: Solution, now: u64, began: u64) -> Poll {
    match sol {
        Solution::Nothing => if now >= began && now - began > QUIET_LIMIT_MS {
            Poll::TimedOut
        } else {
            Poll::Pending
        },
        Solution::Uninitialized(_) => Poll::Refreshed,
        Solution::Data { .. } => Poll::Ready(sol),
    }
}

impl RTK {
    /// A receiver with a fresh decoder.
    pub fn new() -> (r: RTK)
        ensures
            r.ins570.wf(),
            r.ins570.which == 0,
            r.ins570.frames.0.tail == 0,
            r.ins570.frames.1.tail == 0,
            r.ins570.output_ms == 0,
    {
        RTK { ins570: Ins570::new() }
    }

    /// One round of the reading loop: accept the `n` bytes just written at
    /// time `now_ms`, and decide what the loop does next, `began_ms` being
    /// when its quiet timer last restarted.
    pub fn next_step(&mut self, n: usize, now_ms: u64, began_ms: u64) -> (r: Poll)
        requires
            old(self).ins570.wf(),
            old(self).ins570.filling().tail + n <= LEN,
        ensures
            final(self).ins570.wf(),
            exists|sol: Solution|
                #[trigger] step_ok(old(self).ins570, n as int, now_ms, final(self).ins570, sol)
                    && r == poll_of(sol, now_ms, began_ms),
    {
        let sol = self.ins570.notify_received_at(n, now_ms);
        let r = match sol {
            Solution::Nothing => {
                if now_ms >= began_ms && now_ms - began_ms > QUIET_LIMIT_MS {
                    Poll::TimedOut
                } else {
                    Poll::Pending
                }
            },
            Solution::Uninitialized(_) => Poll::Refreshed,
            Solution::Data { .. } => Poll::Ready(sol),
        };
        proof {
            assert(step_ok(old(self).ins570, n as int, now_ms, self.ins570, sol) && r == poll_of(
                sol,
                now_ms,
                began_ms,
            ));
        }
        r
    }
}

/// The positions of `target` among the reported device comments: the filter
/// that picks this sensor's serial bridge out of the listed ports, in
/// listing order.
pub open spec fn key_indices(comments: Seq<Vec<u8>>, target: Seq<u8>, upto: int) -> Seq<usize>
    decreases upto,
{
    if upto <= 0 {
        Seq::empty()
    } else {
        let pre = key_indices(comments, target, upto - 1);
        if comments[upto - 1]@ == target {
            pre.push((upto - 1) as usize)
        } else {
            pre
        }
    }
}

/// Which of the listed ports carry the wanted device comment.
pub fn keys(comments: &Vec<Vec<u8>>, target: &Vec<u8>) -> (r: Vec<usize>)
    ensures
        r@ == key_indices(comments@, target@, comments@.len() as int),
{
    let mut r: Vec<usize> = Vec::new();
    let mut i: usize = 0;
    while i < comments.len()
        invariant
            i <= comments@.len(),
            r@ == key_indices(comments@, target@, i as int),
        decreases comments@.len() - i,
    {
        if comments[i] == *target {
            proof {
                assert(comments@[i as int]@ =~= target@);
            }
            r.push(i);
        }
        i = i + 1;
    }
    r
}

} // verus!
