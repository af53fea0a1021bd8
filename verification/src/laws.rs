//! The guarantees the decoder gives across calls: acceptance of every valid
//! frame, preservation of relocated headers, debouncing and latching.

use vstd::prelude::*;

use crate::frame::{
    buffer_step, frame_ok, head_at, head_byte, lemma_sync_pos_bounds, lemma_sync_pos_first,
    lemma_sync_pos_le, partial_head_at, step1, sync_at, sync_pos, LEN,
};
use crate::ins570::{
    count_ones, frame_extra_type, frame_state, frame_status, frame_wgs84, frame_yaw, step_frame,
    step_ok, Ins570, Solution, MIN_OUTPUT_INTERVAL_MS,
};

verus! {

/// A valid frame — magic header and both checksums in order — written whole
/// into an empty buffer is accepted as it is: one round of acceptance holds
/// exactly those 63 bytes.
pub proof fn lemma_valid_frame_accepted(data: Seq<u8>)
    requires
        data.len() == LEN,
        head_at(data, 0),
        frame_ok(data),
    ensures
        buffer_step(data, 0) == data,
{
    lemma_sync_pos_first(data, 0, 0);
    assert(data.skip(0) =~= data);
}

/// One `notify_received_at` of a whole valid frame on an empty filling
/// buffer promotes that frame: it becomes the current buffer's content, and
/// a solution is emitted unless the output gate is still closed.
pub proof fn lemma_valid_frame_emits(pre: Ins570, now: u64, post: Ins570, sol: Solution)
    requires
        pre.filling().tail == 0,
        head_at(pre.filling().frame.bytes@, 0),
        frame_ok(pre.filling().frame.bytes@),
        step_ok(pre, LEN as int, now, post, sol),
    ensures
        post.current().content() == pre.filling().frame.bytes@,
        post.which != pre.which,
        (sol == Solution::Nothing) == (now < pre.output_ms + MIN_OUTPUT_INTERVAL_MS),
{
    let data = pre.filling().frame.bytes@;
    assert(data.take(LEN as int) =~= data);
    lemma_valid_frame_accepted(data);
}

/// Resynchronization never discards a legitimately complete header: when the
/// full magic header stands at position `j` of the scanned bytes, the
/// restart position never lies past it, and the header survives the shift.
pub proof fn lemma_resync_keeps_header(s: Seq<u8>, from: int, j: int)
    requires
        0 <= from <= j,
        head_at(s, j),
    ensures
        from <= sync_pos(s, from) <= j,
        head_at(s.skip(sync_pos(s, from)), j - sync_pos(s, from)),
{
    lemma_sync_pos_le(s, from, j);
}

/// A valid frame survives any chunking: when the filling buffer holds the
/// first `k` bytes of a valid frame and the reader writes the next `m` of
/// them, the round keeps exactly the first `k + m` — quietly while the
/// frame is still short, and as the promoted current frame the moment it is
/// whole. Chaining this round by round decodes the frame however the
/// stream was cut.
pub proof fn lemma_aligned_progress(
    f: Seq<u8>,
    k: int,
    m: int,
    pre: Ins570,
    now: u64,
    post: Ins570,
    sol: Solution,
)
    requires
        f.len() == LEN,
        head_at(f, 0),
        frame_ok(f),
        0 <= k,
        0 <= m,
        k + m <= LEN,
        pre.filling().tail == k,
        pre.filling().frame.bytes@.take(k + m) == f.take(k + m),
        step_ok(pre, m, now, post, sol),
    ensures
        k + m < LEN ==> post.filling().content() == f.take(k + m) && sol == Solution::Nothing
            && post.which == pre.which && post.state == pre.state && post.output_ms
            == pre.output_ms,
        k + m == LEN ==> post.current().content() == f && post.which != pre.which,
{
    let data = pre.filling().frame.bytes@.take(k + m);
    if k + m == 0 {
        lemma_sync_pos_first(data, 0, 0);
        assert(data.skip(0) =~= data);
    } else {
        if k + m >= 3 {
            assert(head_at(data, 0));
        } else {
            assert(forall|j: int| 0 <= j < k + m ==> data[j] == f[j]);
            assert(forall|j: int|
                0 <= j < k + m ==> f[j] == head_byte(j)) by {
                assert(f[0] == 0xbdu8 && f[1] == 0xdbu8 && f[2] == 0x0bu8);
            }
            assert(partial_head_at(data, 0));
        }
        lemma_sync_pos_first(data, 0, 0);
        assert(data.skip(0) =~= data);
    }
    if k + m == LEN {
        assert(data =~= f);
    } else {
        assert(buffer_step(data, k) =~= data);
    }
}

/// Only valid frames are promoted: whenever a round completes a frame, that
/// frame opens with the magic header and passes both checksums.
pub proof fn lemma_promoted_frame_valid(pre: Ins570, n: int, now: u64, post: Ins570, sol: Solution)
    requires
        pre.wf(),
        0 <= n,
        pre.filling().tail + n <= LEN,
        step_ok(pre, n, now, post, sol),
        step_frame(pre, n).len() == LEN,
    ensures
        frame_ok(step_frame(pre, n)),
        head_at(step_frame(pre, n), 0),
{
    let t = pre.filling().tail as int;
    let data = pre.filling().frame.bytes@.take(t + n);
    let d1 = step1(data, t);
    if d1.len() == LEN && !frame_ok(d1) {
        // A rejected complete frame is cut down to at most its last 60
        // bytes, so it cannot be what completed this round.
        let s2 = d1.subrange(3, LEN as int);
        lemma_sync_pos_bounds(s2, 0);
        assert(false);
    }
    assert(step_frame(pre, n) == d1);
    if t < 3 {
        let p = sync_pos(data, 0);
        lemma_sync_pos_bounds(data, 0);
        assert(p < data.len() && sync_at(data, p));
        assert(head_at(data, p));
        assert(d1[0] == data[p] && d1[1] == data[p + 1] && d1[2] == data[p + 2]);
    } else {
        assert(data[0] == head_byte(0) && data[1] == head_byte(1) && data[2] == head_byte(2));
    }
}

/// Debounce: once a round emitted a solution at time `t1`, any round less
/// than the minimum output interval later yields nothing, whatever bytes
/// arrived in between.
pub proof fn lemma_debounce(
    d0: Ins570,
    n1: int,
    t1: u64,
    d1: Ins570,
    s1: Solution,
    n2: int,
    t2: u64,
    d2: Ins570,
    s2: Solution,
)
    requires
        step_ok(d0, n1, t1, d1, s1),
        s1 != Solution::Nothing,
        step_ok(d1, n2, t2, d2, s2),
        t2 < t1 + MIN_OUTPUT_INTERVAL_MS,
    ensures
        s2 == Solution::Nothing,
{
}

/// Latching, kept: a round whose bytes do not complete a tagged frame
/// leaves the persisted solution sub-state exactly as it was.
pub proof fn lemma_state_latched(pre: Ins570, n: int, now: u64, post: Ins570, sol: Solution)
    requires
        step_ok(pre, n, now, post, sol),
        step_frame(pre, n).len() == LEN ==> frame_extra_type(step_frame(pre, n)) != 32,
    ensures
        post.state == pre.state,
{
}

/// Latching, written: a round that completes a tagged frame overwrites the
/// persisted solution sub-state with the frame's extra region.
pub proof fn lemma_state_tagged(pre: Ins570, n: int, now: u64, post: Ins570, sol: Solution)
    requires
        step_ok(pre, n, now, post, sol),
        step_frame(pre, n).len() == LEN,
        frame_extra_type(step_frame(pre, n)) == 32,
    ensures
        post.state == frame_state(step_frame(pre, n)),
{
}

/// Every solution a round emits reports the sub-state as latched by that
/// same round — and, for a full record, the completed frame's own position
/// and yaw fields.
pub proof fn lemma_solution_reports_state(
    pre: Ins570,
    n: int,
    now: u64,
    post: Ins570,
    sol: Solution,
)
    requires
        step_ok(pre, n, now, post, sol),
    ensures
        sol matches Solution::Uninitialized(st) ==> st == post.state && count_ones(
            frame_status(step_frame(pre, n)),
        ) < 4,
        sol matches Solution::Data { state, wgs84, yaw } ==> state == post.state && wgs84
            == frame_wgs84(step_frame(pre, n)) && yaw == frame_yaw(step_frame(pre, n)) as i16
            && count_ones(frame_status(step_frame(pre, n))) >= 4,
{
}

/// The fill cursors never leave `[0, 63]`: they address the fixed frame.
pub proof fn lemma_tail_bounded(d: Ins570)
    requires
        d.wf(),
    ensures
        0 <= d.frames.0.tail <= LEN,
        0 <= d.frames.1.tail <= LEN,
        0 <= d.filling().tail <= LEN,
        0 <= d.current().tail <= LEN,
{
}

} // verus!
