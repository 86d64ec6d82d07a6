//! Callback partitioning of the receive path: processing a stream of
//! frontend spans in two consecutive calls leaves the detectors where one
//! call over the joined span leaves them.

use vstd::prelude::*;
use crate::{center_slicer, ctcss_receive, deemphasis_integrator, delay_line, envelope_meter, fir};
use crate::receive_path::{
    spec_decimator_after, spec_emission_offsets, spec_first_emission, spec_partition, spec_partition_from, DelayRun,
    spec_delay_segment, spec_delay_span, spec_gate_boundaries, spec_overwrite, spec_voice_step, spec_ctcss_step,
    spec_deemphasis_controls, CtcssStage, VoiceStage, ReceivePath, spec_vox_hold_at, FrontendSpan, ProcessResult,
};

verus! {

/// The emission offsets of a joined span are those of its first part
/// followed by those of its second part, counted from the first part's
/// start, and the decimator ends where the second part leaves it.
pub proof fn lemma_offsets_join(d0: int, n1: int, n2: int)
    requires
        d0 <= 6,
        n1 >= 0,
        n2 >= 0,
        n1 + n2 <= u32::MAX,
    ensures
        spec_emission_offsets(d0, n1 + n2, 6) == spec_emission_offsets(d0, n1, 6) + spec_emission_offsets(
            spec_decimator_after(d0, n1, 6), n2, 6).map_values(|o: u32| (o + n1) as u32),
        spec_decimator_after(d0, n1 + n2, 6) == spec_decimator_after(spec_decimator_after(d0, n1, 6), n2, 6),
    decreases n2,
{
    let d1 = spec_decimator_after(d0, n1, 6);
    crate::receive_path::lemma_offsets_step(d0, n1, 6);
    if n2 == 0 {
        assert(spec_emission_offsets(d1, 0, 6).len() == 0);
        assert(spec_emission_offsets(d0, n1, 6) + spec_emission_offsets(d1, 0, 6).map_values(|o: u32| (o + n1) as u32)
            =~= spec_emission_offsets(d0, n1, 6));
        assert(n1 + 0 == n1);
    } else {
        lemma_offsets_join(d0, n1, n2 - 1);
        crate::receive_path::lemma_offsets_step(d0, n1 + n2 - 1, 6);
        crate::receive_path::lemma_offsets_step(d1, n2 - 1, 6);
        let whole = spec_emission_offsets(d0, n1 + n2 - 1, 6);
        let head = spec_emission_offsets(d0, n1, 6);
        let tail = spec_emission_offsets(d1, n2 - 1, 6);
        let shift = |o: u32| (o + n1) as u32;
        if spec_decimator_after(d1, n2 - 1, 6) - 1 <= 0 {
            assert(tail.push(n2 as u32).map_values(shift) =~= tail.map_values(shift).push((n1 + n2) as u32));
            assert(head + tail.push(n2 as u32).map_values(shift) =~= (head + tail.map_values(shift)).push(
                (n1 + n2) as u32));
        }
    }
}

/// The partition point of sorted offsets: the first offset past the
/// boundary, or the length.
pub proof fn lemma_partition_char(offsets: Seq<u32>, boundary: u32, k: int)
    requires
        0 <= k <= offsets.len(),
        forall|i: int| 0 <= i < k ==> offsets[i] <= boundary,
        k == offsets.len() || offsets[k] > boundary,
    ensures
        spec_partition(offsets, boundary) == k,
{
    lemma_partition_from_char(offsets, boundary, k, 0);
}

proof fn lemma_partition_from_char(offsets: Seq<u32>, boundary: u32, k: int, from: int)
    requires
        0 <= from <= k <= offsets.len(),
        forall|i: int| 0 <= i < k ==> offsets[i] <= boundary,
        k == offsets.len() || offsets[k] > boundary,
    ensures
        spec_partition_from(offsets, boundary, from) == k,
    decreases k - from,
{
    if from < k {
        lemma_partition_from_char(offsets, boundary, k, from + 1);
    }
}

/// The partition point of sorted offsets has every earlier offset at or
/// before the boundary and the next one past it.
pub proof fn lemma_partition_props(offsets: Seq<u32>, boundary: u32)
    requires
        forall|i: int, j: int| 0 <= i <= j < offsets.len() ==> offsets[i] <= offsets[j],
    ensures
        0 <= spec_partition(offsets, boundary) <= offsets.len(),
        forall|i: int| 0 <= i < spec_partition(offsets, boundary) ==> offsets[i] <= boundary,
        spec_partition(offsets, boundary) < offsets.len() ==> offsets[spec_partition(offsets, boundary)] > boundary,
{
    lemma_partition_from_props(offsets, boundary, 0);
}

proof fn lemma_partition_from_props(offsets: Seq<u32>, boundary: u32, from: int)
    requires
        0 <= from <= offsets.len(),
        forall|i: int| 0 <= i < from ==> offsets[i] <= boundary,
    ensures
        from <= spec_partition_from(offsets, boundary, from) <= offsets.len(),
        forall|i: int| 0 <= i < spec_partition_from(offsets, boundary, from) ==> offsets[i] <= boundary,
        spec_partition_from(offsets, boundary, from) < offsets.len()
            ==> offsets[spec_partition_from(offsets, boundary, from)] > boundary,
    decreases offsets.len() - from,
{
    if from < offsets.len() && offsets[from] <= boundary {
        lemma_partition_from_props(offsets, boundary, from + 1);
    }
}

/// The delay line's lasting state: storage, cursor and output muting.
pub struct DelayCore {
    /// Circular storage.
    pub storage: Seq<i16>,
    /// Cursor and dirty flag.
    pub state: delay_line::State,
    /// Output muting.
    pub outzero: bool,
}

/// The lasting state of a delay run.
pub open spec fn spec_core_of(run: DelayRun) -> DelayCore {
    DelayCore { storage: run.storage, state: run.state, outzero: run.outzero }
}

/// The lasting state after the delay line processes one segment of samples.
pub open spec fn spec_core_segment(c: DelayCore, segment: Seq<i16>, lead: u32) -> DelayCore {
    if segment.len() == 0 {
        c
    } else if c.outzero {
        if c.state.dirty == 0 {
            c
        } else {
            DelayCore {
                storage: Seq::new(c.storage.len(), |i: int| 0i16),
                state: delay_line::State { input_index: 0, dirty: 0 },
                outzero: c.outzero,
            }
        }
    } else {
        let index = c.state.input_index as int;
        DelayCore {
            storage: delay_line::spec_storage_after(c.storage, segment, index, segment.len() as int),
            state: delay_line::State {
                input_index: delay_line::spec_cursor_after(index, c.storage.len() as int, segment.len() as int) as u32,
                dirty: 1,
            },
            outzero: c.outzero,
        }
    }
}

/// A delay segment's lasting effect depends only on the samples it covers.
pub proof fn lemma_segment_core(run: DelayRun, input: Seq<i16>, end: int, lead: u32)
    requires
        0 <= run.start <= end <= input.len(),
    ensures
        spec_core_of(spec_delay_segment(run, input, end, lead)) == spec_core_segment(
            spec_core_of(run), input.subrange(run.start, end), lead),
        spec_delay_segment(run, input, end, lead).start == end,
{
}

/// Writing keeps the storage length.
proof fn lemma_storage_len(storage: Seq<i16>, input: Seq<i16>, input_index: int, count: int)
    requires
        storage.len() > 0,
        input_index >= 0,
    ensures
        delay_line::spec_storage_after(storage, input, input_index, count).len() == storage.len(),
    decreases count,
{
    if count > 0 {
        lemma_storage_len(storage, input, input_index, count - 1);
    }
}

/// Delaying two consecutive segments under the same muting leaves what
/// delaying them as one segment leaves.
pub proof fn lemma_core_join(c: DelayCore, x: Seq<i16>, y: Seq<i16>, lead: u32)
    requires
        0 < c.storage.len() <= u32::MAX,
        lead <= c.storage.len(),
    ensures
        spec_core_segment(spec_core_segment(c, x, lead), y, lead) == spec_core_segment(c, x + y, lead),
{
    if x.len() == 0 {
        assert(x + y =~= y);
    } else if y.len() == 0 {
        assert(x + y =~= x);
    } else if !c.outzero {
        let index = c.state.input_index as int;
        let capacity = c.storage.len() as int;
        delay_line::lemma_span_partition(c.storage, x, y, index, lead as int);
        lemma_storage_len(c.storage, x, index, x.len() as int);
        let cursor = delay_line::spec_cursor_after(index, capacity, x.len() as int);
        assert(1 <= cursor <= capacity) by {
            vstd::arithmetic::div_mod::lemma_mod_bound(index + x.len() - 1, capacity);
        }
    }
}

/// A larger boundary has at least as many offsets before it.
pub proof fn lemma_partition_monotone(offsets: Seq<u32>, low: u32, high: u32)
    requires
        forall|i: int, j: int| 0 <= i <= j < offsets.len() ==> offsets[i] <= offsets[j],
        low <= high,
    ensures
        spec_partition(offsets, low) <= spec_partition(offsets, high),
{
    lemma_partition_props(offsets, low);
    lemma_partition_props(offsets, high);
    let p1 = spec_partition(offsets, low);
    let p2 = spec_partition(offsets, high);
    if p2 < p1 {
        assert(offsets[p2] <= low);
    }
}

/// Where the segment after the first `k` gate boundaries starts.
pub open spec fn spec_segment_start(offsets: Seq<u32>, boundaries: Seq<u32>, k: int) -> int {
    if k <= 0 { 0 } else { spec_partition(offsets, boundaries[k - 1]) }
}

/// The lasting delay state after the segments ending at the first `k`
/// gate boundaries, each boundary then sampling the carrier gate.
pub open spec fn spec_core_gated(
    c: DelayCore,
    input: Seq<i16>,
    lead: u32,
    boundaries: Seq<u32>,
    offsets: Seq<u32>,
    gates: Seq<u8>,
    k: int,
) -> DelayCore
    decreases k,
{
    if k <= 0 {
        c
    } else {
        let previous = spec_core_gated(c, input, lead, boundaries, offsets, gates, k - 1);
        let segment = input.subrange(
            spec_segment_start(offsets, boundaries, k - 1),
            spec_partition(offsets, boundaries[k - 1]),
        );
        DelayCore { outzero: gates[boundaries[k - 1] - 1] == 0, ..spec_core_segment(previous, segment, lead) }
    }
}

/// Sorted offsets within an input, and boundaries that never decrease.
pub open spec fn spec_gating_shape(input: Seq<i16>, boundaries: Seq<u32>, offsets: Seq<u32>) -> bool {
    &&& offsets.len() <= input.len()
    &&& forall|i: int, j: int| 0 <= i <= j < offsets.len() ==> offsets[i] <= offsets[j]
    &&& forall|i: int, j: int| 0 <= i <= j < boundaries.len() ==> boundaries[i] <= boundaries[j]
}

/// The gated delay run's lasting state and where its next segment starts.
pub proof fn lemma_gated_core(
    run: DelayRun,
    input: Seq<i16>,
    lead: u32,
    boundaries: Seq<u32>,
    offsets: Seq<u32>,
    gates: Seq<u8>,
    k: int,
)
    requires
        run.start == 0,
        0 <= k <= boundaries.len(),
        spec_gating_shape(input, boundaries, offsets),
    ensures
        spec_core_of(crate::receive_path::spec_delay_gated(run, input, lead, boundaries, offsets, gates, k))
            == spec_core_gated(spec_core_of(run), input, lead, boundaries, offsets, gates, k),
        crate::receive_path::spec_delay_gated(run, input, lead, boundaries, offsets, gates, k).start
            == spec_segment_start(offsets, boundaries, k),
        0 <= spec_segment_start(offsets, boundaries, k) <= offsets.len(),
    decreases k,
{
    if k > 0 {
        lemma_gated_core(run, input, lead, boundaries, offsets, gates, k - 1);
        let previous = crate::receive_path::spec_delay_gated(run, input, lead, boundaries, offsets, gates, k - 1);
        lemma_partition_props(offsets, boundaries[k - 1]);
        if k > 1 {
            lemma_partition_monotone(offsets, boundaries[k - 2], boundaries[k - 1]);
        }
        lemma_segment_core(previous, input, spec_partition(offsets, boundaries[k - 1]), lead);
    }
}

/// Gate boundaries never decrease.
pub proof fn lemma_boundaries_sorted(remainder: int, native_frame_count: int)
    requires
        0 <= remainder < 960,
        0 <= native_frame_count <= u32::MAX,
    ensures
        forall|i: int, j: int| 0 <= i <= j < spec_gate_boundaries(remainder, native_frame_count).len()
            ==> spec_gate_boundaries(remainder, native_frame_count)[i]
                <= spec_gate_boundaries(remainder, native_frame_count)[j],
        forall|i: int| 0 <= i < spec_gate_boundaries(remainder, native_frame_count).len()
            ==> 1 <= #[trigger] spec_gate_boundaries(remainder, native_frame_count)[i] <= native_frame_count,
{
    let bnd = spec_gate_boundaries(remainder, native_frame_count);
    let first = 960 - remainder;
    assert forall|i: int| 0 <= i < bnd.len() implies 1 <= #[trigger] bnd[i] <= native_frame_count by {
        assert(first + i * 960 <= native_frame_count) by (nonlinear_arith)
            requires 0 <= i < bnd.len(), bnd.len() == (native_frame_count - first) / 960 + 1, native_frame_count >= first;
        assert(first + i * 960 >= 1) by (nonlinear_arith) requires i >= 0, first >= 1;
    }
    assert forall|i: int, j: int| 0 <= i <= j < bnd.len() implies bnd[i] <= bnd[j] by {
        assert(first + i * 960 <= first + j * 960) by (nonlinear_arith) requires i <= j;
        assert(first + j * 960 <= native_frame_count) by (nonlinear_arith)
            requires 0 <= j < bnd.len(), bnd.len() == (native_frame_count - first) / 960 + 1, native_frame_count >= first;
        assert(first + i * 960 >= 1) by (nonlinear_arith) requires i >= 0, first >= 1;
    }
}

/// The lasting delay state after one span: one segment under a VOX
/// detector, else segments split at the span's gate boundaries.
pub open spec fn spec_core_span(
    c: DelayCore,
    input: Seq<i16>,
    lead: u32,
    vox: bool,
    remainder: u32,
    offsets: Seq<u32>,
    gates: Seq<u8>,
    native_frame_count: u32,
    count: int,
) -> DelayCore {
    if vox {
        spec_core_segment(c, input.subrange(0, count), lead)
    } else {
        let boundaries = spec_gate_boundaries(remainder as int, native_frame_count as int);
        let k = boundaries.len() as int;
        spec_core_segment(
            spec_core_gated(c, input, lead, boundaries, offsets, gates, k),
            input.subrange(spec_segment_start(offsets, boundaries, k), count),
            lead,
        )
    }
}

/// A span's delay run leaves the lasting state `spec_core_span` names.
pub proof fn lemma_span_core(
    run: DelayRun,
    input: Seq<i16>,
    lead: u32,
    vox: bool,
    remainder: u32,
    offsets: Seq<u32>,
    gates: Seq<u8>,
    native_frame_count: u32,
    count: int,
)
    requires
        run.start == 0,
        remainder < 960,
        offsets.len() == count <= input.len(),
        forall|i: int, j: int| 0 <= i <= j < offsets.len() ==> offsets[i] <= offsets[j],
    ensures
        spec_core_of(spec_delay_span(run, input, lead, vox, remainder, offsets, gates, native_frame_count, count))
            == spec_core_span(spec_core_of(run), input, lead, vox, remainder, offsets, gates, native_frame_count, count),
{
    if vox {
        lemma_segment_core(run, input, count, lead);
    } else {
        let boundaries = spec_gate_boundaries(remainder as int, native_frame_count as int);
        let k = boundaries.len() as int;
        lemma_boundaries_sorted(remainder as int, native_frame_count as int);
        lemma_gated_core(run, input, lead, boundaries, offsets, gates, k);
        let gated = crate::receive_path::spec_delay_gated(run, input, lead, boundaries, offsets, gates, k);
        lemma_segment_core(gated, input, count, lead);
    }
}

/// Delaying keeps the storage length.
pub proof fn lemma_core_segment_len(c: DelayCore, segment: Seq<i16>, lead: u32)
    requires
        c.storage.len() > 0,
    ensures
        spec_core_segment(c, segment, lead).storage.len() == c.storage.len(),
{
    if segment.len() != 0 && !c.outzero {
        lemma_storage_len(c.storage, segment, c.state.input_index as int, segment.len() as int);
    }
}

/// Gated delaying keeps the storage length.
pub proof fn lemma_core_gated_len(
    c: DelayCore,
    input: Seq<i16>,
    lead: u32,
    boundaries: Seq<u32>,
    offsets: Seq<u32>,
    gates: Seq<u8>,
    k: int,
)
    requires
        c.storage.len() > 0,
    ensures
        spec_core_gated(c, input, lead, boundaries, offsets, gates, k).storage.len() == c.storage.len(),
    decreases k,
{
    if k > 0 {
        lemma_core_gated_len(c, input, lead, boundaries, offsets, gates, k - 1);
        let previous = spec_core_gated(c, input, lead, boundaries, offsets, gates, k - 1);
        let segment = input.subrange(spec_segment_start(offsets, boundaries, k - 1), spec_partition(offsets, boundaries[k - 1]));
        lemma_core_segment_len(previous, segment, lead);
    }
}

/// Gated delaying over inputs that agree where the first `k` segments read
/// them, at the same partition points and gates, agrees.
proof fn lemma_gated_prefix(
    c: DelayCore,
    in1: Seq<i16>,
    b1: Seq<u32>,
    off1: Seq<u32>,
    g1: Seq<u8>,
    in2: Seq<i16>,
    b2: Seq<u32>,
    off2: Seq<u32>,
    g2: Seq<u8>,
    lead: u32,
    bound: int,
    k: int,
)
    requires
        0 <= k <= b1.len(),
        k <= b2.len(),
        bound <= in1.len(),
        bound <= in2.len(),
        forall|x: int| 0 <= x < bound ==> in1[x] == in2[x],
        forall|i: int| 0 <= i < k ==> spec_partition(off2, #[trigger] b2[i]) == spec_partition(off1, b1[i])
            && 0 <= spec_partition(off1, b1[i]) <= bound && g2[b2[i] - 1] == g1[b1[i] - 1],
        forall|i: int, j: int| 0 <= i <= j < k ==> spec_partition(off1, b1[i]) <= spec_partition(off1, b1[j]),
    ensures
        spec_core_gated(c, in1, lead, b1, off1, g1, k) == spec_core_gated(c, in2, lead, b2, off2, g2, k),
        spec_segment_start(off1, b1, k) == spec_segment_start(off2, b2, k),
    decreases k,
{
    if k > 0 {
        lemma_gated_prefix(c, in1, b1, off1, g1, in2, b2, off2, g2, lead, bound, k - 1);
        let s = spec_segment_start(off1, b1, k - 1);
        let e = spec_partition(off1, b1[k - 1]);
        assert(spec_partition(off2, b2[k - 1]) == e);
        if k > 1 {
            assert(spec_partition(off2, b2[k - 2]) == spec_partition(off1, b1[k - 2]));
            assert(s <= e);
        }
        assert(in1.subrange(s, e) =~= in2.subrange(s, e));
    }
}

/// Gated delaying continues in the second span as in the joined span, its
/// segments shifted by the first span's samples.
proof fn lemma_gated_suffix(
    c: DelayCore,
    in_ab: Seq<i16>,
    b_ab: Seq<u32>,
    off_ab: Seq<u32>,
    g_ab: Seq<u8>,
    k_a: int,
    mid: DelayCore,
    in_b: Seq<i16>,
    b_b: Seq<u32>,
    off_b: Seq<u32>,
    g_b: Seq<u8>,
    c_a: int,
    c_b: int,
    lead: u32,
    j: int,
)
    requires
        0 <= k_a,
        1 <= j <= b_b.len(),
        k_a + b_b.len() <= b_ab.len(),
        c_a >= 0,
        c_b <= in_b.len(),
        c_a + c_b <= in_ab.len(),
        forall|x: int| 0 <= x < c_b ==> in_ab[c_a + x] == in_b[x],
        forall|i: int| 0 <= i < b_b.len() ==> spec_partition(off_ab, #[trigger] b_ab[k_a + i]) == c_a + spec_partition(
            off_b, b_b[i]) && 0 <= spec_partition(off_b, b_b[i]) <= c_b && g_ab[b_ab[k_a + i] - 1] == g_b[b_b[i] - 1],
        forall|i: int, i2: int| 0 <= i <= i2 < b_b.len() ==> spec_partition(off_b, b_b[i]) <= spec_partition(
            off_b, b_b[i2]),
        spec_core_gated(c, in_ab, lead, b_ab, off_ab, g_ab, k_a + 1) == spec_core_gated(
            mid, in_b, lead, b_b, off_b, g_b, 1),
    ensures
        spec_core_gated(c, in_ab, lead, b_ab, off_ab, g_ab, k_a + j) == spec_core_gated(
            mid, in_b, lead, b_b, off_b, g_b, j),
    decreases j,
{
    if j > 1 {
        lemma_gated_suffix(c, in_ab, b_ab, off_ab, g_ab, k_a, mid, in_b, b_b, off_b, g_b, c_a, c_b, lead, j - 1);
        let s = spec_partition(off_b, b_b[j - 2]);
        let e = spec_partition(off_b, b_b[j - 1]);
        let i1 = j - 2;
        let i2 = j - 1;
        assert(spec_partition(off_ab, b_ab[k_a + i1]) == c_a + spec_partition(off_b, b_b[i1]));
        assert(spec_partition(off_ab, b_ab[k_a + i2]) == c_a + spec_partition(off_b, b_b[i2]));
        assert(k_a + i1 == k_a + j - 2);
        assert(spec_segment_start(off_ab, b_ab, k_a + j - 1) == c_a + s);
        assert(s <= e);
        assert forall|x: int| 0 <= x < e - s implies #[trigger] in_ab.subrange(c_a + s, c_a + e)[x]
            == in_b.subrange(s, e)[x] by {
            let y = s + x;
            assert(in_ab[c_a + y] == in_b[y]);
        }
        assert(in_ab.subrange(c_a + s, c_a + e) =~= in_b.subrange(s, e));
        assert(g_ab[b_ab[k_a + i2] - 1] == g_b[b_b[i2] - 1]);
    }
}

/// Sorted offsets of a span: every one a native frame of the span.
pub open spec fn spec_offsets_shape(offsets: Seq<u32>, native_frame_count: int) -> bool {
    &&& forall|i: int, j: int| 0 <= i <= j < offsets.len() ==> offsets[i] <= offsets[j]
    &&& forall|i: int| 0 <= i < offsets.len() ==> 1 <= #[trigger] offsets[i] <= native_frame_count
}

/// The joined offsets of two consecutive spans.
pub open spec fn spec_join_offsets(first: Seq<u32>, second: Seq<u32>, first_frames: int) -> Seq<u32> {
    first + second.map_values(|o: u32| (o + first_frames) as u32)
}

/// Partition points of joined offsets: a boundary inside the first span
/// splits only the first span's offsets; one inside the second counts all
/// of the first span's and those of the second before it.
proof fn lemma_join_partition(off_a: Seq<u32>, off_b: Seq<u32>, n_a: int, n_b: int, boundary: int)
    requires
        spec_offsets_shape(off_a, n_a),
        spec_offsets_shape(off_b, n_b),
        n_a >= 0,
        n_a + n_b <= u32::MAX,
        1 <= boundary <= n_a + n_b,
    ensures
        boundary <= n_a ==> spec_partition(spec_join_offsets(off_a, off_b, n_a), boundary as u32)
            == spec_partition(off_a, boundary as u32),
        boundary > n_a ==> spec_partition(spec_join_offsets(off_a, off_b, n_a), boundary as u32)
            == off_a.len() + spec_partition(off_b, (boundary - n_a) as u32),
{
    let joined = spec_join_offsets(off_a, off_b, n_a);
    let c_a = off_a.len() as int;
    assert forall|i: int| 0 <= i < off_b.len() implies joined[c_a + i] == off_b[i] + n_a by {}
    if boundary <= n_a {
        let bnd = boundary as u32;
        lemma_partition_props(off_a, bnd);
        let k = spec_partition(off_a, bnd);
        if k == c_a && off_b.len() > 0 {
            assert(joined[c_a] == off_b[0] + n_a);
        }
        lemma_partition_char(joined, bnd, k);
    } else {
        let bnd = (boundary - n_a) as u32;
        lemma_partition_props(off_b, bnd);
        let k = spec_partition(off_b, bnd);
        assert forall|i: int| 0 <= i < c_a + k implies joined[i] <= boundary as u32 by {
            if i >= c_a {
                assert(joined[i] == off_b[i - c_a] + n_a);
            }
        }
        if k < off_b.len() {
            assert(joined[c_a + k] == off_b[k] + n_a);
        }
        lemma_partition_char(joined, boundary as u32, c_a + k);
    }
}

/// The first gate boundary of the second span closes the segment that
/// spans the call boundary.
proof fn lemma_gated_base(
    c: DelayCore,
    in_ab: Seq<i16>,
    b_ab: Seq<u32>,
    off_ab: Seq<u32>,
    g_ab: Seq<u8>,
    k_a: int,
    gated_a: DelayCore,
    s_a: int,
    tail_a: Seq<i16>,
    in_b: Seq<i16>,
    b_b: Seq<u32>,
    off_b: Seq<u32>,
    g_b: Seq<u8>,
    c_a: int,
    p0: int,
    lead: u32,
)
    requires
        0 <= k_a < b_ab.len(),
        b_b.len() > 0,
        0 < gated_a.storage.len() <= u32::MAX,
        lead <= gated_a.storage.len(),
        spec_core_gated(c, in_ab, lead, b_ab, off_ab, g_ab, k_a) == gated_a,
        spec_segment_start(off_ab, b_ab, k_a) == s_a,
        p0 == spec_partition(off_b, b_b[0]),
        spec_partition(off_ab, b_ab[k_a]) == c_a + p0,
        g_ab[b_ab[k_a] - 1] == g_b[b_b[0] - 1],
        in_ab.subrange(s_a, c_a + p0) == tail_a + in_b.subrange(0, p0),
    ensures
        spec_core_gated(c, in_ab, lead, b_ab, off_ab, g_ab, k_a + 1) == spec_core_gated(
            spec_core_segment(gated_a, tail_a, lead), in_b, lead, b_b, off_b, g_b, 1),
{
    let mid = spec_core_segment(gated_a, tail_a, lead);
    lemma_core_join(gated_a, tail_a, in_b.subrange(0, p0), lead);
    let joined = spec_core_segment(gated_a, in_ab.subrange(s_a, c_a + p0), lead);
    assert(joined == spec_core_segment(mid, in_b.subrange(0, p0), lead));
    assert(spec_core_gated(c, in_ab, lead, b_ab, off_ab, g_ab, k_a + 1)
        == DelayCore { outzero: g_ab[b_ab[k_a] - 1] == 0, ..joined });
    assert(spec_core_gated(mid, in_b, lead, b_b, off_b, g_b, 0) == mid);
    assert(spec_segment_start(off_b, b_b, 0) == 0);
    assert(spec_core_gated(mid, in_b, lead, b_b, off_b, g_b, 1)
        == DelayCore { outzero: g_b[b_b[0] - 1] == 0, ..spec_core_segment(mid, in_b.subrange(0, p0), lead) });
}

/// Delaying two consecutive spans leaves the lasting delay state that
/// delaying the joined span leaves: the joined span's gate boundaries,
/// segment ends and sampled gates come from the two spans'.
#[verifier::rlimit(60)]
pub proof fn lemma_core_span_join(
    c: DelayCore,
    in_a: Seq<i16>,
    in_b: Seq<i16>,
    in_ab: Seq<i16>,
    lead: u32,
    vox: bool,
    r: u32,
    off_a: Seq<u32>,
    off_b: Seq<u32>,
    g_a: Seq<u8>,
    g_b: Seq<u8>,
    n_a: u32,
    n_b: u32,
)
    requires
        0 < c.storage.len() <= u32::MAX,
        lead <= c.storage.len(),
        r < 960,
        n_a + n_b + 960 <= u32::MAX,
        off_a.len() <= in_a.len(),
        off_b.len() <= in_b.len(),
        off_a.len() + off_b.len() <= in_ab.len(),
        spec_offsets_shape(off_a, n_a as int),
        spec_offsets_shape(off_b, n_b as int),
        g_a.len() == n_a,
        g_b.len() == n_b,
        forall|x: int| 0 <= x < off_a.len() ==> in_ab[x] == in_a[x],
        forall|x: int| 0 <= x < off_b.len() ==> in_ab[off_a.len() + x] == in_b[x],
    ensures
        spec_core_span(
            spec_core_span(c, in_a, lead, vox, r, off_a, g_a, n_a, off_a.len() as int),
            in_b, lead, vox, ((r + n_a) % 960) as u32, off_b, g_b, n_b, off_b.len() as int,
        ) == spec_core_span(
            c, in_ab, lead, vox, r, spec_join_offsets(off_a, off_b, n_a as int), g_a + g_b, (n_a + n_b) as u32,
            (off_a.len() + off_b.len()) as int,
        ),
{
    let c_a = off_a.len() as int;
    let c_b = off_b.len() as int;
    let c_ab = c_a + c_b;
    let head_b = in_b.subrange(0, c_b);
    if vox {
        let head_a = in_a.subrange(0, c_a);
        assert(in_ab.subrange(0, c_ab) =~= head_a + head_b);
        lemma_core_join(c, head_a, head_b, lead);
        return;
    }
    let off_ab = spec_join_offsets(off_a, off_b, n_a as int);
    let g_ab = g_a + g_b;
    let r_b = ((r + n_a) % 960) as u32;
    let b_a = spec_gate_boundaries(r as int, n_a as int);
    let b_b = spec_gate_boundaries(r_b as int, n_b as int);
    let b_ab = spec_gate_boundaries(r as int, (n_a + n_b) as u32 as int);
    let k_a = b_a.len() as int;
    let k_b = b_b.len() as int;
    crate::receive_path::lemma_gate_boundaries_partition(r, n_a, n_b);
    assert(b_ab == b_a + b_b.map_values(|bd: u32| (bd + n_a) as u32));
    assert(b_ab.len() == k_a + k_b);
    lemma_boundaries_sorted(r as int, n_a as int);
    lemma_boundaries_sorted(r_b as int, n_b as int);
    assert forall|i: int| 0 <= i < k_a implies spec_partition(off_ab, #[trigger] b_ab[i]) == spec_partition(off_a, b_a[i])
        && 0 <= spec_partition(off_a, b_a[i]) <= c_a && g_ab[b_ab[i] - 1] == g_a[b_a[i] - 1] by {
        assert(b_ab[i] == b_a[i]);
        lemma_join_partition(off_a, off_b, n_a as int, n_b as int, b_a[i] as int);
        lemma_partition_props(off_a, b_a[i]);
    }
    assert forall|i: int, j: int| 0 <= i <= j < k_a implies spec_partition(off_a, b_a[i]) <= spec_partition(
        off_a, b_a[j]) by {
        lemma_partition_monotone(off_a, b_a[i], b_a[j]);
    }
    assert forall|i: int| 0 <= i < k_b implies spec_partition(off_ab, #[trigger] b_ab[k_a + i]) == c_a + spec_partition(
        off_b, b_b[i]) && 0 <= spec_partition(off_b, b_b[i]) <= c_b && g_ab[b_ab[k_a + i] - 1] == g_b[b_b[i] - 1] by {
        assert(b_ab[k_a + i] == b_b[i] + n_a);
        lemma_join_partition(off_a, off_b, n_a as int, n_b as int, b_b[i] + n_a);
        lemma_partition_props(off_b, b_b[i]);
    }
    assert forall|i: int, j: int| 0 <= i <= j < k_b implies spec_partition(off_b, b_b[i]) <= spec_partition(
        off_b, b_b[j]) by {
        lemma_partition_monotone(off_b, b_b[i], b_b[j]);
    }
    lemma_gated_prefix(c, in_a, b_a, off_a, g_a, in_ab, b_ab, off_ab, g_ab, lead, c_a, k_a);
    let gated_a = spec_core_gated(c, in_a, lead, b_a, off_a, g_a, k_a);
    let s_a = spec_segment_start(off_a, b_a, k_a);
    assert(0 <= s_a <= c_a) by {
        if k_a > 0 {
            lemma_partition_props(off_a, b_a[k_a - 1]);
        }
    }
    let tail_a = in_a.subrange(s_a, c_a);
    let mid = spec_core_segment(gated_a, tail_a, lead);
    lemma_core_gated_len(c, in_a, lead, b_a, off_a, g_a, k_a);
    if k_b == 0 {
        assert(in_ab.subrange(s_a, c_ab) =~= tail_a + head_b);
        lemma_core_join(gated_a, tail_a, head_b, lead);
    } else {
        let p0 = spec_partition(off_b, b_b[0]);
        assert(spec_partition(off_ab, b_ab[k_a + 0]) == c_a + p0);
        assert(g_ab[b_ab[k_a + 0] - 1] == g_b[b_b[0] - 1]);
        assert(in_ab.subrange(s_a, c_a + p0) =~= tail_a + in_b.subrange(0, p0));
        lemma_gated_base(c, in_ab, b_ab, off_ab, g_ab, k_a, gated_a, s_a, tail_a, in_b, b_b, off_b, g_b, c_a, p0, lead);
        lemma_gated_suffix(c, in_ab, b_ab, off_ab, g_ab, k_a, mid, in_b, b_b, off_b, g_b, c_a, c_b, lead, k_b);
        let last = k_b - 1;
        let s_b = spec_partition(off_b, b_b[last]);
        assert(spec_partition(off_ab, b_ab[k_a + last]) == c_a + s_b);
        assert(spec_segment_start(off_ab, b_ab, k_a + k_b) == c_a + s_b);
        assert forall|x: int| 0 <= x < c_b - s_b implies #[trigger] in_ab.subrange(c_a + s_b, c_ab)[x]
            == in_b.subrange(s_b, c_b)[x] by {
            let y = s_b + x;
            assert(in_ab[c_a + y] == in_b[y]);
        }
        assert(in_ab.subrange(c_a + s_b, c_ab) =~= in_b.subrange(s_b, c_b));
    }
}

/// An envelope detector over two consecutive spans: the per-sample
/// envelopes join, and the state a span leaves (unchanged by an empty
/// span) is the state the joined span leaves.
pub proof fn lemma_envelope_join(s: envelope_meter::State, x: Seq<i16>, y: Seq<i16>, decay: i32)
    ensures
        ({
            let mid = if x.len() != 0 { envelope_meter::spec_final_state(s, x, decay) } else { s };
            let after = if y.len() != 0 { envelope_meter::spec_final_state(mid, y, decay) } else { mid };
            &&& Seq::new((x.len() + y.len()) as nat, |k: int| envelope_meter::spec_state_after(s, x + y, decay, k + 1).peak)
                == Seq::new(x.len() as nat, |k: int| envelope_meter::spec_state_after(s, x, decay, k + 1).peak)
                + Seq::new(y.len() as nat, |k: int| envelope_meter::spec_state_after(mid, y, decay, k + 1).peak)
            &&& after == if x.len() + y.len() != 0 { envelope_meter::spec_final_state(s, x + y, decay) } else { s }
        }),
{
    let mid = if x.len() != 0 { envelope_meter::spec_final_state(s, x, decay) } else { s };
    let n = x.len() as int;
    assert(envelope_meter::spec_state_after(s, x, decay, n) == mid);
    let whole = Seq::new((x.len() + y.len()) as nat, |k: int| envelope_meter::spec_state_after(s, x + y, decay, k + 1).peak);
    let left = Seq::new(x.len() as nat, |k: int| envelope_meter::spec_state_after(s, x, decay, k + 1).peak);
    let right = Seq::new(y.len() as nat, |k: int| envelope_meter::spec_state_after(mid, y, decay, k + 1).peak);
    assert forall|k: int| 0 <= k < whole.len() implies #[trigger] whole[k] == (left + right)[k] by {
        if k < n {
            envelope_meter::lemma_prefix_agrees(s, x, x + y, decay, k + 1);
        } else {
            envelope_meter::lemma_partition_prefix(s, x, y, decay, k - n + 1);
        }
    }
    assert(whole =~= left + right);
    if y.len() != 0 {
        if x.len() != 0 {
            envelope_meter::lemma_span_partition(s, x, y, decay);
        } else {
            assert(x + y =~= y);
        }
    } else {
        assert(x + y =~= x);
    }
}

/// The voice a span produces: the high-pass output, deemphasized when
/// configured, has one sample per baseband sample.
pub proof fn lemma_voice_output_len(v: VoiceStage, baseband: Seq<i16>)
    ensures
        v.voice_output(baseband).len() == baseband.len(),
        v.hpf_output(baseband).len() == baseband.len(),
{
    crate::receive_path::lemma_fir_outputs_len(v.hpf_history, baseband, v.hpf_coefficients, v.hpf_fir());
    let hpf = v.hpf_output(baseband);
    match v.deemphasis_config {
        Some(d) => crate::receive_path::lemma_deemphasis_outputs_len(
            v.accumulator, hpf, spec_deemphasis_controls(d), hpf.len() as int),
        None => {},
    }
}

/// The workspace the delay line reads after running voice stages: its
/// leading samples are the span's voice.
pub open spec fn spec_voice_workspace(v: VoiceStage) -> Seq<i16> {
    if v.deemphasis_config is Some { v.voice } else { v.hpf }
}

/// After running voice stages, the workspace's leading samples are the
/// span's voice.
pub proof fn lemma_voice_prefix(before: VoiceStage, after: VoiceStage, baseband: Seq<i16>)
    requires
        spec_voice_step(before, after, baseband),
        before.hpf_controls is Some,
        before.active,
        baseband.len() <= before.voice.len(),
        baseband.len() <= before.hpf.len(),
    ensures
        spec_voice_workspace(after).subrange(0, baseband.len() as int) == before.voice_output(baseband),
        after.voice.subrange(0, baseband.len() as int) == before.voice_output(baseband),
{
    lemma_voice_output_len(before, baseband);
    let n = baseband.len() as int;
    assert(after.voice.subrange(0, n) =~= before.voice_output(baseband));
    assert(after.hpf.subrange(0, n) =~= before.hpf_output(baseband));
}

/// The voice stages over two consecutive spans leave the high-pass
/// history and deemphasis accumulator that one joined span leaves, and
/// their voice joins.
pub proof fn lemma_voice_join(p: VoiceStage, m: VoiceStage, q: VoiceStage, w: VoiceStage, x: Seq<i16>, y: Seq<i16>)
    requires
        spec_voice_step(p, m, x),
        spec_voice_step(m, q, y),
        spec_voice_step(p, w, x + y),
        p.active,
    ensures
        q.hpf_history == w.hpf_history,
        q.accumulator == w.accumulator,
        p.hpf_controls is Some ==> p.voice_output(x) + m.voice_output(y) == p.voice_output(x + y),
{
    if p.hpf_controls is Some {
        crate::receive_path::lemma_voice_stage_partition(p, m, q, x, y);
    }
}

/// The carrier that qualifies the CTCSS detector bank in a call.
pub open spec fn spec_ctcss_carrier(external_carrier: Option<bool>, result: crate::receive_path::ProcessResult) -> bool {
    match external_carrier {
        Some(c) => c,
        None => result.carrier_detect,
    }
}

/// The CTCSS low-pass, center slicer and detector bank over two
/// consecutive spans end where one joined span leaves them, while the
/// voice stages are awake, the bank is qualified by the same carrier in
/// every call, no call changes its decode decision, and the slicer's
/// extrema at the split fit its signed-16 state.
pub proof fn lemma_ctcss_path_join(
    p: ReceivePath,
    m: ReceivePath,
    q: ReceivePath,
    w: ReceivePath,
    x: Seq<i16>,
    y: Seq<i16>,
    c_a: bool,
    c_b: bool,
    c_ab: bool,
)
    requires
        p.wf(),
        p.voice_processing_active,
        m.voice_processing_active,
        p.spec_ctcss_stage(&m, x),
        m.spec_ctcss_stage(&q, y),
        p.spec_ctcss_stage(&w, x + y),
        p.spec_ctcss_runs(x.len() as int) ==> m.ctcss_state@ == ctcss_receive::spec_process(p.ctcss_state@, m.limited@, c_a),
        !p.spec_ctcss_runs(x.len() as int) ==> m.ctcss_state@ == p.ctcss_state@,
        m.spec_ctcss_runs(y.len() as int) ==> q.ctcss_state@ == ctcss_receive::spec_process(m.ctcss_state@, q.limited@, c_b),
        !m.spec_ctcss_runs(y.len() as int) ==> q.ctcss_state@ == m.ctcss_state@,
        p.spec_ctcss_runs((x + y).len() as int) ==> w.ctcss_state@ == ctcss_receive::spec_process(
            p.ctcss_state@, w.limited@, c_ab),
        !p.spec_ctcss_runs((x + y).len() as int) ==> w.ctcss_state@ == p.ctcss_state@,
        p.ctcss_state@.tone_mask != 0 ==> {
            &&& c_a == c_ab
            &&& c_b == c_ab
            &&& m.ctcss_state@.decoded == p.ctcss_state@.decoded
            &&& q.ctcss_state@.decoded == p.ctcss_state@.decoded
            &&& w.ctcss_state@.decoded == p.ctcss_state@.decoded
            &&& center_slicer::spec_fits_state(p.ctcss_view().tracker(p.ctcss_view().lsd_output(x), x.len() as int))
        },
    ensures
        q.lsd_history@ == w.lsd_history@,
        q.center_state == w.center_state,
        q.ctcss_state@ == w.ctcss_state@,
{
    let pv = p.ctcss_view();
    let mv = m.ctcss_view();
    let qv = q.ctcss_view();
    let wv = w.ctcss_view();
    if p.ctcss_state@.tone_mask != 0 {
        crate::receive_path::lemma_ctcss_stage_partition(pv, mv, qv, x, y);
        assert(m.ctcss_state@.tone_mask == p.ctcss_state@.tone_mask);
        assert(m.limited@ + q.limited@ == w.limited@);
        if x.len() != 0 && y.len() != 0 {
            ctcss_receive::lemma_bank_join(p.ctcss_state@, m.limited@, q.limited@, c_ab);
        } else if x.len() == 0 {
            assert(m.limited@.len() == 0);
            assert(w.limited@ =~= q.limited@);
            assert(x + y =~= y);
        } else {
            assert(q.limited@.len() == 0);
            assert(w.limited@ =~= m.limited@);
            assert(x + y =~= x);
        }
    }
}

/// Gate remainders carried across two spans: the frames elapsed in the
/// current gate interval advance by each span, as by the joined span.
pub proof fn lemma_remainder_join(r: u32, n_a: u32, n_b: u32)
    requires
        r < 960,
        n_a + n_b + 960 <= u32::MAX,
    ensures
        r.wrapping_add(n_a) % 960 == ((r + n_a) % 960) as u32,
        (r.wrapping_add(n_a) % 960).wrapping_add(n_b) % 960 == r.wrapping_add((n_a + n_b) as u32) % 960,
{
    let x = r + n_a;
    let q = x / 960;
    let s = x % 960;
    vstd::arithmetic::div_mod::lemma_fundamental_div_mod(x, 960);
    vstd::arithmetic::div_mod::lemma_mod_bound(x, 960);
    vstd::arithmetic::div_mod::lemma_mod_multiples_vanish(q, s + n_b, 960);
    assert(960 * q + (s + n_b) == x + n_b);
}

/// The delay line over two consecutive spans ends where one joined span
/// leaves it: same storage, cursor, muting and gate remainder.
pub proof fn lemma_delay_path_join(
    p: ReceivePath,
    m: ReceivePath,
    q: ReceivePath,
    w: ReceivePath,
    off_a: Seq<u32>,
    off_b: Seq<u32>,
    g_a: Seq<u8>,
    g_b: Seq<u8>,
    n_a: u32,
    n_b: u32,
)
    requires
        p.wf(),
        p.delay_config is Some,
        m.delay_config == p.delay_config,
        m.vox_config is Some == p.vox_config is Some,
        p.spec_delay_stage(&m, m.spec_delay_input(), off_a, g_a, n_a, off_a.len() as int),
        m.spec_delay_stage(&q, q.spec_delay_input(), off_b, g_b, n_b, off_b.len() as int),
        p.spec_delay_stage(&w, w.spec_delay_input(), spec_join_offsets(off_a, off_b, n_a as int), g_a + g_b,
            (n_a + n_b) as u32, (off_a.len() + off_b.len()) as int),
        n_a + n_b + 960 <= u32::MAX,
        spec_offsets_shape(off_a, n_a as int),
        spec_offsets_shape(off_b, n_b as int),
        g_a.len() == n_a,
        g_b.len() == n_b,
        off_a.len() <= m.spec_delay_input().len(),
        off_b.len() <= q.spec_delay_input().len(),
        off_a.len() + off_b.len() <= w.spec_delay_input().len(),
        forall|i: int| 0 <= i < off_a.len() ==> w.spec_delay_input()[i] == m.spec_delay_input()[i],
        forall|i: int| 0 <= i < off_b.len() ==> w.spec_delay_input()[off_a.len() + i] == q.spec_delay_input()[i],
    ensures
        q.delay_storage@ == w.delay_storage@,
        q.delay_state == w.delay_state,
        q.delay_outzero == w.delay_outzero,
        q.delay_gate_native_remainder == w.delay_gate_native_remainder,
{
    let delay = p.delay_config.unwrap();
    let lead = delay.lead;
    let vox = p.vox_config is Some;
    let r = p.delay_gate_native_remainder;
    let in_a = m.spec_delay_input();
    let in_b = q.spec_delay_input();
    let in_ab = w.spec_delay_input();
    let c_a = off_a.len() as int;
    let c_b = off_b.len() as int;
    let off_ab = spec_join_offsets(off_a, off_b, n_a as int);
    let run_p = p.spec_delay_run();
    let core_p = spec_core_of(run_p);
    lemma_span_core(run_p, in_a, lead, vox, r, off_a, g_a, n_a, c_a);
    let run_m = m.spec_delay_run();
    assert(spec_core_of(run_m) == spec_core_span(core_p, in_a, lead, vox, r, off_a, g_a, n_a, c_a));
    lemma_span_core(run_m, in_b, lead, vox, m.delay_gate_native_remainder, off_b, g_b, n_b, c_b);
    assert(off_ab.len() == c_a + c_b);
    assert forall|i: int, j: int| 0 <= i <= j < off_ab.len() implies off_ab[i] <= off_ab[j] by {
        if j >= c_a && i < c_a {
            assert(off_ab[j] == off_b[j - c_a] + n_a);
        } else if i >= c_a {
            assert(off_ab[j] == off_b[j - c_a] + n_a);
            assert(off_ab[i] == off_b[i - c_a] + n_a);
        }
    }
    lemma_span_core(run_p, in_ab, lead, vox, r, off_ab, g_a + g_b, (n_a + n_b) as u32, c_a + c_b);
    lemma_remainder_join(r, n_a, n_b);
    let mid = spec_core_span(core_p, in_a, lead, vox, r, off_a, g_a, n_a, c_a);
    lemma_core_span_join(core_p, in_a, in_b, in_ab, lead, vox, r, off_a, off_b, g_a, g_b, n_a, n_b);
    if !vox {
        assert(m.delay_gate_native_remainder == ((r + n_a) % 960) as u32);
    } else {
        assert(spec_core_span(mid, in_b, lead, vox, m.delay_gate_native_remainder, off_b, g_b, n_b, c_b)
            == spec_core_span(mid, in_b, lead, vox, ((r + n_a) % 960) as u32, off_b, g_b, n_b, c_b));
    }
}

/// The VOX and tuning envelopes and the VOX hold after a span.
pub open spec fn spec_envelope_step(before: ReceivePath, after: ReceivePath, b: Seq<i16>, offsets: Seq<u32>, n: u32) -> bool {
    let count = b.len() as int;
    &&& match before.vox_config {
        Some(vox) => {
            let decay = vox.envelope.decay_factor;
            &&& count != 0 ==> after.vox_envelope_state == envelope_meter::spec_final_state(before.vox_envelope_state, b, decay)
            &&& count != 0 ==> after.vox_envelope@ == Seq::new(count as nat, |k: int|
                envelope_meter::spec_state_after(before.vox_envelope_state, b, decay, k + 1).peak)
            &&& count == 0 ==> after.vox_envelope_state == before.vox_envelope_state && after.vox_envelope@.len() == 0
            &&& after.vox_hold_remaining_frames == spec_vox_hold_at(
                before.vox_hold_remaining_frames,
                before.vox_hang_frames,
                offsets,
                after.vox_envelope@,
                vox.envelope.threshold,
                count,
                n as int,
            )
        },
        None => {
            &&& after.vox_envelope_state == before.vox_envelope_state
            &&& after.vox_hold_remaining_frames == before.vox_hold_remaining_frames
        },
    }
    &&& after.measurement_state == match before.measurement_config {
        Some(measurement) => if count != 0 {
            envelope_meter::spec_final_state(before.measurement_state, b, measurement.decay_factor)
        } else {
            before.measurement_state
        },
        None => before.measurement_state,
    }
}

/// The envelopes and the VOX hold over two consecutive spans end where one
/// joined span leaves them.
pub proof fn lemma_envelope_path_join(
    p: ReceivePath,
    m: ReceivePath,
    q: ReceivePath,
    w: ReceivePath,
    x: Seq<i16>,
    y: Seq<i16>,
    off_a: Seq<u32>,
    off_b: Seq<u32>,
    n_a: u32,
    n_b: u32,
)
    requires
        spec_envelope_step(p, m, x, off_a, n_a),
        spec_envelope_step(m, q, y, off_b, n_b),
        spec_envelope_step(p, w, x + y, spec_join_offsets(off_a, off_b, n_a as int), (n_a + n_b) as u32),
        m.vox_config == p.vox_config,
        m.measurement_config == p.measurement_config,
        m.vox_hang_frames == p.vox_hang_frames,
        off_a.len() == x.len(),
        off_b.len() == y.len(),
        spec_offsets_shape(off_a, n_a as int),
        spec_offsets_shape(off_b, n_b as int),
        n_a + n_b <= u32::MAX,
    ensures
        q.vox_envelope_state == w.vox_envelope_state,
        q.vox_hold_remaining_frames == w.vox_hold_remaining_frames,
        q.measurement_state == w.measurement_state,
{
    match p.measurement_config {
        Some(measurement) => {
            lemma_envelope_join(p.measurement_state, x, y, measurement.decay_factor);
        },
        None => {},
    }
    match p.vox_config {
        Some(vox) => {
            let decay = vox.envelope.decay_factor;
            lemma_envelope_join(p.vox_envelope_state, x, y, decay);
            let env_a = m.vox_envelope@;
            let env_b = q.vox_envelope@;
            assert(env_a.len() == x.len());
            assert(env_b.len() == y.len());
            if x.len() + y.len() != 0 {
                assert(w.vox_envelope@ == env_a + env_b);
            } else {
                assert(w.vox_envelope@ =~= env_a + env_b);
            }
            crate::receive_path::lemma_vox_hold_partition(
                p.vox_hold_remaining_frames, p.vox_hang_frames, vox.envelope.threshold, off_a, env_a, n_a, off_b, env_b,
                n_b);
            assert(off_a + off_b.map_values(|offset: u32| (offset + n_a) as u32) =~= spec_join_offsets(
                off_a, off_b, n_a as int));
            assert((x + y).len() == x.len() + y.len());
        },
        None => {},
    }
}

/// The delay line's output for samples it delays without muting, from
/// storage `storage` at cursor `index`.
pub open spec fn spec_delay_out(storage: Seq<i16>, index: int, lead: u32, input: Seq<i16>) -> Seq<i16> {
    Seq::new(input.len(), |k: int| delay_line::spec_delayed(storage, input, index, lead as int, k))
}

/// Gated segments that never mute delay the samples they cover as one
/// segment would.
proof fn lemma_unmuted_gated(
    run: DelayRun,
    input: Seq<i16>,
    lead: u32,
    boundaries: Seq<u32>,
    offsets: Seq<u32>,
    gates: Seq<u8>,
    k: int,
)
    requires
        run.start == 0,
        !run.outzero,
        0 < run.storage.len() <= u32::MAX,
        lead <= run.storage.len(),
        0 <= k <= boundaries.len(),
        spec_gating_shape(input, boundaries, offsets),
        offsets.len() <= run.delayed.len(),
        forall|i: int| 0 <= i < boundaries.len() ==> gates[#[trigger] boundaries[i] - 1] != 0,
    ensures
        ({
            let out = crate::receive_path::spec_delay_gated(run, input, lead, boundaries, offsets, gates, k);
            let e = spec_segment_start(offsets, boundaries, k);
            let prefix = input.subrange(0, e);
            &&& !out.outzero
            &&& out.start == e
            &&& spec_core_of(out) == DelayCore { outzero: false, ..spec_core_segment(spec_core_of(run), prefix, lead) }
            &&& out.delayed.len() == run.delayed.len()
            &&& e <= run.delayed.len() ==> out.delayed.subrange(0, e) == spec_delay_out(
                run.storage, run.state.input_index as int, lead, prefix)
        }),
    decreases k,
{
    lemma_gated_core(run, input, lead, boundaries, offsets, gates, k);
    if k > 0 {
        lemma_unmuted_gated(run, input, lead, boundaries, offsets, gates, k - 1);
        lemma_gated_core(run, input, lead, boundaries, offsets, gates, k - 1);
        let previous = crate::receive_path::spec_delay_gated(run, input, lead, boundaries, offsets, gates, k - 1);
        let s0 = spec_segment_start(offsets, boundaries, k - 1);
        let e = spec_partition(offsets, boundaries[k - 1]);
        lemma_partition_props(offsets, boundaries[k - 1]);
        if k > 1 {
            lemma_partition_monotone(offsets, boundaries[k - 2], boundaries[k - 1]);
        }
        assert(0 <= s0 <= e <= input.len());
        let first = input.subrange(0, s0);
        let second = input.subrange(s0, e);
        assert(first + second =~= input.subrange(0, e));
        assert(gates[boundaries[k - 1] - 1] != 0);
        let c0 = spec_core_of(run);
        lemma_core_join(c0, first, second, lead);
        let idx = run.state.input_index as int;
        delay_line::lemma_span_partition(run.storage, first, second, idx, lead as int);
        if e <= run.delayed.len() && s0 < e {
            let seg = spec_delay_segment(previous, input, e, lead);
            let mid_storage = previous.storage;
            if s0 > 0 {
                assert(mid_storage == delay_line::spec_storage_after(run.storage, first, idx, s0));
                lemma_storage_len(run.storage, first, idx, s0);
                let cursor = delay_line::spec_cursor_after(idx, run.storage.len() as int, s0);
                assert(1 <= cursor <= run.storage.len()) by {
                    vstd::arithmetic::div_mod::lemma_mod_bound(idx + s0 - 1, run.storage.len() as int);
                }
                assert(previous.state.input_index as int == cursor);
            } else {
                assert(first.len() == 0);
            }
            assert forall|j: int| 0 <= j < e implies #[trigger] seg.delayed[j] == spec_delay_out(
                run.storage, idx, lead, input.subrange(0, e))[j] by {
                if j < s0 {
                    assert(seg.delayed[j] == previous.delayed[j]);
                    assert(previous.delayed.subrange(0, s0)[j] == spec_delay_out(run.storage, idx, lead, first)[j]);
                } else {
                    let t = j - s0;
                    assert(seg.delayed[j] == delay_line::spec_delayed(mid_storage, second, previous.state.input_index as int,
                        lead as int, t));
                }
            }
            assert(seg.delayed.subrange(0, e) =~= spec_delay_out(run.storage, idx, lead, input.subrange(0, e)));
        } else if e <= run.delayed.len() {
            assert(s0 == e);
            assert(input.subrange(0, e) =~= first);
        }
        let out = crate::receive_path::spec_delay_gated(run, input, lead, boundaries, offsets, gates, k);
        assert(!out.outzero);
        assert(out.start == e);
        assert(spec_core_of(out) == DelayCore { outzero: false, ..spec_core_segment(c0, input.subrange(0, e), lead) });
        assert(out.delayed.len() == run.delayed.len());
    } else {
        assert(input.subrange(0, 0) =~= Seq::<i16>::empty());
        assert(run.delayed.subrange(0, 0) =~= spec_delay_out(run.storage, run.state.input_index as int, lead,
            input.subrange(0, 0)));
    }
}

/// One more unmuted segment extends a run that so far delayed its prefix
/// as one segment.
proof fn lemma_unmuted_step(run: DelayRun, previous: DelayRun, input: Seq<i16>, lead: u32, e: int)
    requires
        run.start == 0,
        !run.outzero,
        0 < run.storage.len() <= u32::MAX,
        lead <= run.storage.len(),
        !previous.outzero,
        0 <= previous.start <= e <= input.len(),
        e <= run.delayed.len(),
        previous.delayed.len() == run.delayed.len(),
        spec_core_of(previous) == (DelayCore {
            outzero: false,
            ..spec_core_segment(spec_core_of(run), input.subrange(0, previous.start), lead)
        }),
        previous.delayed.subrange(0, previous.start) == spec_delay_out(
            run.storage, run.state.input_index as int, lead, input.subrange(0, previous.start)),
    ensures
        ({
            let seg = spec_delay_segment(previous, input, e, lead);
            &&& !seg.outzero
            &&& seg.start == e
            &&& spec_core_of(seg) == (DelayCore {
                outzero: false,
                ..spec_core_segment(spec_core_of(run), input.subrange(0, e), lead)
            })
            &&& seg.delayed.len() == run.delayed.len()
            &&& seg.delayed.subrange(0, e) == spec_delay_out(
                run.storage, run.state.input_index as int, lead, input.subrange(0, e))
        }),
{
    let s0 = previous.start;
    let first = input.subrange(0, s0);
    let second = input.subrange(s0, e);
    assert(first + second =~= input.subrange(0, e));
    let c0 = spec_core_of(run);
    lemma_core_join(c0, first, second, lead);
    lemma_segment_core(previous, input, e, lead);
    let idx = run.state.input_index as int;
    delay_line::lemma_span_partition(run.storage, first, second, idx, lead as int);
    let seg = spec_delay_segment(previous, input, e, lead);
    if s0 < e {
        let mid_storage = previous.storage;
        if s0 > 0 {
            lemma_storage_len(run.storage, first, idx, s0);
            let cursor = delay_line::spec_cursor_after(idx, run.storage.len() as int, s0);
            assert(1 <= cursor <= run.storage.len()) by {
                vstd::arithmetic::div_mod::lemma_mod_bound(idx + s0 - 1, run.storage.len() as int);
            }
            assert(previous.state.input_index as int == cursor);
        }
        assert forall|j: int| 0 <= j < e implies #[trigger] seg.delayed[j] == spec_delay_out(
            run.storage, idx, lead, input.subrange(0, e))[j] by {
            if j < s0 {
                assert(seg.delayed[j] == previous.delayed[j]);
                assert(previous.delayed.subrange(0, s0)[j] == spec_delay_out(run.storage, idx, lead, first)[j]);
            } else {
                let t = j - s0;
                assert(seg.delayed[j] == delay_line::spec_delayed(mid_storage, second, previous.state.input_index as int,
                    lead as int, t));
            }
        }
        assert(seg.delayed.subrange(0, e) =~= spec_delay_out(run.storage, idx, lead, input.subrange(0, e)));
    } else {
        assert(input.subrange(0, e) =~= first);
    }
}

/// A span whose gates never mute delays its samples as one segment would.
pub proof fn lemma_unmuted_span(
    run: DelayRun,
    input: Seq<i16>,
    lead: u32,
    vox: bool,
    remainder: u32,
    offsets: Seq<u32>,
    gates: Seq<u8>,
    native_frame_count: u32,
    count: int,
)
    requires
        run.start == 0,
        !run.outzero,
        0 < run.storage.len() <= u32::MAX,
        lead <= run.storage.len(),
        remainder < 960,
        offsets.len() == count <= input.len(),
        count <= run.delayed.len(),
        forall|i: int, j: int| 0 <= i <= j < offsets.len() ==> offsets[i] <= offsets[j],
        gates.len() == native_frame_count,
        !vox ==> forall|i: int| 0 <= i < native_frame_count ==> gates[i] != 0,
    ensures
        ({
            let out = spec_delay_span(run, input, lead, vox, remainder, offsets, gates, native_frame_count, count);
            &&& !out.outzero
            &&& spec_core_of(out) == (DelayCore {
                outzero: false,
                ..spec_core_segment(spec_core_of(run), input.subrange(0, count), lead)
            })
            &&& out.delayed.subrange(0, count) == spec_delay_out(
                run.storage, run.state.input_index as int, lead, input.subrange(0, count))
        }),
{
    assert(run.delayed.subrange(0, 0) =~= spec_delay_out(run.storage, run.state.input_index as int, lead,
        input.subrange(0, 0)));
    assert(input.subrange(0, 0) =~= Seq::<i16>::empty());
    if vox {
        lemma_unmuted_step(run, run, input, lead, count);
    } else {
        let boundaries = spec_gate_boundaries(remainder as int, native_frame_count as int);
        let k = boundaries.len() as int;
        lemma_boundaries_sorted(remainder as int, native_frame_count as int);
        assert forall|i: int| 0 <= i < boundaries.len() implies gates[#[trigger] boundaries[i] - 1] != 0 by {
            assert(1 <= boundaries[i] <= native_frame_count);
        }
        lemma_unmuted_gated(run, input, lead, boundaries, offsets, gates, k);
        let gated = crate::receive_path::spec_delay_gated(run, input, lead, boundaries, offsets, gates, k);
        lemma_gated_core(run, input, lead, boundaries, offsets, gates, k);
        lemma_unmuted_step(run, gated, input, lead, count);
    }
}

/// Without muting, the delayed voice of two consecutive spans joins into
/// the joined span's.
pub proof fn lemma_delayed_output_join(
    p: ReceivePath,
    m: ReceivePath,
    q: ReceivePath,
    w: ReceivePath,
    off_a: Seq<u32>,
    off_b: Seq<u32>,
    g_a: Seq<u8>,
    g_b: Seq<u8>,
    n_a: u32,
    n_b: u32,
)
    requires
        p.wf(),
        m.wf(),
        p.delay_config is Some,
        !p.delay_outzero,
        m.delay_config == p.delay_config,
        m.vox_config is Some == p.vox_config is Some,
        p.spec_delay_stage(&m, m.spec_delay_input(), off_a, g_a, n_a, off_a.len() as int),
        m.spec_delay_stage(&q, q.spec_delay_input(), off_b, g_b, n_b, off_b.len() as int),
        p.spec_delay_stage(&w, w.spec_delay_input(), spec_join_offsets(off_a, off_b, n_a as int), g_a + g_b,
            (n_a + n_b) as u32, (off_a.len() + off_b.len()) as int),
        n_a + n_b + 960 <= u32::MAX,
        spec_offsets_shape(off_a, n_a as int),
        spec_offsets_shape(off_b, n_b as int),
        g_a.len() == n_a,
        g_b.len() == n_b,
        p.vox_config is None ==> forall|i: int| 0 <= i < n_a ==> g_a[i] != 0,
        p.vox_config is None ==> forall|i: int| 0 <= i < n_b ==> g_b[i] != 0,
        off_a.len() <= m.spec_delay_input().len(),
        off_b.len() <= q.spec_delay_input().len(),
        off_a.len() + off_b.len() <= w.spec_delay_input().len(),
        off_a.len() + off_b.len() <= p.delayed@.len(),
        off_b.len() <= m.delayed@.len(),
        forall|i: int| 0 <= i < off_a.len() ==> w.spec_delay_input()[i] == m.spec_delay_input()[i],
        forall|i: int| 0 <= i < off_b.len() ==> w.spec_delay_input()[off_a.len() + i] == q.spec_delay_input()[i],
    ensures
        m.delayed@.subrange(0, off_a.len() as int) + q.delayed@.subrange(0, off_b.len() as int)
            == w.delayed@.subrange(0, (off_a.len() + off_b.len()) as int),
{
    let delay = p.delay_config.unwrap();
    let lead = delay.lead;
    let vox = p.vox_config is Some;
    let r = p.delay_gate_native_remainder;
    let in_a = m.spec_delay_input();
    let in_b = q.spec_delay_input();
    let in_ab = w.spec_delay_input();
    let c_a = off_a.len() as int;
    let c_b = off_b.len() as int;
    let off_ab = spec_join_offsets(off_a, off_b, n_a as int);
    assert forall|i: int, j: int| 0 <= i <= j < off_ab.len() implies off_ab[i] <= off_ab[j] by {
        if j >= c_a && i < c_a {
            assert(off_ab[j] == off_b[j - c_a] + n_a);
        } else if i >= c_a {
            assert(off_ab[j] == off_b[j - c_a] + n_a);
            assert(off_ab[i] == off_b[i - c_a] + n_a);
        }
    }
    let g_ab = g_a + g_b;
    assert(!vox ==> forall|i: int| 0 <= i < n_a + n_b ==> g_ab[i] != 0) by {
        if !vox {
            assert forall|i: int| 0 <= i < n_a + n_b implies g_ab[i] != 0 by {
                if i >= n_a {
                    assert(g_ab[i] == g_b[i - n_a]);
                }
            }
        }
    }
    let run_p = p.spec_delay_run();
    let run_m = m.spec_delay_run();
    lemma_unmuted_span(run_p, in_a, lead, vox, r, off_a, g_a, n_a, c_a);
    lemma_unmuted_span(run_m, in_b, lead, vox, m.delay_gate_native_remainder, off_b, g_b, n_b, c_b);
    lemma_unmuted_span(run_p, in_ab, lead, vox, r, off_ab, g_ab, (n_a + n_b) as u32, c_a + c_b);
    let x = in_a.subrange(0, c_a);
    let y = in_b.subrange(0, c_b);
    assert(in_ab.subrange(0, c_a + c_b) =~= x + y);
    let idx = p.delay_state.input_index as int;
    delay_line::lemma_span_partition(p.delay_storage@, x, y, idx, lead as int);
    if c_a > 0 {
        lemma_storage_len(p.delay_storage@, x, idx, c_a);
        let cursor = delay_line::spec_cursor_after(idx, p.delay_storage@.len() as int, c_a);
        assert(1 <= cursor <= p.delay_storage@.len()) by {
            vstd::arithmetic::div_mod::lemma_mod_bound(idx + c_a - 1, p.delay_storage@.len() as int);
        }
        assert(m.delay_state.input_index as int == cursor);
    } else {
        assert(x.len() == 0);
    }
    let out_a = spec_delay_out(p.delay_storage@, idx, lead, x);
    let out_b = spec_delay_out(m.delay_storage@, m.delay_state.input_index as int, lead, y);
    let out_ab = spec_delay_out(p.delay_storage@, idx, lead, x + y);
    assert forall|k: int| 0 <= k < c_a + c_b implies #[trigger] (out_a + out_b)[k] == out_ab[k] by {
        if k >= c_a {
            assert(out_b[k - c_a] == out_ab[c_a + (k - c_a)]);
        }
    }
    assert(out_a + out_b =~= out_ab);
}

/// Every emission offset is a native frame of its span.
pub proof fn lemma_offsets_shape(decimator: int, native_frame_count: int, maximum: int)
    requires
        decimator <= 6,
        0 <= native_frame_count <= maximum <= u32::MAX,
    ensures
        spec_offsets_shape(spec_emission_offsets(decimator, native_frame_count, 6), native_frame_count),
        spec_emission_offsets(decimator, native_frame_count, 6).len() <= (maximum + 2 * 6 - 2) / 6,
{
    crate::receive_path::lemma_emission_offsets_shape(decimator, native_frame_count, maximum);
    let offsets = spec_emission_offsets(decimator, native_frame_count, 6);
    let first = spec_first_emission(decimator);
    assert forall|i: int| 0 <= i < offsets.len() implies 1 <= #[trigger] offsets[i] by {
        assert(first + i * 6 >= 1) by (nonlinear_arith) requires i >= 0, first >= 1;
        assert(first + i * 6 <= native_frame_count) by (nonlinear_arith)
            requires 0 <= i < offsets.len(), offsets.len() == (native_frame_count - first) / 6 + 1,
                native_frame_count >= first;
    }
}

/// What one accepted, non-empty span establishes about a path.
pub open spec fn spec_span_facts(
    before: ReceivePath,
    after: ReceivePath,
    frontend: FrontendSpan,
    external_carrier: Option<bool>,
    result: ProcessResult,
) -> bool {
    let n = frontend.native_frame_count;
    let b = frontend.baseband@;
    let count = b.len() as int;
    let offsets = spec_emission_offsets(frontend.decimator_before as int, n as int, before.decimate as int);
    let carrier = match before.vox_config {
        Some(vox) => after.vox_hold_remaining_frames != 0,
        None => frontend.comparator_open,
    };
    &&& before.spec_span_accepted(frontend)
    &&& result.carrier_detect == carrier
    &&& result.vox_detect == match before.vox_config {
        Some(vox) => count != 0 && after.vox_envelope_state.peak >= vox.envelope.threshold,
        None => false,
    }
    &&& result.ctcss_decoded == if before.spec_ctcss_runs(count) {
        after.ctcss_state@.decoded
    } else {
        before.ctcss_state@.decoded
    }
    &&& result.dcs_valid == frontend.dcs_valid
    &&& result.rssi_peak == frontend.rssi_peak
    &&& after.last_baseband_count == count
    &&& after.baseband@ == b
    &&& after.carrier_gate@ == frontend.carrier_gates@
    &&& before.spec_ctcss_stage(&after, b)
    &&& before.spec_voice_stage(&after, b)
    &&& before.spec_delay_stage(&after, after.spec_delay_input(), offsets, frontend.carrier_gates@, n, count)
    &&& spec_envelope_step(before, after, b, offsets, n)
    &&& before.spec_ctcss_runs(count) ==> after.ctcss_state@ == ctcss_receive::spec_process(
        before.ctcss_state@, after.limited@, spec_ctcss_carrier(external_carrier, result))
    &&& !before.spec_ctcss_runs(count) ==> after.ctcss_state@ == before.ctcss_state@
    &&& after.spec_same_setup(&before)
}

/// An accepted, non-empty span establishes its facts.
pub proof fn lemma_span_facts(
    before: ReceivePath,
    after: ReceivePath,
    frontend: FrontendSpan,
    external_carrier: Option<bool>,
    result: ProcessResult,
)
    requires
        before.spec_span_processed(&after, frontend, external_carrier, Ok(result)),
        frontend.native_frame_count != 0,
    ensures
        spec_span_facts(before, after, frontend, external_carrier, result),
{
}

/// Two consecutive frontend spans and the span that joins them: frame
/// counts add, baseband codes and carrier gates concatenate, the second
/// span starts at the decimator phase the first leaves, and the joined
/// span ends with the second span's comparator, RSSI and DCS reports.
pub open spec fn spec_frontend_joined(a: FrontendSpan, b: FrontendSpan, ab: FrontendSpan, decimate: u32) -> bool {
    &&& ab.native_frame_count == a.native_frame_count + b.native_frame_count
    &&& ab.decimator_before == a.decimator_before
    &&& b.decimator_before as int == spec_decimator_after(
        a.decimator_before as int, a.native_frame_count as int, decimate as int)
    &&& ab.baseband@ == a.baseband@ + b.baseband@
    &&& ab.carrier_gates@ == a.carrier_gates@ + b.carrier_gates@
    &&& ab.comparator_open == b.comparator_open
    &&& ab.rssi_peak == b.rssi_peak
    &&& ab.dcs_valid == b.dcs_valid
}

/// The detector state that outlasts a call: configuration and timers,
/// filter histories, slicer, deemphasis, delay line, envelopes, VOX hold
/// and the CTCSS detector bank.
pub open spec fn spec_same_detectors(x: ReceivePath, y: ReceivePath) -> bool {
    &&& x.spec_same_setup(&y)
    &&& x.lsd_history@ == y.lsd_history@
    &&& x.hpf_history@ == y.hpf_history@
    &&& x.center_state == y.center_state
    &&& x.deemphasis_state == y.deemphasis_state
    &&& x.delay_storage@ == y.delay_storage@
    &&& x.delay_state == y.delay_state
    &&& x.delay_outzero == y.delay_outzero
    &&& x.delay_gate_native_remainder == y.delay_gate_native_remainder
    &&& x.vox_envelope_state == y.vox_envelope_state
    &&& x.measurement_state == y.measurement_state
    &&& x.vox_hold_remaining_frames == y.vox_hold_remaining_frames
    &&& x.ctcss_state@ == y.ctcss_state@
}

/// The receiver audio of a path's latest call, as `voice_output` returns it.
pub open spec fn spec_voice_out(x: ReceivePath) -> Seq<i16> {
    if x.hpf_controls is None {
        Seq::empty()
    } else if x.delay_config is Some {
        x.delayed@.subrange(0, x.last_baseband_count as int)
    } else {
        x.voice@.subrange(0, x.last_baseband_count as int)
    }
}

/// Callback partitioning does not change the receive path.  Processing
/// frontend span `a` and then span `b` leaves the detectors where one call
/// over the span joining them leaves them, reports the same carrier, CTCSS
/// decode, DCS and RSSI, and the calls' baseband codes, carrier gates and
/// voice join into the joined call's.  With a delay line the voice joins
/// while the delay never mutes: a muted, already cleared line leaves its
/// output workspace as the previous call wrote it.
///
/// It holds while the voice stages are awake and, with CTCSS configured,
/// while the bank is qualified by the same carrier in both calls, neither
/// call nor the joined one changes its decode decision (the bank decides
/// once per call over the call's samples), and the slicer's extrema at the
/// split fit its signed-16 state.  The joined span stays a machine limit
/// short of `u32::MAX` frames.
pub proof fn lemma_receive_path_partition(
    p: ReceivePath,
    m: ReceivePath,
    q: ReceivePath,
    w: ReceivePath,
    a: FrontendSpan,
    b: FrontendSpan,
    ab: FrontendSpan,
    external_carrier: Option<bool>,
    ra: ProcessResult,
    rb: ProcessResult,
    rw: ProcessResult,
)
    requires
        p.wf(),
        m.wf(),
        a.native_frame_count != 0,
        b.native_frame_count != 0,
        spec_frontend_joined(a, b, ab, p.decimate),
        ab.native_frame_count + 960 <= u32::MAX,
        p.spec_span_processed(&m, a, external_carrier, Ok(ra)),
        m.spec_span_processed(&q, b, external_carrier, Ok(rb)),
        p.spec_span_processed(&w, ab, external_carrier, Ok(rw)),
        p.voice_processing_active,
        p.ctcss_state@.tone_mask != 0 ==> {
            &&& spec_ctcss_carrier(external_carrier, ra) == spec_ctcss_carrier(external_carrier, rb)
            &&& m.ctcss_state@.decoded == p.ctcss_state@.decoded
            &&& q.ctcss_state@.decoded == p.ctcss_state@.decoded
            &&& w.ctcss_state@.decoded == p.ctcss_state@.decoded
            &&& center_slicer::spec_fits_state(
                p.ctcss_view().tracker(p.ctcss_view().lsd_output(a.baseband@), a.baseband@.len() as int))
        },
    ensures
        spec_same_detectors(q, w),
        rb.carrier_detect == rw.carrier_detect,
        rb.ctcss_decoded == rw.ctcss_decoded,
        rb.dcs_valid == rw.dcs_valid,
        rb.rssi_peak == rw.rssi_peak,
        b.baseband@.len() != 0 ==> rb.vox_detect == rw.vox_detect,
        m.baseband@ + q.baseband@ == w.baseband@,
        m.carrier_gate@ + q.carrier_gate@ == w.carrier_gate@,
        p.delay_config is None ==> spec_voice_out(m) + spec_voice_out(q) == spec_voice_out(w),
        p.delay_config is Some && !p.delay_outzero && (p.vox_config is None ==> forall|i: int|
            0 <= i < ab.carrier_gates@.len() ==> ab.carrier_gates@[i] != 0) ==> spec_voice_out(m) + spec_voice_out(q)
            == spec_voice_out(w),
{
    lemma_span_facts(p, m, a, external_carrier, ra);
    lemma_span_facts(m, q, b, external_carrier, rb);
    lemma_span_facts(p, w, ab, external_carrier, rw);
    let n_a = a.native_frame_count;
    let n_b = b.native_frame_count;
    let x = a.baseband@;
    let y = b.baseband@;
    let c_a = x.len() as int;
    let c_b = y.len() as int;
    let off_a = spec_emission_offsets(a.decimator_before as int, n_a as int, 6);
    let off_b = spec_emission_offsets(b.decimator_before as int, n_b as int, 6);
    lemma_offsets_join(a.decimator_before as int, n_a as int, n_b as int);
    assert(spec_emission_offsets(ab.decimator_before as int, ab.native_frame_count as int, 6)
        =~= spec_join_offsets(off_a, off_b, n_a as int));
    lemma_offsets_shape(a.decimator_before as int, n_a as int, p.maximum_native_frames as int);
    lemma_offsets_shape(b.decimator_before as int, n_b as int, m.maximum_native_frames as int);
    assert(c_a <= p.baseband_capacity && c_b <= p.baseband_capacity);
    // Envelopes and VOX hold.
    lemma_envelope_path_join(p, m, q, w, x, y, off_a, off_b, n_a, n_b);
    // Voice stages.
    let pv = p.voice_view();
    let mv = m.voice_view();
    let qv = q.voice_view();
    let wv = w.voice_view();
    lemma_voice_join(pv, mv, qv, wv, x, y);
    if p.hpf_controls is Some {
        lemma_voice_prefix(pv, mv, x);
        lemma_voice_prefix(mv, qv, y);
        lemma_voice_prefix(pv, wv, x + y);
        let vx = pv.voice_output(x);
        let vy = mv.voice_output(y);
        lemma_voice_output_len(pv, x);
        lemma_voice_output_len(mv, y);
        assert(spec_voice_workspace(mv) == m.spec_delay_input());
        assert(spec_voice_workspace(qv) == q.spec_delay_input());
        assert(spec_voice_workspace(wv) == w.spec_delay_input());
        assert forall|i: int| 0 <= i < c_a implies w.spec_delay_input()[i] == m.spec_delay_input()[i] by {
            assert(w.spec_delay_input().subrange(0, c_a + c_b)[i] == (vx + vy)[i]);
            assert(m.spec_delay_input().subrange(0, c_a)[i] == vx[i]);
        }
        assert forall|i: int| 0 <= i < c_b implies w.spec_delay_input()[c_a + i] == q.spec_delay_input()[i] by {
            assert(w.spec_delay_input().subrange(0, c_a + c_b)[c_a + i] == (vx + vy)[c_a + i]);
            assert(q.spec_delay_input().subrange(0, c_b)[i] == vy[i]);
        }
        if p.delay_config is Some && !p.delay_outzero && (p.vox_config is None ==> forall|i: int|
            0 <= i < ab.carrier_gates@.len() ==> ab.carrier_gates@[i] != 0) {
            if p.vox_config is None {
                assert forall|i: int| 0 <= i < n_a implies a.carrier_gates@[i] != 0 by {
                    assert(ab.carrier_gates@[i] == a.carrier_gates@[i]);
                }
                assert forall|i: int| 0 <= i < n_b implies b.carrier_gates@[i] != 0 by {
                    assert(ab.carrier_gates@[n_a + i] == b.carrier_gates@[i]);
                }
            }
            lemma_delayed_output_join(p, m, q, w, off_a, off_b, a.carrier_gates@, b.carrier_gates@, n_a, n_b);
        }
        if p.delay_config is None {
            assert(spec_voice_out(m) == vx);
            assert(spec_voice_out(q) == vy);
            assert(spec_voice_out(w) == vx + vy);
        }
    }
    assert(w.deemphasis_state == q.deemphasis_state);
    // Delay line.
    if p.delay_config is Some {
        lemma_delay_path_join(p, m, q, w, off_a, off_b, a.carrier_gates@, b.carrier_gates@, n_a, n_b);
    }
    // CTCSS stages and detector bank.
    let c_ab_carrier = spec_ctcss_carrier(external_carrier, rw);
    assert(rb.carrier_detect == rw.carrier_detect);
    lemma_ctcss_path_join(p, m, q, w, x, y, spec_ctcss_carrier(external_carrier, ra),
        spec_ctcss_carrier(external_carrier, rb), c_ab_carrier);
}

/// Every accepted span emits no more baseband samples than the workspaces
/// sized at construction hold, whatever decimator phase it starts from.
pub proof fn lemma_baseband_within_capacity(
    p: ReceivePath,
    next: ReceivePath,
    frontend: FrontendSpan,
    external_carrier: Option<bool>,
    result: ProcessResult,
)
    requires
        p.wf(),
        p.spec_span_processed(&next, frontend, external_carrier, Ok(result)),
    ensures
        result.baseband_frame_count <= p.baseband_capacity,
        next.baseband_capacity == p.baseband_capacity,
{
    lemma_offsets_shape(frontend.decimator_before as int, frontend.native_frame_count as int, p.maximum_native_frames as int);
}

} // verus!
