//! Legacy-compatible circular delay line.
//!
//! Receiver audio is delayed until carrier qualification is known.  The
//! caller retains the circular storage and the cursor.  Samples are any
//! `Copy` type; `silence` is the value a reset writes.

use vstd::prelude::*;
use crate::RADIO_INVALID_ARGUMENT;

verus! {

/// Caller-owned cursor and reset state for one circular delay line.
#[derive(Clone, Copy, Debug, PartialEq, Eq, Structural)]
pub struct State {
    /// Next circular-storage position to receive a sample.
    pub input_index: u32,
    /// Nonzero while historical samples must be cleared on a silent reset.
    pub dirty: u32,
}

impl Default for State {
    fn default() -> (state: Self)
        ensures
            state == (State { input_index: 0, dirty: 0 }),
    {
        State { input_index: 0, dirty: 0 }
    }
}

/// Storage position written by the `k`-th sample of a span.
pub open spec fn spec_write_position(input_index: int, capacity: int, k: int) -> int {
    (input_index + k) % capacity
}

/// Storage after writing the first `count` samples of a span.
pub open spec fn spec_storage_after<T>(storage: Seq<T>, input: Seq<T>, input_index: int, count: int) -> Seq<T>
    decreases count,
{
    if count <= 0 {
        storage
    } else {
        spec_storage_after(storage, input, input_index, count - 1).update(
            spec_write_position(input_index, storage.len() as int, count - 1),
            input[count - 1],
        )
    }
}

/// The delayed output sample `k` of an enabled span: the input `lead`
/// samples earlier, reaching back into storage for the span's first samples.
/// A lead of zero or of the whole storage passes the input through.
pub open spec fn spec_delayed<T>(storage: Seq<T>, input: Seq<T>, input_index: int, lead: int, k: int) -> T {
    let capacity = storage.len() as int;
    let delay = lead % capacity;
    if delay == 0 {
        input[k]
    } else if k >= delay {
        input[k - delay]
    } else {
        storage[(input_index + k + capacity - delay) % capacity]
    }
}

/// Whether a span resets the line instead of delaying audio.
pub open spec fn spec_resets(enabled: bool, outzero: bool) -> bool {
    !enabled || outzero
}

/// Process one delay-line span with historical reset semantics.
///
/// A disabled or `outzero` call clears storage and output only when `dirty`
/// is set; otherwise it leaves every buffer unchanged.  An enabled call
/// writes each input before reading the delayed position.
pub fn process<T: Copy>(
    input: &[T],
    output: &mut Vec<T>,
    storage: &mut Vec<T>,
    lead: u32,
    state: &mut State,
    enabled: bool,
    outzero: bool,
    silence: T,
) -> (result: Result<(), i32>)
    requires
        old(storage).len() <= u32::MAX,
        !spec_resets(enabled, outzero) ==> old(output).len() == input.len(),
    ensures
        result is Err <==> (old(storage).len() == 0 || lead > old(storage).len()),
        result matches Err(code) ==> code == RADIO_INVALID_ARGUMENT,
        result is Err || (spec_resets(enabled, outzero) && old(state).dirty == 0) ==> *final(state)
            == *old(state) && final(storage)@ == old(storage)@ && final(output)@ == old(output)@,
        result is Ok && spec_resets(enabled, outzero) && old(state).dirty != 0 ==> ({
            &&& *final(state) == (State { input_index: 0, dirty: 0 })
            &&& final(storage)@ == Seq::new(old(storage).len() as nat, |i: int| silence)
            &&& final(output)@ == Seq::new(old(output).len() as nat, |i: int| silence)
        }),
        result is Ok && !spec_resets(enabled, outzero) ==> ({
            let capacity = old(storage).len() as int;
            let start = old(state).input_index as int;
            &&& final(storage)@ == spec_storage_after(old(storage)@, input@, start, input.len() as int)
            &&& final(output)@.len() == input.len()
            &&& forall|k: int| 0 <= k < input.len() ==> #[trigger] final(output)@[k]
                == spec_delayed(old(storage)@, input@, start, lead as int, k)
            &&& final(state).dirty == 1
            &&& final(state).input_index == spec_cursor_after(start, capacity, input.len() as int)
        }),
{
    let capacity_u32 = storage.len() as u32;
    if storage.len() == 0 || lead > capacity_u32 {
        return Err(RADIO_INVALID_ARGUMENT);
    }
    if !enabled || outzero {
        if state.dirty == 0 {
            return Ok(());
        }
        let mut index: usize = 0;
        let ghost storage_len = storage.len();
        while index < storage.len()
            invariant
                storage.len() == storage_len,
                index <= storage_len,
                forall|i: int| 0 <= i < index ==> #[trigger] storage@[i] == silence,
            decreases storage_len - index,
        {
            storage.set(index, silence);
            index = index + 1;
        }
        let mut index: usize = 0;
        let ghost output_len = output.len();
        while index < output.len()
            invariant
                output.len() == output_len,
                index <= output_len,
                forall|i: int| 0 <= i < index ==> #[trigger] output@[i] == silence,
            decreases output_len - index,
        {
            output.set(index, silence);
            index = index + 1;
        }
        assert(storage@ =~= Seq::new(storage_len as nat, |i: int| silence));
        assert(output@ =~= Seq::new(output_len as nat, |i: int| silence));
        state.input_index = 0;
        state.dirty = 0;
        return Ok(());
    }
    let capacity: u64 = storage.len() as u64;
    let ghost start = state.input_index as int;
    let ghost initial = storage@;
    let mut input_index: u64 = state.input_index as u64;
    let mut output_index: u64 = (input_index + capacity - lead as u64) % capacity;
    proof {
        vstd::arithmetic::div_mod::lemma_mod_twice(start + capacity - lead, capacity as int);
        vstd::arithmetic::div_mod::lemma_mod_bound(start + capacity - lead, capacity as int);
    }
    let mut index: usize = 0;
    while index < input.len()
        invariant
            capacity == storage.len(),
            capacity == initial.len(),
            0 < capacity <= u32::MAX,
            start == old(state).input_index,
            start >= 0,
            lead <= capacity,
            output.len() == input.len(),
            index <= input.len(),
            index == 0 ==> input_index == start,
            index > 0 ==> input_index == (start + index - 1) % (capacity as int) + 1,
            (output_index as int) % (capacity as int) == (start + index + capacity - lead) % (capacity as int),
            output_index <= capacity,
            storage@ == spec_storage_after(initial, input@, start, index as int),
            forall|k: int| 0 <= k < index ==> #[trigger] output@[k]
                == spec_delayed(initial, input@, start, lead as int, k),
        decreases input.len() - index,
    {
        proof {
            lemma_write_position(start, capacity as int, index as int, input_index as int);
        }
        input_index = input_index % capacity;
        output_index = output_index % capacity;
        let sample = input[index];
        storage.set(input_index as usize, sample);
        let delayed = storage[output_index as usize];
        proof {
            lemma_delayed_read(initial, input@, start, lead as int, index as int);
        }
        output.set(index, delayed);
        input_index = input_index + 1;
        output_index = output_index + 1;
        index = index + 1;
        proof {
            lemma_mod_successor(start + index - 1 + capacity - lead, capacity as int);
        }
    }
    state.input_index = input_index as u32;
    state.dirty = 1;
    Ok(())
}

/// `(x + 1) % m` from `x % m`.
proof fn lemma_mod_successor(x: int, m: int)
    requires
        m > 0,
    ensures
        (x % m + 1) % m == (x + 1) % m,
{
    vstd::arithmetic::div_mod::lemma_add_mod_noop(x, 1, m);
    vstd::arithmetic::div_mod::lemma_mod_twice(x, m);
    if m == 1 {
        vstd::arithmetic::div_mod::lemma_mod_self_0(1);
        vstd::arithmetic::div_mod::lemma_mod_bound(x % m + 1, m);
        vstd::arithmetic::div_mod::lemma_mod_bound(x + 1, m);
    } else {
        vstd::arithmetic::div_mod::lemma_small_mod(1, m as nat);
        vstd::arithmetic::div_mod::lemma_add_mod_noop(x % m, 1, m);
    }
}

/// The cursor reduced at step `index` is the step's write position.
proof fn lemma_write_position(start: int, capacity: int, index: int, cursor: int)
    requires
        capacity > 0,
        start >= 0,
        index >= 0,
        index == 0 ==> cursor == start,
        index > 0 ==> cursor == (start + index - 1) % capacity + 1,
    ensures
        cursor % capacity == spec_write_position(start, capacity, index),
{
    if index > 0 {
        lemma_mod_successor(start + index - 1, capacity);
    }
}

/// The sample read after writing step `k` is the delayed sample.
proof fn lemma_delayed_read<T>(initial: Seq<T>, input: Seq<T>, start: int, lead: int, k: int)
    requires
        initial.len() > 0,
        0 <= lead <= initial.len(),
        start >= 0,
        0 <= k < input.len(),
    ensures
        ({
            let capacity = initial.len() as int;
            spec_storage_after(initial, input, start, k + 1)[(start + k + capacity - lead) % capacity]
                == spec_delayed(initial, input, start, lead, k)
        }),
{
    let capacity = initial.len() as int;
    let delay = lead % capacity;
    let read = (start + k + capacity - lead) % capacity;
    assert(lead == capacity ==> delay == 0) by {
        vstd::arithmetic::div_mod::lemma_mod_self_0(capacity);
    }
    assert(lead < capacity ==> delay == lead) by {
        if lead < capacity {
            vstd::arithmetic::div_mod::lemma_small_mod(lead as nat, capacity as nat);
        }
    }
    if delay == 0 {
        assert(read == spec_write_position(start, capacity, k)) by {
            if lead == 0 {
                vstd::arithmetic::div_mod::lemma_mod_add_multiples_vanish(start + k, capacity);
            }
        }
        lemma_storage_after_len(initial, input, start, k + 1);
    } else if k >= delay {
        lemma_storage_keeps_recent(initial, input, start, k + 1, k - delay);
        assert(spec_write_position(start, capacity, k - delay) == read) by {
            vstd::arithmetic::div_mod::lemma_mod_add_multiples_vanish(start + k - lead, capacity);
        }
    } else {
        assert forall|j: int| 0 <= j < k + 1 implies #[trigger] spec_write_position(start, capacity, j) != read by {
            let e = k - j - lead + capacity;
            lemma_distinct_positions(start, capacity, j, j + e);
        }
        assert(0 <= read < capacity) by {
            vstd::arithmetic::div_mod::lemma_mod_bound(start + k + capacity - lead, capacity);
        }
        lemma_storage_keeps_unwritten(initial, input, start, k + 1, read);
    }
}

/// Writing never changes the storage length.
proof fn lemma_storage_after_len<T>(storage: Seq<T>, input: Seq<T>, start: int, count: int)
    requires
        storage.len() > 0,
        start >= 0,
        count <= input.len(),
    ensures
        spec_storage_after(storage, input, start, count).len() == storage.len(),
        count > 0 ==> spec_storage_after(storage, input, start, count)[spec_write_position(
            start,
            storage.len() as int,
            count - 1,
        )] == input[count - 1],
    decreases count,
{
    if count > 0 {
        lemma_storage_after_len(storage, input, start, count - 1);
    }
}

/// A sample written within the last `capacity` writes is still stored.
proof fn lemma_storage_keeps_recent<T>(storage: Seq<T>, input: Seq<T>, start: int, count: int, j: int)
    requires
        storage.len() > 0,
        start >= 0,
        count <= input.len(),
        0 <= j < count,
        count - j <= storage.len(),
    ensures
        spec_storage_after(storage, input, start, count)[spec_write_position(start, storage.len() as int, j)]
            == input[j],
    decreases count,
{
    let capacity = storage.len() as int;
    lemma_storage_after_len(storage, input, start, count);
    lemma_storage_after_len(storage, input, start, count - 1);
    vstd::arithmetic::div_mod::lemma_mod_bound(start + j, capacity);
    vstd::arithmetic::div_mod::lemma_mod_bound(start + count - 1, capacity);
    if j < count - 1 {
        lemma_storage_keeps_recent(storage, input, start, count - 1, j);
        lemma_distinct_positions(start, capacity, j, count - 1);
    }
}

/// Positions written fewer than `capacity` steps apart differ.
proof fn lemma_distinct_positions(start: int, capacity: int, j: int, k: int)
    requires
        capacity > 0,
        start >= 0,
        0 <= j < k,
        k - j < capacity,
    ensures
        spec_write_position(start, capacity, j) != spec_write_position(start, capacity, k),
{
    let a = start + j;
    let b = start + k;
    vstd::arithmetic::div_mod::lemma_fundamental_div_mod(a, capacity);
    vstd::arithmetic::div_mod::lemma_fundamental_div_mod(b, capacity);
    if a % capacity == b % capacity {
        assert(b - a == capacity * (b / capacity - a / capacity)) by (nonlinear_arith)
            requires
                a == capacity * (a / capacity) + a % capacity,
                b == capacity * (b / capacity) + b % capacity,
                a % capacity == b % capacity;
        assert(false) by (nonlinear_arith)
            requires
                0 < b - a < capacity,
                b - a == capacity * (b / capacity - a / capacity);
    }
}

/// A position that none of the first `count` writes reached keeps its value.
proof fn lemma_storage_keeps_unwritten<T>(storage: Seq<T>, input: Seq<T>, start: int, count: int, p: int)
    requires
        storage.len() > 0,
        start >= 0,
        0 <= count <= input.len(),
        0 <= p < storage.len(),
        forall|j: int| 0 <= j < count ==> #[trigger] spec_write_position(start, storage.len() as int, j) != p,
    ensures
        spec_storage_after(storage, input, start, count)[p] == storage[p],
    decreases count,
{
    if count > 0 {
        assert(spec_write_position(start, storage.len() as int, count - 1) != p);
        lemma_storage_after_len(storage, input, start, count - 1);
        vstd::arithmetic::div_mod::lemma_mod_bound(start + count - 1, storage.len() as int);
        lemma_storage_keeps_unwritten(storage, input, start, count - 1, p);
    }
}

/// The cursor after an enabled span of `count` samples.
pub open spec fn spec_cursor_after(start: int, capacity: int, count: int) -> int {
    if count == 0 { start } else { (start + count - 1) % capacity + 1 }
}

/// The cursor after a span writes where the span's continuation would.
proof fn lemma_cursor_continues(start: int, capacity: int, count: int, k: int)
    requires
        capacity > 0,
        start >= 0,
        count >= 0,
        k >= 0,
    ensures
        spec_write_position(spec_cursor_after(start, capacity, count), capacity, k)
            == spec_write_position(start, capacity, count + k),
{
    if count > 0 {
        let x = start + count - 1;
        vstd::arithmetic::div_mod::lemma_fundamental_div_mod(x, capacity);
        vstd::arithmetic::div_mod::lemma_mod_bound(x, capacity);
        let q = x / capacity;
        let y = x % capacity + 1 + k;
        assert(start + count + k == y + q * capacity) by (nonlinear_arith)
            requires x == capacity * q + x % capacity, x == start + count - 1, y == x % capacity + 1 + k;
        vstd::arithmetic::div_mod::lemma_mod_multiples_vanish(q, y, capacity);
    }
}

/// Storage written by a span and then by its continuation equals storage
/// written by the whole span.
proof fn lemma_storage_partition<T>(storage: Seq<T>, first: Seq<T>, second: Seq<T>, start: int, k: int)
    requires
        storage.len() > 0,
        start >= 0,
        0 <= k <= second.len(),
    ensures
        spec_storage_after(
            spec_storage_after(storage, first, start, first.len() as int),
            second,
            spec_cursor_after(start, storage.len() as int, first.len() as int),
            k,
        ) == spec_storage_after(storage, first + second, start, first.len() + k),
    decreases k,
{
    let capacity = storage.len() as int;
    let middle = spec_storage_after(storage, first, start, first.len() as int);
    let cursor = spec_cursor_after(start, capacity, first.len() as int);
    if k == 0 {
        lemma_storage_prefix(storage, first, first + second, start, first.len() as int);
    } else {
        lemma_storage_partition(storage, first, second, start, k - 1);
        lemma_storage_after_len(storage, first, start, first.len() as int);
        lemma_cursor_continues(start, capacity, first.len() as int, k - 1);
        assert((first + second)[first.len() + k - 1] == second[k - 1]);
    }
}

/// Spans that agree on a prefix write the same storage over it.
proof fn lemma_storage_prefix<T>(storage: Seq<T>, a: Seq<T>, b: Seq<T>, start: int, count: int)
    requires
        0 <= count <= a.len(),
        count <= b.len(),
        forall|i: int| 0 <= i < count ==> a[i] == b[i],
    ensures
        spec_storage_after(storage, a, start, count) == spec_storage_after(storage, b, start, count),
    decreases count,
{
    if count > 0 {
        lemma_storage_prefix(storage, a, b, start, count - 1);
    }
}

/// Delaying a span in two parts produces the same outputs, storage and cursor
/// as delaying it whole.
pub proof fn lemma_span_partition<T>(storage: Seq<T>, first: Seq<T>, second: Seq<T>, start: int, lead: int)
    requires
        storage.len() > 0,
        start >= 0,
        0 <= lead <= storage.len(),
    ensures
        ({
            let capacity = storage.len() as int;
            let whole = first + second;
            let middle = spec_storage_after(storage, first, start, first.len() as int);
            let cursor = spec_cursor_after(start, capacity, first.len() as int);
            &&& spec_storage_after(middle, second, cursor, second.len() as int)
                == spec_storage_after(storage, whole, start, whole.len() as int)
            &&& spec_cursor_after(cursor, capacity, second.len() as int)
                == spec_cursor_after(start, capacity, whole.len() as int)
            &&& forall|k: int| 0 <= k < first.len() ==> #[trigger] spec_delayed(storage, first, start, lead, k)
                == spec_delayed(storage, whole, start, lead, k)
            &&& forall|k: int| 0 <= k < second.len() ==> #[trigger] spec_delayed(middle, second, cursor, lead, k)
                == spec_delayed(storage, whole, start, lead, first.len() + k)
        }),
{
    let capacity = storage.len() as int;
    let whole = first + second;
    let middle = spec_storage_after(storage, first, start, first.len() as int);
    let cursor = spec_cursor_after(start, capacity, first.len() as int);
    let delay = lead % capacity;
    vstd::arithmetic::div_mod::lemma_mod_bound(lead, capacity);
    lemma_storage_partition(storage, first, second, start, second.len() as int);
    lemma_storage_after_len(storage, first, start, first.len() as int);
    assert(cursor >= 0) by {
        vstd::arithmetic::div_mod::lemma_mod_bound(start + first.len() - 1, capacity);
    }
    if second.len() > 0 && first.len() > 0 {
        lemma_cursor_continues(start, capacity, first.len() as int, second.len() - 1);
        vstd::arithmetic::div_mod::lemma_mod_bound(cursor + second.len() - 1, capacity);
        vstd::arithmetic::div_mod::lemma_mod_bound(start + whole.len() - 1, capacity);
    }
    assert forall|k: int| 0 <= k < first.len() implies #[trigger] spec_delayed(storage, first, start, lead, k)
        == spec_delayed(storage, whole, start, lead, k) by {
        if delay != 0 && k >= delay {
            assert(whole[k - delay] == first[k - delay]);
        }
        assert(whole[k] == first[k]);
    }
    assert forall|k: int| 0 <= k < second.len() implies #[trigger] spec_delayed(middle, second, cursor, lead, k)
        == spec_delayed(storage, whole, start, lead, first.len() + k) by {
        let j = first.len() + k;
        assert(whole[j] == second[k]);
        if delay != 0 && k >= delay {
            assert(whole[j - delay] == second[k - delay]);
        } else if delay != 0 {
            let position = (cursor + k + capacity - delay) % capacity;
            assert(position == (start + j + capacity - delay) % capacity) by {
                lemma_cursor_continues(start, capacity, first.len() as int, k + capacity - delay);
            }
            if j >= delay {
                let i = j - delay;
                assert(spec_write_position(start, capacity, i) == position) by {
                    vstd::arithmetic::div_mod::lemma_mod_add_multiples_vanish(start + i, capacity);
                }
                lemma_storage_keeps_recent(storage, first, start, first.len() as int, i);
                assert(whole[i] == first[i]);
            } else {
                assert(0 <= position < capacity) by {
                    vstd::arithmetic::div_mod::lemma_mod_bound(start + j + capacity - delay, capacity);
                }
                assert forall|i: int| 0 <= i < first.len() implies #[trigger] spec_write_position(start, capacity, i)
                    != position by {
                    lemma_distinct_positions(start, capacity, i, j + capacity - delay);
                }
                lemma_storage_keeps_unwritten(storage, first, start, first.len() as int, position);
            }
        }
    }
}

} // verus!
