use vstd::prelude::*;
use crate::log::{header_value, saturating_sub, trim_commas, with_commas};
use crate::timing::Timing;

verus! {

/// Serializing two lists of metrics one after the other gives the
/// serialization of the two lists joined: metrics appear in the header in
/// the order they were added.
pub proof fn lemma_serialization_keeps_order(a: Seq<Timing>, b: Seq<Timing>)
    ensures
        with_commas(a + b) == with_commas(a) + with_commas(b),
    decreases b.len(),
{
    if b.len() == 0 {
        assert(a + b =~= a);
        assert(with_commas(a) + with_commas(b) =~= with_commas(a));
    } else {
        assert((a + b).drop_last() =~= a + b.drop_last());
        lemma_serialization_keeps_order(a, b.drop_last());
        assert((a + b).last() == b.last());
        assert(with_commas(a + b) =~= with_commas(a) + with_commas(b));
    }
}

/// Text with its trailing commas removed does not end in a comma.
pub proof fn lemma_trimmed_has_no_trailing_comma(s: Seq<char>)
    ensures
        trim_commas(s).len() == 0 || trim_commas(s).last() != ',',
    decreases s.len(),
{
    if s.len() > 0 && s.last() == ',' {
        lemma_trimmed_has_no_trailing_comma(s.drop_last());
    }
}

/// The header value of any list of metrics never ends in a comma.
pub proof fn lemma_no_trailing_comma(entries: Seq<Timing>)
    ensures
        header_value(entries).len() == 0 || header_value(entries).last() != ',',
{
    lemma_trimmed_has_no_trailing_comma(with_commas(entries));
}

/// A metric with neither description nor duration is written as its name
/// alone.
pub proof fn lemma_bare_metric(t: Timing)
    requires
        t.desc is None,
        t.dur is None,
    ensures
        t.text() == t.name@,
{
    assert(t.text() =~= t.name@);
}

/// The cursor after a log whose cursor was `start` has been advanced to
/// each clock reading of `readings` in turn (as `advance_to` does).
pub open spec fn cursor_after(start: u64, readings: Seq<u64>) -> nat
    decreases readings.len(),
{
    if readings.len() == 0 {
        start as nat
    } else {
        let c = cursor_after(start, readings.drop_last());
        if readings.last() >= c {
            readings.last() as nat
        } else {
            c
        }
    }
}

/// The sum of the durations measured while advancing from `start` through
/// `readings` (each as `advance_to` returns it).
pub open spec fn measured_total(start: u64, readings: Seq<u64>) -> nat
    decreases readings.len(),
{
    if readings.len() == 0 {
        0
    } else {
        let c = cursor_after(start, readings.drop_last());
        measured_total(start, readings.drop_last()) + (if readings.last() >= c {
            (readings.last() - c) as nat
        } else {
            0nat
        })
    }
}

/// Durations measured one after another leave no gap and no overlap: for
/// clock readings that never go back, their sum is the time from the first
/// cursor to the last reading, and the cursor ends at that reading.
pub proof fn lemma_durations_telescope(start: u64, readings: Seq<u64>)
    requires
        readings.len() > 0,
        start <= readings[0],
        forall|i: int, j: int| 0 <= i <= j < readings.len() ==> readings[i] <= readings[j],
    ensures
        cursor_after(start, readings) == readings.last(),
        measured_total(start, readings) == readings.last() - start,
    decreases readings.len(),
{
    let prev = readings.drop_last();
    if readings.len() == 1 {
        assert(prev.len() == 0);
        assert(cursor_after(start, prev) == start);
        assert(measured_total(start, prev) == 0);
    } else {
        assert forall|i: int, j: int| 0 <= i <= j < prev.len() implies prev[i] <= prev[j] by {
            assert(prev[i] == readings[i] && prev[j] == readings[j]);
        }
        assert(prev[0] == readings[0]);
        lemma_durations_telescope(start, prev);
        assert(prev.last() == readings[readings.len() - 2]);
        assert(readings[readings.len() - 2] <= readings[readings.len() - 1]);
    }
}

/// A single measured duration is what `advance_to` returns from that
/// cursor.
pub proof fn lemma_measured_step(start: u64, readings: Seq<u64>, now: u64)
    requires
        cursor_after(start, readings) <= u64::MAX,
    ensures
        measured_total(start, readings.push(now)) == measured_total(start, readings)
            + saturating_sub(now, cursor_after(start, readings) as u64),
{
    assert(readings.push(now).drop_last() =~= readings);
}

} // verus!
