use vstd::prelude::*;
use crate::timing::Timing;
use std::time::Instant;

verus! {

#[verifier::external_type_specification]
#[verifier::external_body]
pub struct ExInstant(Instant);

/// Relies on `Instant::now`: a reading of the monotonic clock.
#[verifier::external_body]
fn instant_now() -> Instant {
    Instant::now()
}

/// Relies on `Instant::elapsed`: the nanoseconds that have passed since
/// `origin`. Nothing is known of the value.
#[verifier::external_body]
fn nanos_since(origin: &Instant) -> u128 {
    origin.elapsed().as_nanos()
}

/// The metrics joined as they stand in the header: each one's text followed
/// by a comma.
pub open spec fn with_commas(entries: Seq<Timing>) -> Seq<char>
    decreases entries.len(),
{
    if entries.len() == 0 {
        Seq::empty()
    } else {
        with_commas(entries.drop_last()) + entries.last().text() + seq![',']
    }
}

/// `s` without its trailing commas.
pub open spec fn trim_commas(s: Seq<char>) -> Seq<char>
    decreases s.len(),
{
    if s.len() > 0 && s.last() == ',' {
        trim_commas(s.drop_last())
    } else {
        s
    }
}

/// The `server-timing` header value for a list of metrics.
pub open spec fn header_value(entries: Seq<Timing>) -> Seq<char> {
    trim_commas(with_commas(entries))
}

/// `a` less its first `b` (zero where `b` is larger).
pub open spec fn saturating_sub(a: u64, b: u64) -> u64 {
    if a >= b { (a - b) as u64 } else { 0 }
}

/// An ordered log of server timings for one request.
///
/// The cursor is the clock reading, in nanoseconds since the log was made, at
/// which the last automatically measured metric ended. A log made with
/// collection disabled keeps no metrics and reads the clock only when it is
/// made.
pub struct ServerTimings {
    timings: Vec<Timing>,
    origin: Instant,
    last_timing: u64,
    enabled: bool,
}

impl ServerTimings {
    /// The metrics, in the order they were added.
    pub closed spec fn entries(&self) -> Seq<Timing> {
        self.timings@
    }

    /// The end of the last automatically measured metric, in nanoseconds
    /// since the log was made.
    pub closed spec fn cursor(&self) -> u64 {
        self.last_timing
    }

    /// Whether this log collects metrics.
    pub closed spec fn enabled(&self) -> bool {
        self.enabled
    }

    /// A disabled log holds no metrics.
    pub closed spec fn wf(&self) -> bool {
        !self.enabled ==> self.timings@.len() == 0
    }

    /// Makes an empty log that collects metrics; its cursor is the moment it
    /// was made.
    #[must_use]
    pub fn new() -> (r: Self)
        ensures
            r.wf(),
            r.enabled(),
            r.entries() == Seq::<Timing>::empty(),
            r.cursor() == 0,
    {
        ServerTimings { timings: Vec::new(), origin: instant_now(), last_timing: 0, enabled: true }
    }

    /// Makes an empty log that collects nothing: every metric handed to it is
    /// dropped, and the clock is read only here, when the log is made.
    #[must_use]
    pub fn disabled() -> (r: Self)
        ensures
            r.wf(),
            !r.enabled(),
            r.entries() == Seq::<Timing>::empty(),
            r.cursor() == 0,
    {
        ServerTimings { timings: Vec::new(), origin: instant_now(), last_timing: 0, enabled: false }
    }

    /// Whether this log collects metrics.
    pub fn is_enabled(&self) -> (r: bool)
        ensures
            r == self.enabled(),
    {
        self.enabled
    }

    /// The metrics, in the order they were added.
    pub fn timings(&self) -> (r: &Vec<Timing>)
        ensures
            r@ == self.entries(),
    {
        &self.timings
    }

    /// Appends a metric as it is. The cursor is not moved. A disabled log
    /// drops it.
    pub fn add_timing(&mut self, timing: Timing)
        requires
            old(self).wf(),
        ensures
            final(self).wf(),
            final(self).enabled() == old(self).enabled(),
            final(self).cursor() == old(self).cursor(),
            final(self).entries() == if old(self).enabled() {
                old(self).entries().push(timing)
            } else {
                old(self).entries()
            },
    {
        if self.enabled {
            self.timings.push(timing);
        }
    }

    /// Appends a metric made of the given parts. The cursor is not moved.
    pub fn record_all(&mut self, name: String, desc: Option<String>, dur: Option<u64>)
        requires
            old(self).wf(),
        ensures
            final(self).wf(),
            final(self).enabled() == old(self).enabled(),
            final(self).cursor() == old(self).cursor(),
            final(self).entries() == if old(self).enabled() {
                old(self).entries().push(Timing { name, desc, dur })
            } else {
                old(self).entries()
            },
    {
        self.add_timing(Timing { name, desc, dur });
    }

    /// Moves the cursor to the clock reading `now` (nanoseconds since the
    /// log was made) and returns the nanoseconds that passed since the old
    /// cursor. The cursor never moves back: a reading before it counts as
    /// no time at all.
    pub fn advance_to(&mut self, now: u64) -> (dur: u64)
        requires
            old(self).wf(),
        ensures
            final(self).wf(),
            final(self).enabled() == old(self).enabled(),
            final(self).entries() == old(self).entries(),
            dur == saturating_sub(now, old(self).cursor()),
            final(self).cursor() == old(self).cursor() + dur,
    {
        if now >= self.last_timing {
            let dur = now - self.last_timing;
            self.last_timing = now;
            dur
        } else {
            0
        }
    }

    /// Reads the clock, in nanoseconds since the log was made.
    fn clock(&self) -> u64 {
        let n = nanos_since(&self.origin);
        if n > u64::MAX as u128 {
            u64::MAX
        } else {
            n as u64
        }
    }

    /// The time since the cursor, moving the cursor to now; zero, without
    /// reading the clock, for a disabled log.
    fn advance_duration(&mut self) -> (dur: u64)
        requires
            old(self).wf(),
        ensures
            final(self).wf(),
            final(self).enabled() == old(self).enabled(),
            final(self).entries() == old(self).entries(),
            final(self).cursor() == old(self).cursor() + dur,
            !old(self).enabled() ==> dur == 0,
    {
        if self.enabled {
            let now = self.clock();
            self.advance_to(now)
        } else {
            0
        }
    }

    /// Records a metric with a name and a description, whose duration is the
    /// time since the cursor; the cursor moves to now.
    pub fn record(&mut self, name: &str, desc: &str)
        requires
            old(self).wf(),
        ensures
            final(self).wf(),
            final(self).enabled() == old(self).enabled(),
            old(self).cursor() <= final(self).cursor(),
            final(self).entries() == if old(self).enabled() {
                old(self).entries().push(
                    Timing {
                        name: final(self).entries().last().name,
                        desc: final(self).entries().last().desc,
                        dur: Some((final(self).cursor() - old(self).cursor()) as u64),
                    },
                )
            } else {
                old(self).entries()
            },
            old(self).enabled() ==> final(self).entries().last().name@ == name@,
            old(self).enabled() ==> final(self).entries().last().desc_view() == Some(desc@),
            !old(self).enabled() ==> final(self).cursor() == old(self).cursor(),
    {
        let dur = self.advance_duration();
        self.record_all(name.to_owned(), Some(desc.to_owned()), Some(dur));
    }

    /// Like [`Self::record`], without a description.
    pub fn record_name(&mut self, name: &str)
        requires
            old(self).wf(),
        ensures
            final(self).wf(),
            final(self).enabled() == old(self).enabled(),
            old(self).cursor() <= final(self).cursor(),
            final(self).entries() == if old(self).enabled() {
                old(self).entries().push(
                    Timing {
                        name: final(self).entries().last().name,
                        desc: None,
                        dur: Some((final(self).cursor() - old(self).cursor()) as u64),
                    },
                )
            } else {
                old(self).entries()
            },
            old(self).enabled() ==> final(self).entries().last().name@ == name@,
            !old(self).enabled() ==> final(self).cursor() == old(self).cursor(),
    {
        let dur = self.advance_duration();
        self.record_all(name.to_owned(), None, Some(dur));
    }

    /// The value of the `server-timing` header for this log: `None` where the
    /// log is disabled or holds no metric, else the metrics' texts joined by
    /// commas, with no comma at the end.
    pub fn header_text(&self) -> (r: Option<String>)
        ensures
            !self.enabled() || self.entries().len() == 0 ==> r is None,
            self.enabled() && self.entries().len() > 0 ==> (r matches Some(s) && s@ == header_value(self.entries())),
    {
        if !self.enabled || self.timings.len() == 0 {
            return None;
        }
        let mut out: Vec<char> = Vec::new();
        let mut i: usize = 0;
        while i < self.timings.len()
            invariant
                i <= self.timings@.len(),
                out@ == with_commas(self.timings@.take(i as int)),
            decreases self.timings@.len() - i,
        {
            self.timings[i].push_text(&mut out);
            out.push(',');
            proof {
                let t = self.timings@.take(i + 1);
                assert(t.drop_last() =~= self.timings@.take(i as int));
            }
            i = i + 1;
            assert(out@ =~= with_commas(self.timings@.take(i as int)));
        }
        assert(self.timings@.take(i as int) =~= self.timings@);
        let ghost full = out@;
        while out.len() > 0 && out[out.len() - 1] == ','
            invariant
                trim_commas(out@) == trim_commas(full),
            decreases out.len(),
        {
            out.pop();
        }
        Some(crate::timing::chars_to_string(out))
    }
}

/// A disabled log holds no metric, whatever was recorded in it, and so
/// yields no header text.
pub proof fn lemma_disabled_log_is_empty(log: ServerTimings)
    requires
        log.wf(),
        !log.enabled(),
    ensures
        log.entries().len() == 0,
{
}

impl Default for ServerTimings {
    fn default() -> (r: Self)
        ensures
            r.wf(),
            r.enabled(),
            r.entries() == Seq::<Timing>::empty(),
            r.cursor() == 0,
    {
        Self::new()
    }
}

} // verus!
