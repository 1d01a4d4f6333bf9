//! The decisions of a waiter that polls the clock until the end time: how
//! long to sleep when nothing is shown, and, tick by tick, whether to redraw
//! the progress indicator and with what.

use crate::calendar::LocalDateTime;
use crate::eta::{eta_text, format_eta};
use crate::number::padded;
use vstd::prelude::*;
use vstd::string::*;

verus! {

/// The time between two looks at the clock while progress is shown, in
/// milliseconds.
pub const POLL_MILLIS: u64 = 50;

/// The nanoseconds from `from` to `to`; negative where `to` is the earlier.
pub open spec fn nanos_between(from: LocalDateTime, to: LocalDateTime) -> int {
    to.instant() - from.instant()
}

/// The whole seconds that have fully passed from `start` to `now`; zero
/// where `now` is the earlier.
pub open spec fn elapsed_seconds(start: LocalDateTime, now: LocalDateTime) -> nat {
    if nanos_between(start, now) <= 0 {
        0
    } else {
        (nanos_between(start, now) / 1_000_000_000) as nat
    }
}

/// The seconds from `now` to `end`, a started second counted in full; zero
/// where `end` is not after `now`.
pub open spec fn remaining_seconds(now: LocalDateTime, end: LocalDateTime) -> nat {
    if nanos_between(now, end) <= 0 {
        0
    } else {
        ((nanos_between(now, end) + 999_999_999) / 1_000_000_000) as nat
    }
}

/// The seconds that a progress indicator from `start` to `end` spans: those
/// that remain at `start`, and never less than one.
pub open spec fn bar_seconds(start: LocalDateTime, end: LocalDateTime) -> nat {
    if remaining_seconds(start, end) < 1 {
        1
    } else {
        remaining_seconds(start, end)
    }
}

/// The status line beside the bar: the time that remains as `HH:MM:SS`, with
/// as many digits for the hours as they need, and the end time.
pub open spec fn status_text(remaining: nat, eta: Seq<char>) -> Seq<char> {
    padded(remaining / 3600, 2) + seq![':'] + padded(remaining % 3600 / 60, 2) + seq![':']
        + padded(remaining % 60, 2) + seq![' ', '|', ' ', 'E', 'T', 'A', ' '] + eta
}

/// A length of time that is not negative: whole seconds and nanoseconds
/// below one second.
#[derive(Clone, Copy, Debug, PartialEq, Eq, Structural)]
pub struct Delay {
    pub seconds: u64,
    pub nanos: u32,
}

impl Delay {
    /// The length in nanoseconds.
    pub open spec fn total_nanos(self) -> int {
        self.seconds * 1_000_000_000 + self.nanos
    }
}

/// What the waiter keeps between ticks.
#[derive(Clone, Copy, Debug, PartialEq, Eq, Structural)]
pub struct ProgressState {
    /// When the wait began.
    pub start: LocalDateTime,
    /// When it ends.
    pub end: LocalDateTime,
    /// The seconds that the bar spans.
    pub total_seconds: u64,
    /// The elapsed seconds at the last redraw, if there was one.
    pub last_rendered: Option<u64>,
}

/// What the waiter does at a tick.
#[derive(Clone, Debug, PartialEq, Eq)]
pub enum Tick {
    /// The end time is reached: complete the indicator and stop.
    Done,
    /// Nothing has changed since the last redraw: show nothing new.
    Idle,
    /// Move the bar to `position` of the total and show `message`.
    Redraw { position: u64, message: String },
}

/// How the wait is to be carried out.
#[derive(Clone, Copy, Debug, PartialEq, Eq, Structural)]
pub enum WaitPlan {
    /// One sleep of this length, with nothing shown.
    Sleep(Delay),
    /// Ticks every `POLL_MILLIS` milliseconds from this state on.
    Progress(ProgressState),
}

/// `String::push` of std appends one character to the text. Not proved: that
/// the text is then the old one with the character at its end.
#[verifier::external_body]
fn push_char(text: &mut String, c: char)
    ensures
        final(text)@ == old(text)@.push(c),
{
    text.push(c)
}

/// Appends a number in decimal with at least `width` digits.
pub fn push_padded(text: &mut String, n: u64, width: usize)
    ensures
        final(text)@ == old(text)@ + padded(n as nat, width as nat),
    decreases n, width,
{
    if n < 10 && width <= 1 {
        push_char(text, (n as u8 + 48) as char);
        assert(text@ =~= old(text)@ + padded(n as nat, width as nat));
    } else {
        let rest: usize = if width == 0 {
            0
        } else {
            width - 1
        };
        push_padded(text, n / 10, rest);
        push_char(text, ((n % 10) as u8 + 48) as char);
        assert(text@ =~= old(text)@ + padded(n as nat, width as nat));
    }
}

/// Writes the status line for the seconds that remain and the end time.
pub fn status_line(remaining: u64, eta: &str) -> (line: String)
    ensures
        line@ == status_text(remaining as nat, eta@),
{
    let mut line = String::new();
    push_padded(&mut line, remaining / 3600, 2);
    push_char(&mut line, ':');
    push_padded(&mut line, remaining % 3600 / 60, 2);
    push_char(&mut line, ':');
    push_padded(&mut line, remaining % 60, 2);
    line.append(" | ETA ");
    line.append(eta);
    proof {
        reveal_strlit(" | ETA ");
        assert(" | ETA "@ =~= seq![' ', '|', ' ', 'E', 'T', 'A', ' ']);
        assert(line@ =~= status_text(remaining as nat, eta@));
    }
    line
}

/// The whole seconds that have fully passed from `start` to `now`.
pub fn elapsed(start: &LocalDateTime, now: &LocalDateTime) -> (seconds: u64)
    requires
        start.wf(),
        now.wf(),
    ensures
        seconds == elapsed_seconds(*start, *now),
{
    let nanos: i128 = now.nanos_since_epoch() - start.nanos_since_epoch();
    if nanos <= 0 {
        0
    } else {
        (nanos / 1_000_000_000) as u64
    }
}

/// The seconds from `now` to `end`, a started second counted in full.
pub fn remaining(now: &LocalDateTime, end: &LocalDateTime) -> (seconds: u64)
    requires
        now.wf(),
        end.wf(),
    ensures
        seconds == remaining_seconds(*now, *end),
{
    let nanos: i128 = end.nanos_since_epoch() - now.nanos_since_epoch();
    if nanos <= 0 {
        0
    } else {
        ((nanos + 999_999_999) / 1_000_000_000) as u64
    }
}

/// How long to sleep from `now` until `end` when nothing is shown: the time
/// between them, and nothing where `end` is already past.
pub fn quiet_delay(end: &LocalDateTime, now: &LocalDateTime) -> (delay: Delay)
    requires
        end.wf(),
        now.wf(),
    ensures
        delay.nanos < 1_000_000_000,
        delay.total_nanos() == if nanos_between(*now, *end) > 0 {
            nanos_between(*now, *end)
        } else {
            0
        },
{
    let nanos: i128 = end.nanos_since_epoch() - now.nanos_since_epoch();
    if nanos <= 0 {
        Delay { seconds: 0, nanos: 0 }
    } else {
        Delay { seconds: (nanos / 1_000_000_000) as u64, nanos: (nanos % 1_000_000_000) as u32 }
    }
}

impl ProgressState {
    /// Start and end are well formed, and the bar spans at least one second.
    pub open spec fn wf(self) -> bool {
        &&& self.start.wf()
        &&& self.end.wf()
        &&& self.total_seconds >= 1
    }

    /// Whether a tick at `now` reaches the end time.
    pub open spec fn finishes(self, now: LocalDateTime) -> bool {
        now.instant() >= self.end.instant()
    }

    /// Whether a tick at `now` redraws the indicator: the end time is not
    /// reached, and the elapsed seconds differ from those of the last redraw.
    pub open spec fn redraws(self, now: LocalDateTime) -> bool {
        &&& !self.finishes(now)
        &&& self.last_rendered != Some(elapsed_seconds(self.start, now) as u64)
    }

    /// The state after a tick at `now`: a redraw records the elapsed seconds,
    /// and nothing else changes.
    pub open spec fn after_tick(self, now: LocalDateTime) -> ProgressState {
        if self.redraws(now) {
            ProgressState {
                last_rendered: Some(elapsed_seconds(self.start, now) as u64),
                ..self
            }
        } else {
            self
        }
    }

    /// The position of the bar at `now`: the elapsed seconds, and no more
    /// than the total.
    pub open spec fn position(self, now: LocalDateTime) -> nat {
        if elapsed_seconds(self.start, now) < self.total_seconds {
            elapsed_seconds(self.start, now)
        } else {
            self.total_seconds as nat
        }
    }

    /// The state at the beginning of a wait from `start` to `end`: nothing is
    /// drawn yet, and the bar spans at least one second.
    pub fn begin(start: LocalDateTime, end: LocalDateTime) -> (state: ProgressState)
        requires
            start.wf(),
            end.wf(),
        ensures
            state.wf(),
            state.start == start,
            state.end == end,
            state.last_rendered is None,
            state.total_seconds == bar_seconds(start, end),
    {
        let left = remaining(&start, &end);
        let total_seconds = if left < 1 {
            1
        } else {
            left
        };
        ProgressState { start, end, total_seconds, last_rendered: None }
    }

    /// The status line before the first tick: the whole span as the time that
    /// remains, and the end time as shown at the start.
    pub fn opening_message(&self) -> (message: String)
        requires
            self.wf(),
        ensures
            message@ == status_text(self.total_seconds as nat, eta_text(self.end, self.start)),
    {
        let eta = format_eta(&self.end, &self.start);
        status_line(self.total_seconds, eta.as_str())
    }

    /// One look at the clock. At or after the end time the wait is done.
    /// Before it, the indicator is redrawn only if the elapsed whole seconds
    /// differ from those of the last redraw, which are then recorded.
    pub fn tick(&mut self, now: &LocalDateTime) -> (action: Tick)
        requires
            old(self).wf(),
            now.wf(),
        ensures
            final(self).wf(),
            *final(self) == old(self).after_tick(*now),
            old(self).finishes(*now) ==> action == Tick::Done,
            !old(self).finishes(*now) && !old(self).redraws(*now) ==> action == Tick::Idle,
            old(self).redraws(*now) ==> (action matches Tick::Redraw { position, message }
                && position == old(self).position(*now) && message@ == status_text(
                remaining_seconds(*now, old(self).end),
                eta_text(old(self).end, *now),
            )),
    {
        if !self.end.is_after(now) {
            return Tick::Done;
        }
        let seconds = elapsed(&self.start, now);
        if let Some(last) = self.last_rendered {
            if last == seconds {
                return Tick::Idle;
            }
        }
        self.last_rendered = Some(seconds);
        let position = if seconds < self.total_seconds {
            seconds
        } else {
            self.total_seconds
        };
        let eta = format_eta(&self.end, now);
        let message = status_line(remaining(now, &self.end), eta.as_str());
        Tick::Redraw { position, message }
    }
}

/// The elapsed seconds of the redraws that a run of ticks makes, in their
/// order: the ticks are taken at the given times, one after the other, and
/// the run stops at the first that reaches the end time.
pub open spec fn redrawn(state: ProgressState, times: Seq<LocalDateTime>) -> Seq<nat>
    decreases times.len(),
{
    if times.len() == 0 || state.finishes(times[0]) {
        Seq::<nat>::empty()
    } else if state.redraws(times[0]) {
        seq![elapsed_seconds(state.start, times[0])] + redrawn(
            state.after_tick(times[0]),
            times.skip(1),
        )
    } else {
        redrawn(state, times.skip(1))
    }
}

/// The clock never runs backwards over the given times.
pub open spec fn never_backwards(times: Seq<LocalDateTime>) -> bool {
    forall|i: int, j: int|
        0 <= i <= j < times.len() ==> (#[trigger] times[i]).instant() <= (
        #[trigger] times[j]).instant()
}

/// Every time of the run is well formed.
pub open spec fn all_wf(times: Seq<LocalDateTime>) -> bool {
    forall|i: int| 0 <= i < times.len() ==> (#[trigger] times[i]).wf()
}

/// The elapsed seconds fit in 64 bits.
pub proof fn lemma_elapsed_fits(start: LocalDateTime, now: LocalDateTime)
    requires
        start.wf(),
        now.wf(),
    ensures
        elapsed_seconds(start, now) <= u64::MAX,
{
}

/// Two ticks in a row at the same elapsed second never both redraw: after
/// any tick before the end time, a tick at the same elapsed second shows
/// nothing new.
pub proof fn lemma_no_redraw_without_change(
    state: ProgressState,
    first: LocalDateTime,
    second: LocalDateTime,
)
    requires
        !state.finishes(first),
        elapsed_seconds(state.start, first) == elapsed_seconds(state.start, second),
    ensures
        !state.after_tick(first).redraws(second),
{
}

/// While the clock never runs backwards, no elapsed second is drawn twice in
/// a run of ticks: the elapsed seconds of its redraws grow strictly, and all
/// lie above those of the last redraw before the run.
pub proof fn lemma_each_second_drawn_once(state: ProgressState, times: Seq<LocalDateTime>)
    requires
        state.start.wf(),
        all_wf(times),
        never_backwards(times),
        times.len() > 0 ==> (state.last_rendered matches Some(last) ==> last <= elapsed_seconds(
            state.start,
            times[0],
        )),
    ensures
        forall|i: int, j: int|
            0 <= i < j < redrawn(state, times).len() ==> redrawn(state, times)[i] < redrawn(
                state,
                times,
            )[j],
        forall|i: int|
            0 <= i < redrawn(state, times).len() ==> {
                &&& elapsed_seconds(state.start, times[0]) <= #[trigger] redrawn(state, times)[i]
                &&& state.last_rendered != Some(redrawn(state, times)[i] as u64)
            },
    decreases times.len(),
{
    if times.len() == 0 || state.finishes(times[0]) {
    } else {
        let now = times[0];
        let rest = times.skip(1);
        let next = state.after_tick(now);
        let e = elapsed_seconds(state.start, now);
        lemma_elapsed_fits(state.start, now);
        assert(all_wf(rest)) by {
            assert forall|i: int| 0 <= i < rest.len() implies (#[trigger] rest[i]).wf() by {
                assert(rest[i] == times[i + 1]);
            }
        }
        assert(never_backwards(rest)) by {
            assert forall|i: int, j: int| 0 <= i <= j < rest.len() implies (
            #[trigger] rest[i]).instant() <= (#[trigger] rest[j]).instant() by {
                assert(rest[i] == times[i + 1]);
                assert(rest[j] == times[j + 1]);
            }
        }
        if rest.len() > 0 {
            assert(rest[0] == times[1]);
            assert(times[0].instant() <= times[1].instant());
            lemma_elapsed_grows(state.start, times[0], times[1]);
        }
        lemma_each_second_drawn_once(next, rest);
        let tail = redrawn(next, rest);
        if state.redraws(now) {
            let all = redrawn(state, times);
            assert(all == seq![e] + tail);
            assert forall|i: int| 0 <= i < all.len() implies {
                &&& e <= #[trigger] all[i]
                &&& state.last_rendered != Some(all[i] as u64)
            } by {
                if i > 0 {
                    assert(all[i] == tail[i - 1]);
                    assert(next.last_rendered == Some(e as u64));
                    lemma_tail_fits(next, rest, i - 1);
                }
            }
            assert forall|i: int, j: int| 0 <= i < j < all.len() implies all[i] < all[j] by {
                assert(all[j] == tail[j - 1]);
                lemma_tail_fits(next, rest, j - 1);
                if i > 0 {
                    assert(all[i] == tail[i - 1]);
                }
            }
        } else {
            assert(redrawn(state, times) == tail);
            assert(next == state);
        }
    }
}

/// The elapsed seconds do not shrink while the clock does not run backwards.
pub proof fn lemma_elapsed_grows(start: LocalDateTime, earlier: LocalDateTime, later: LocalDateTime)
    requires
        earlier.instant() <= later.instant(),
    ensures
        elapsed_seconds(start, earlier) <= elapsed_seconds(start, later),
{
}

/// Every elapsed second that a run redraws fits in 64 bits.
pub proof fn lemma_tail_fits(state: ProgressState, times: Seq<LocalDateTime>, i: int)
    requires
        state.start.wf(),
        all_wf(times),
        0 <= i < redrawn(state, times).len(),
    ensures
        redrawn(state, times)[i] <= u64::MAX,
    decreases times.len(),
{
    if times.len() == 0 || state.finishes(times[0]) {
    } else {
        let rest = times.skip(1);
        assert(all_wf(rest)) by {
            assert forall|k: int| 0 <= k < rest.len() implies (#[trigger] rest[k]).wf() by {
                assert(rest[k] == times[k + 1]);
            }
        }
        lemma_elapsed_fits(state.start, times[0]);
        if state.redraws(times[0]) {
            if i > 0 {
                lemma_tail_fits(state.after_tick(times[0]), rest, i - 1);
            }
        } else {
            lemma_tail_fits(state, rest, i);
        }
    }
}

/// Plans the wait from `now` until `end`: one silent sleep when `quiet`, else
/// a progress indicator that begins at `now`.
pub fn plan_wait(end: LocalDateTime, now: LocalDateTime, quiet: bool) -> (plan: WaitPlan)
    requires
        end.wf(),
        now.wf(),
    ensures
        quiet ==> (plan matches WaitPlan::Sleep(delay) && delay.nanos < 1_000_000_000
            && delay.total_nanos() == if nanos_between(now, end) > 0 {
            nanos_between(now, end)
        } else {
            0
        }),
        !quiet ==> (plan matches WaitPlan::Progress(state) && state.wf() && state.start == now
            && state.end == end && state.last_rendered is None && state.total_seconds
            == bar_seconds(now, end)),
{
    if quiet {
        WaitPlan::Sleep(quiet_delay(&end, &now))
    } else {
        WaitPlan::Progress(ProgressState::begin(now, end))
    }
}

} // verus!
