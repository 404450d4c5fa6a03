//! A counter of frame time: it notes how long the steps of a frame took
//! and gives the notes back as text, with the frames per second.

use vstd::prelude::*;
use std::time::Instant;
use core::time::Duration;

verus! {

/// A moment on the monotonic clock of `std`. Nothing is known of its
/// value.
#[verifier::external_type_specification]
#[verifier::external_body]
pub struct ExInstant(std::time::Instant);

/// `Instant::now` reads the clock: nothing is promised of the moment it
/// returns.
pub assume_specification[ std::time::Instant::now ]() -> (now: Instant)
;

/// `Instant::saturating_duration_since` gives the time from `earlier` to
/// `later`, or no time at all where `earlier` is the later one. It depends
/// on two readings of the clock: nothing is promised of the result.
pub assume_specification[ std::time::Instant::saturating_duration_since ](
    later: &Instant,
    earlier: Instant,
) -> (elapsed: Duration)
;

/// `Duration::as_micros` gives the whole microseconds of a duration.
/// The duration is opaque here: nothing is promised of the number.
pub assume_specification[ core::time::Duration::as_micros ](duration: &Duration) -> (micros: u128)
;

/// `String::push_str` appends the characters of `string` to the end.
pub assume_specification[ String::push_str ](text: &mut String, string: &str)
    ensures
        final(text)@ == old(text)@ + string@,
;

/// The character of a decimal digit.
pub open spec fn digit(d: nat) -> char {
    if d == 0 {
        '0'
    } else if d == 1 {
        '1'
    } else if d == 2 {
        '2'
    } else if d == 3 {
        '3'
    } else if d == 4 {
        '4'
    } else if d == 5 {
        '5'
    } else if d == 6 {
        '6'
    } else if d == 7 {
        '7'
    } else if d == 8 {
        '8'
    } else {
        '9'
    }
}

/// The number in decimal digits, without sign or leading zeros.
pub open spec fn decimal(n: nat) -> Seq<char>
    decreases n,
{
    if n < 10 {
        seq![digit(n)]
    } else {
        decimal(n / 10).push(digit(n % 10))
    }
}

/// The text of one decimal digit.
fn digit_str(d: u8) -> (s: &'static str)
    requires
        d < 10,
    ensures
        s@ == seq![digit(d as nat)],
{
    proof {
        reveal_strlit("0");
        reveal_strlit("1");
        reveal_strlit("2");
        reveal_strlit("3");
        reveal_strlit("4");
        reveal_strlit("5");
        reveal_strlit("6");
        reveal_strlit("7");
        reveal_strlit("8");
        reveal_strlit("9");
    }
    let s = if d == 0 {
        "0"
    } else if d == 1 {
        "1"
    } else if d == 2 {
        "2"
    } else if d == 3 {
        "3"
    } else if d == 4 {
        "4"
    } else if d == 5 {
        "5"
    } else if d == 6 {
        "6"
    } else if d == 7 {
        "7"
    } else if d == 8 {
        "8"
    } else {
        "9"
    };
    assert(s@ =~= seq![digit(d as nat)]);
    s
}

/// Appends the number in decimal digits.
fn push_decimal(text: &mut String, n: u128)
    ensures
        final(text)@ == old(text)@ + decimal(n as nat),
    decreases n,
{
    if n >= 10 {
        push_decimal(text, n / 10);
    }
    text.push_str(digit_str((n % 10) as u8));
    assert(text@ =~= old(text)@ + decimal(n as nat));
}

/// The line of one measurement: the label, a colon and a space, the
/// microseconds, a line feed.
pub open spec fn measurement_text(label: Seq<char>, micros: nat) -> Seq<char> {
    label + seq![':', ' '] + decimal(micros) + seq!['\n']
}

/// The line of the whole frame: `total: `, the microseconds, a line feed.
pub open spec fn total_text(micros: nat) -> Seq<char> {
    seq!['t', 'o', 't', 'a', 'l', ':', ' '] + decimal(micros) + seq!['\n']
}

/// The last line: `fps: ` and the frames that fit into a second if each
/// takes `micros` microseconds, rounded down.
pub open spec fn fps_text(micros: nat) -> Seq<char>
    recommends
        micros > 0,
{
    seq!['f', 'p', 's', ':', ' '] + decimal(1_000_000nat / micros)
}

/// The finished report: the measurements so far, then the line of the
/// whole frame unless only the frame rate is wanted, then the frame rate.
pub open spec fn report_text(text: Seq<char>, only_fps: bool, total: nat, frame: nat) -> Seq<
    char,
>
    recommends
        frame > 0,
{
    if only_fps {
        text + fps_text(frame)
    } else {
        text + total_text(total) + fps_text(frame)
    }
}

/// The frame time as it is handed out: the low 64 bits of the
/// microseconds.
pub fn frametime_of(micros: u128) -> (time: u64)
    ensures
        time == micros % 0x1_0000_0000_0000_0000,
{
    let low: u128 = micros & 0xffff_ffff_ffff_ffff;
    assert(low == micros % 0x1_0000_0000_0000_0000) by (bit_vector)
        requires
            low == micros & 0xffff_ffff_ffff_ffff,
    ;
    low as u64
}

/// Measures the steps of a frame.
#[derive(Debug)]
pub struct PerformanceCounter {
    start_of_frame: Instant,
    old_point: Instant,
    text: String,
    old_text: String,
    only_fps: bool,
}

impl PerformanceCounter {
    /// The measurements of the frame that is under way.
    pub closed spec fn text(&self) -> Seq<char> {
        self.text@
    }

    /// The report of the last frame that was finished.
    pub closed spec fn report(&self) -> Seq<char> {
        self.old_text@
    }

    /// Whether only the frame rate is reported.
    pub closed spec fn fps_only(&self) -> bool {
        self.only_fps
    }

    /// The moment at which the frame under way began.
    pub closed spec fn frame_start(&self) -> Instant {
        self.start_of_frame
    }

    /// The moment of the last measurement, from which the next one
    /// counts.
    pub closed spec fn checkpoint(&self) -> Instant {
        self.old_point
    }

    /// A counter with nothing measured and nothing reported, which
    /// reports every measurement. Its frame and its first measurement
    /// begin when it is made.
    pub fn new() -> (counter: Self)
        ensures
            counter.text() == Seq::<char>::empty(),
            counter.report() == Seq::<char>::empty(),
            !counter.fps_only(),
    {
        Self {
            start_of_frame: Instant::now(),
            old_point: Instant::now(),
            text: String::new(),
            old_text: String::new(),
            only_fps: false,
        }
    }

    /// Chooses whether only the frame rate is reported.
    pub fn only_fps(&mut self, only_fps: bool)
        ensures
            final(self).fps_only() == only_fps,
            final(self).text() == old(self).text(),
            final(self).report() == old(self).report(),
            final(self).frame_start() == old(self).frame_start(),
            final(self).checkpoint() == old(self).checkpoint(),
    {
        self.only_fps = only_fps;
    }

    /// The microseconds since the frame began, as `frametime_of` hands
    /// them out.
    pub fn get_frametime(&self) -> (time: u64) {
        let now = Instant::now();
        frametime_of(now.saturating_duration_since(self.start_of_frame).as_micros())
    }

    /// Begins a frame at the moment `now`: the frame and its first
    /// measurement count from there, and what was measured so far is
    /// dropped. The last report stays.
    pub fn start_of_frame_at(&mut self, now: Instant)
        ensures
            final(self).frame_start() == now,
            final(self).checkpoint() == now,
            final(self).text() == Seq::<char>::empty(),
            final(self).report() == old(self).report(),
            final(self).fps_only() == old(self).fps_only(),
    {
        self.start_of_frame = now;
        self.old_point = self.start_of_frame;
        self.text = String::new();
    }

    /// Begins a frame now: the frame and its first measurement count from
    /// one reading of the clock, and what was measured so far is dropped.
    /// The last report stays.
    pub fn start_of_frame(&mut self)
        ensures
            final(self).checkpoint() == final(self).frame_start(),
            final(self).text() == Seq::<char>::empty(),
            final(self).report() == old(self).report(),
            final(self).fps_only() == old(self).fps_only(),
    {
        self.start_of_frame_at(Instant::now());
    }

    /// Notes that the step `label` took `micros` microseconds.
    pub fn record(&mut self, label: &str, micros: u128)
        ensures
            final(self).text() == old(self).text() + measurement_text(label@, micros as nat),
            final(self).report() == old(self).report(),
            final(self).fps_only() == old(self).fps_only(),
            final(self).frame_start() == old(self).frame_start(),
            final(self).checkpoint() == old(self).checkpoint(),
    {
        proof {
            reveal_strlit(": ");
            reveal_strlit("\n");
            assert(": "@ =~= seq![':', ' ']);
            assert("\n"@ =~= seq!['\n']);
        }
        self.text.push_str(label);
        self.text.push_str(": ");
        push_decimal(&mut self.text, micros);
        self.text.push_str("\n");
        assert(self.text@ =~= old(self).text@ + measurement_text(label@, micros as nat));
    }

    /// Notes under `label` the time from the last measurement to the
    /// moment `now`, and counts the next one from `now`; unless only the
    /// frame rate is reported, when nothing changes.
    pub fn add_measurement_at(&mut self, label: &str, now: Instant)
        ensures
            final(self).report() == old(self).report(),
            final(self).fps_only() == old(self).fps_only(),
            final(self).frame_start() == old(self).frame_start(),
            old(self).fps_only() ==> final(self).text() == old(self).text(),
            old(self).fps_only() ==> final(self).checkpoint() == old(self).checkpoint(),
            !old(self).fps_only() ==> final(self).checkpoint() == now && exists|micros: u128|
                final(self).text() == old(self).text() + #[trigger] measurement_text(
                    label@,
                    micros as nat,
                ),
    {
        if self.only_fps {
            return ;
        }
        let micros = now.saturating_duration_since(self.old_point).as_micros();
        self.record(label, micros);
        self.old_point = now;
        assert(self.text() == old(self).text() + measurement_text(label@, micros as nat));
    }

    /// Notes under `label` the time since the last measurement, unless
    /// only the frame rate is reported, when nothing changes.
    pub fn add_measurement(&mut self, label: &str)
        ensures
            final(self).report() == old(self).report(),
            final(self).fps_only() == old(self).fps_only(),
            final(self).frame_start() == old(self).frame_start(),
            old(self).fps_only() ==> final(self).text() == old(self).text(),
            old(self).fps_only() ==> final(self).checkpoint() == old(self).checkpoint(),
            !old(self).fps_only() ==> exists|micros: u128|
                final(self).text() == old(self).text() + #[trigger] measurement_text(
                    label@,
                    micros as nat,
                ),
    {
        if self.only_fps {
            return ;
        }
        self.add_measurement_at(label, Instant::now());
    }

    /// Counts the next measurement from the moment `now`, so that the
    /// time up to it goes unreported; unless only the frame rate is
    /// reported, when nothing changes.
    pub fn discard_measurement_at(&mut self, now: Instant)
        ensures
            final(self).text() == old(self).text(),
            final(self).report() == old(self).report(),
            final(self).fps_only() == old(self).fps_only(),
            final(self).frame_start() == old(self).frame_start(),
            final(self).checkpoint() == if old(self).fps_only() {
                old(self).checkpoint()
            } else {
                now
            },
    {
        if self.only_fps {
            return ;
        }
        self.old_point = now;
    }

    /// Lets the time since the last measurement go unreported; unless
    /// only the frame rate is reported, when nothing changes.
    pub fn discard_measurement(&mut self)
        ensures
            final(self).text() == old(self).text(),
            final(self).report() == old(self).report(),
            final(self).fps_only() == old(self).fps_only(),
            final(self).frame_start() == old(self).frame_start(),
            old(self).fps_only() ==> final(self).checkpoint() == old(self).checkpoint(),
    {
        if self.only_fps {
            return ;
        }
        self.discard_measurement_at(Instant::now());
    }

    /// Finishes the report of a frame that took `total` microseconds when
    /// its total was read and `frame` microseconds when its frame rate
    /// was.
    pub fn finish(&mut self, total: u128, frame: u128)
        requires
            frame > 0,
        ensures
            final(self).text() == report_text(
                old(self).text(),
                old(self).fps_only(),
                total as nat,
                frame as nat,
            ),
            final(self).report() == final(self).text(),
            final(self).fps_only() == old(self).fps_only(),
            final(self).frame_start() == old(self).frame_start(),
            final(self).checkpoint() == old(self).checkpoint(),
    {
        proof {
            reveal_strlit("total: ");
            reveal_strlit("fps: ");
            reveal_strlit("\n");
            assert("total: "@ =~= seq!['t', 'o', 't', 'a', 'l', ':', ' ']);
            assert("fps: "@ =~= seq!['f', 'p', 's', ':', ' ']);
            assert("\n"@ =~= seq!['\n']);
        }
        if !self.only_fps {
            self.text.push_str("total: ");
            push_decimal(&mut self.text, total);
            self.text.push_str("\n");
            assert(self.text@ =~= old(self).text@ + total_text(total as nat));
        }
        self.text.push_str("fps: ");
        push_decimal(&mut self.text, 1_000_000 / frame);
        assert(self.text@ =~= report_text(
            old(self).text@,
            old(self).only_fps,
            total as nat,
            frame as nat,
        ));
        self.old_text = self.text.clone();
    }

    /// Finishes the report of a frame from the two readings of its time,
    /// and tells whether it did: a frame that took less than a
    /// microsecond when its frame rate was read has no frame rate, and
    /// leaves the counter as it was.
    pub fn finish_timed(&mut self, total: u128, frame: u128) -> (done: bool)
        ensures
            done == (frame > 0),
            done ==> final(self).text() == report_text(
                old(self).text(),
                old(self).fps_only(),
                total as nat,
                frame as nat,
            ) && final(self).report() == final(self).text(),
            !done ==> final(self).text() == old(self).text() && final(self).report() == old(
                self,
            ).report(),
            final(self).fps_only() == old(self).fps_only(),
            final(self).frame_start() == old(self).frame_start(),
            final(self).checkpoint() == old(self).checkpoint(),
    {
        if frame == 0 {
            return false;
        }
        self.finish(total, frame);
        true
    }

    /// Finishes the report of the frame from two readings of the clock,
    /// as `finish_timed` does from the two times, and tells whether it
    /// did.
    pub fn print(&mut self) -> (done: bool)
        ensures
            final(self).fps_only() == old(self).fps_only(),
            final(self).frame_start() == old(self).frame_start(),
            final(self).checkpoint() == old(self).checkpoint(),
            !done ==> final(self).text() == old(self).text() && final(self).report() == old(
                self,
            ).report(),
            done ==> final(self).report() == final(self).text() && exists|total: u128, frame: u128|
                frame > 0 && final(self).text() == #[trigger] report_text(
                    old(self).text(),
                    old(self).fps_only(),
                    total as nat,
                    frame as nat,
                ),
    {
        let total = Instant::now().saturating_duration_since(self.start_of_frame).as_micros();
        let frame = Instant::now().saturating_duration_since(self.start_of_frame).as_micros();
        let done = self.finish_timed(total, frame);
        if done {
            assert(self.text() == report_text(
                old(self).text(),
                old(self).fps_only(),
                total as nat,
                frame as nat,
            ));
        }
        done
    }

    /// The report of the last frame that was finished.
    pub fn get_text(&self) -> (text: &str)
        ensures
            text@ == self.report(),
    {
        self.old_text.as_str()
    }
}

} // verus!
