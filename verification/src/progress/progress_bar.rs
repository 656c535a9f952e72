use vstd::prelude::*;
use crate::progress::draw_target::{
    command_views, line_views, target_after, target_commands, DrawCommand, DrawStateView,
    ProgressDrawState, ProgressDrawTarget, TargetView,
};
use crate::progress::estimate::{
    mean, minus, plus, pushed, rate, step_duration, times, Estimate, EstimateView,
};
use crate::progress::style::{
    default_bar_style, default_spinner_style, FinishView, ProgressFinish, ProgressStyle, StyleView,
};

verus! {

/// The length of a bar that has none.
pub const NO_LENGTH: u64 = u64::MAX;

/// The time that an estimate of the time left is rounded up by, in
/// nanoseconds, so that a bar does not show zero before it is done.
pub const ETA_PADDING: u64 = 750_000_000;

/// Where a bar stands in its life.
#[derive(Clone, Copy, Debug, PartialEq, Eq, Structural)]
pub enum Status {
    /// Still running.
    InProgress,
    /// Done, and left on screen.
    DoneVisible,
    /// Done, and taken off screen.
    DoneHidden,
}

/// What a bar is, as contracts speak of it.
pub struct BarView {
    /// How it looks.
    pub style: StyleView,
    /// How far it is.
    pub pos: u64,
    /// How far it has to go; `NO_LENGTH` for a spinner.
    pub len: u64,
    /// The frame of the spinner.
    pub tick: u64,
    /// When it started.
    pub started: u64,
    /// Where it is drawn.
    pub draw_target: TargetView,
    /// The text for the `{msg}` placeholder.
    pub message: Seq<char>,
    /// The text for the `{prefix}` placeholder.
    pub prefix: Seq<char>,
    /// How many steps lie between two drawings, where no rate is set.
    pub draw_delta: u64,
    /// How many drawings a second are wanted; zero for no such wish.
    pub draw_rate: u64,
    /// The position from which on the next drawing is due.
    pub draw_next: u64,
    /// Where it stands in its life.
    pub status: Status,
    /// The estimate of the time a step takes.
    pub est: EstimateView,
    /// Whether a steady ticker runs beside it.
    pub ticker: bool,
    /// The ticker's interval in milliseconds; zero tells the ticker to stop.
    pub steady_tick: u64,
}

/// The estimate after the position `pos` was reached at `now`.
pub open spec fn recorded(est: EstimateView, pos: u64, now: u64) -> EstimateView {
    EstimateView { samples: pushed(est.samples, step_duration(est, pos, now)), ..est }
}

/// The frame of the spinner after a change to the bar: it advances unless a
/// steady ticker has taken over.
pub open spec fn ticked(s: BarView) -> u64 {
    if s.steady_tick == 0 || s.tick == 0 {
        plus(s.tick, 1)
    } else {
        s.tick
    }
}

/// Whether a drawing is due once the bar has been changed to `changed`.
pub open spec fn draw_due(changed: BarView) -> bool {
    changed.pos >= changed.draw_next
}

/// The bar once a change to it has settled. `changed` is the bar with its new
/// fields and `old_pos` the position before. A new position is noted by the
/// estimate; where a drawing is due, the mark for the next one moves on, by
/// the steps that make up one drawing interval at the wanted rate, or else by
/// the wanted number of steps.
pub open spec fn settled(old_pos: u64, changed: BarView, now: u64) -> BarView {
    let est = if changed.pos != old_pos {
        recorded(changed.est, changed.pos, now)
    } else {
        changed.est
    };
    let draw_next = if !draw_due(changed) {
        changed.draw_next
    } else if changed.draw_rate != 0 {
        plus(changed.pos, rate(mean(est.samples)) / changed.draw_rate)
    } else {
        plus(changed.pos, changed.draw_delta)
    };
    BarView { est, draw_next, ..changed }
}

/// The bar once a change that always ends in a drawing has settled.
pub open spec fn settled_forced(before: BarView, changed: BarView, now: u64) -> BarView {
    settled(before.pos, BarView { draw_next: before.pos, ..changed }, now)
}

/// Whether the bar is done.
pub open spec fn finished(s: BarView) -> bool {
    s.status != Status::InProgress
}

/// The time left, in nanoseconds: the steps left at the estimated time per
/// step, and a little more. Zero for a spinner and for a bar that is done.
pub open spec fn eta_of(s: BarView) -> u64 {
    if s.len == NO_LENGTH || finished(s) {
        0
    } else {
        plus(times(mean(s.est.samples), minus(s.len, s.pos)), ETA_PADDING)
    }
}

/// The steps that make up one drawing interval at `draw_rate` drawings and
/// `per_sec` steps a second.
pub open spec fn steps_per_draw(per_sec: u64, draw_rate: u64) -> u64 {
    if draw_rate != 0 {
        per_sec / draw_rate
    } else if per_sec == 0 {
        0
    } else {
        u64::MAX
    }
}

/// The index of the first line feed in `text`, or its length where it has none.
pub open spec fn first_line_feed(text: Seq<char>) -> nat
    decreases text.len(),
{
    if text.len() == 0 || text[0] == '\n' {
        0
    } else {
        1 + first_line_feed(text.drop_first())
    }
}

/// `line` without the carriage return at its end, if it has one.
pub open spec fn without_carriage_return(line: Seq<char>) -> Seq<char> {
    if line.len() > 0 && line.last() == '\r' {
        line.drop_last()
    } else {
        line
    }
}

/// The lines of `text`. A line ends with a line feed, or with a carriage
/// return and a line feed; the last line needs no such end.
pub open spec fn lines_of(text: Seq<char>) -> Seq<Seq<char>>
    decreases text.len(),
{
    let i = first_line_feed(text) as int;
    if text.len() == 0 {
        Seq::empty()
    } else if i >= text.len() {
        seq![text]
    } else {
        seq![without_carriage_return(text.take(i))] + lines_of(text.skip(i + 1))
    }
}

/// The lines of `text`, by `str::lines`: split at each line feed, the line
/// feed and a carriage return before it left out, and no empty line for a
/// line feed at the very end.
#[verifier::external_body]
fn split_lines(text: &str) -> (lines: Vec<String>)
    ensures
        line_views(lines@) == lines_of(text@),
{
    text.lines().map(|line| line.to_owned()).collect()
}

/// What the caller does after a steady ticker was switched on or off.
#[derive(Clone, Copy, Debug, PartialEq, Eq, Structural)]
pub struct SteadyTick {
    /// Start a ticker: none is running.
    pub spawn: bool,
    /// Draw the bar.
    pub draw: bool,
}

/// What a steady ticker does after it woke up.
#[derive(Clone, Copy, Debug, PartialEq, Eq, Structural)]
pub enum TickOutcome {
    /// End.
    Stop,
    /// Draw the bar, sleep for so many milliseconds and ask again.
    Continue { sleep_ms: u64 },
}

/// A progress bar or a spinner.
#[derive(Debug)]
pub struct ProgressBar {
    style: ProgressStyle,
    pos: u64,
    len: u64,
    tick: u64,
    started: u64,
    draw_target: ProgressDrawTarget,
    message: String,
    prefix: String,
    draw_delta: u64,
    draw_rate: u64,
    draw_next: u64,
    status: Status,
    est: Estimate,
    ticker: bool,
    steady_tick: u64,
}

impl View for ProgressBar {
    type V = BarView;

    closed spec fn view(&self) -> BarView {
        BarView {
            style: self.style@,
            pos: self.pos,
            len: self.len,
            tick: self.tick,
            started: self.started,
            draw_target: self.draw_target@,
            message: self.message@,
            prefix: self.prefix@,
            draw_delta: self.draw_delta,
            draw_rate: self.draw_rate,
            draw_next: self.draw_next,
            status: self.status,
            est: self.est@,
            ticker: self.ticker,
            steady_tick: self.steady_tick,
        }
    }
}

/// A bar that has just been made, at `now`.
pub open spec fn fresh_bar(style: StyleView, len: u64, target: TargetView, now: u64) -> BarView {
    BarView {
        style,
        pos: 0,
        len,
        tick: 0,
        started: now,
        draw_target: target,
        message: Seq::empty(),
        prefix: Seq::empty(),
        draw_delta: 0,
        draw_rate: 0,
        draw_next: 0,
        status: Status::InProgress,
        est: EstimateView { samples: Seq::empty(), start_time: now, start_value: 0 },
        ticker: false,
        steady_tick: 0,
    }
}

impl ProgressBar {
    /// A bar of `len` steps that is drawn on `target`.
    pub fn with_draw_target(len: u64, target: ProgressDrawTarget, now: u64) -> (bar: ProgressBar)
        ensures
            bar@ == fresh_bar(default_bar_style(), len, target@, now),
    {
        let style = ProgressStyle::default_bar();
        ProgressBar {
            style,
            pos: 0,
            len,
            tick: 0,
            started: now,
            draw_target: target,
            message: String::new(),
            prefix: String::new(),
            draw_delta: 0,
            draw_rate: 0,
            draw_next: 0,
            status: Status::InProgress,
            est: Estimate::new(0, now),
            ticker: false,
            steady_tick: 0,
        }
    }

    /// A bar without length that is drawn nowhere.
    pub fn hidden(now: u64) -> (bar: ProgressBar)
        ensures
            bar@ == fresh_bar(default_bar_style(), NO_LENGTH, TargetView::Hidden, now),
    {
        ProgressBar::with_draw_target(NO_LENGTH, ProgressDrawTarget::hidden(), now)
    }

    /// The same bar with another style.
    pub fn with_style(self, style: ProgressStyle) -> (bar: ProgressBar)
        ensures
            bar@ == (BarView { style: style@, ..self@ }),
    {
        let mut bar = self;
        bar.style = style;
        bar
    }

    /// The same bar with another prefix.
    pub fn with_prefix(self, prefix: String) -> (bar: ProgressBar)
        ensures
            bar@ == (BarView { prefix: prefix@, ..self@ }),
    {
        let mut bar = self;
        bar.prefix = prefix;
        bar
    }

    /// The same bar with another message.
    pub fn with_message(self, message: String) -> (bar: ProgressBar)
        ensures
            bar@ == (BarView { message: message@, ..self@ }),
    {
        let mut bar = self;
        bar.message = message;
        bar
    }

    /// The same bar at another position.
    pub fn with_position(self, pos: u64) -> (bar: ProgressBar)
        ensures
            bar@ == (BarView { pos, ..self@ }),
    {
        let mut bar = self;
        bar.pos = pos;
        bar
    }

    /// A spinner that is drawn on `target`.
    pub fn new_spinner(target: ProgressDrawTarget, now: u64) -> (bar: ProgressBar)
        ensures
            bar@ == fresh_bar(default_spinner_style(), NO_LENGTH, target@, now),
    {
        let mut bar = ProgressBar::with_draw_target(NO_LENGTH, target, now);
        bar.set_style(ProgressStyle::default_spinner());
        bar
    }

    /// Gives the bar another style. Nothing is drawn.
    pub fn set_style(&mut self, style: ProgressStyle)
        ensures
            final(self)@ == (BarView { style: style@, ..old(self)@ }),
    {
        self.style = style;
    }

    /// Draws the bar somewhere else from now on.
    pub fn set_draw_target(&mut self, target: ProgressDrawTarget)
        ensures
            final(self)@ == (BarView { draw_target: target@, ..old(self)@ }),
    {
        self.draw_target = target;
    }

    fn settle(&mut self, old_pos: u64, now: u64) -> (draw: bool)
        ensures
            final(self)@ == settled(old_pos, old(self)@, now),
            draw == draw_due(old(self)@),
    {
        let new_pos = self.pos;
        if new_pos != old_pos {
            self.est.record_step(new_pos, now);
        }
        if new_pos >= self.draw_next {
            self.draw_next = if self.draw_rate != 0 {
                new_pos.saturating_add(self.est.per_sec() / self.draw_rate)
            } else {
                new_pos.saturating_add(self.draw_delta)
            };
            true
        } else {
            false
        }
    }

    fn advance_tick(&mut self)
        ensures
            final(self)@ == (BarView { tick: ticked(old(self)@), ..old(self)@ }),
    {
        if self.steady_tick == 0 || self.tick == 0 {
            self.tick = self.tick.saturating_add(1);
        }
    }

    /// Switches a steady ticker on, with an interval of `ms` milliseconds, or
    /// off, with zero. Where none is running the caller starts one and the
    /// spinner advances; a running one learns of the new interval when it
    /// next wakes up.
    pub fn enable_steady_tick(&mut self, ms: u64, now: u64) -> (next: SteadyTick)
        ensures
            old(self)@.ticker ==> next == (SteadyTick { spawn: false, draw: false })
                && final(self)@ == (BarView { steady_tick: ms, ..old(self)@ }),
            !old(self)@.ticker ==> {
                let set = BarView { steady_tick: ms, ticker: true, ..old(self)@ };
                let changed = BarView { tick: ticked(set), ..set };
                &&& next == (SteadyTick { spawn: true, draw: draw_due(changed) })
                &&& final(self)@ == settled(old(self)@.pos, changed, now)
            },
    {
        self.steady_tick = ms;
        if self.ticker {
            return SteadyTick { spawn: false, draw: false };
        }
        self.ticker = true;
        let draw = self.tick(now);
        SteadyTick { spawn: true, draw }
    }

    /// Tells the steady ticker to stop.
    pub fn disable_steady_tick(&mut self, now: u64) -> (next: SteadyTick)
        ensures
            old(self)@.ticker ==> next == (SteadyTick { spawn: false, draw: false })
                && final(self)@ == (BarView { steady_tick: 0, ..old(self)@ }),
            !old(self)@.ticker ==> {
                let set = BarView { steady_tick: 0, ticker: true, ..old(self)@ };
                let changed = BarView { tick: ticked(set), ..set };
                &&& next == (SteadyTick { spawn: true, draw: draw_due(changed) })
                &&& final(self)@ == settled(old(self)@.pos, changed, now)
            },
    {
        self.enable_steady_tick(0, now)
    }

    /// What the steady ticker does when it wakes up. It ends where the bar is
    /// done or the interval is zero. Otherwise the spinner advances, unless it
    /// has not started yet, and the bar is drawn.
    pub fn steady_tick(&mut self) -> (outcome: TickOutcome)
        ensures
            finished(old(self)@) || old(self)@.steady_tick == 0 ==> outcome == TickOutcome::Stop
                && final(self)@ == (BarView { steady_tick: 0, ticker: false, ..old(self)@ }),
            !(finished(old(self)@) || old(self)@.steady_tick == 0) ==> outcome
                == (TickOutcome::Continue { sleep_ms: old(self)@.steady_tick }) && final(self)@
                == (BarView {
                tick: if old(self)@.tick != 0 {
                    plus(old(self)@.tick, 1)
                } else {
                    0
                },
                ..old(self)@
            }),
    {
        if self.is_finished() || self.steady_tick == 0 {
            self.steady_tick = 0;
            self.ticker = false;
            return TickOutcome::Stop;
        }
        if self.tick != 0 {
            self.tick = self.tick.saturating_add(1);
        }
        TickOutcome::Continue { sleep_ms: self.steady_tick }
    }

    /// Asks for a drawing every `n` steps only.
    pub fn set_draw_delta(&mut self, n: u64)
        ensures
            final(self)@ == (BarView {
                draw_delta: n,
                draw_next: plus(old(self)@.pos, n),
                ..old(self)@
            }),
    {
        self.draw_delta = n;
        self.draw_next = self.pos.saturating_add(n);
    }

    /// Asks for `n` drawings a second. This comes before `set_draw_delta`
    /// where `n` is not zero.
    pub fn set_draw_rate(&mut self, n: u64)
        ensures
            final(self)@ == (BarView {
                draw_rate: n,
                draw_next: plus(
                    old(self)@.pos,
                    steps_per_draw(rate(mean(old(self)@.est.samples)), n),
                ),
                ..old(self)@
            }),
    {
        self.draw_rate = n;
        let per_sec = self.est.per_sec();
        let steps = if n != 0 {
            per_sec / n
        } else if per_sec == 0 {
            0
        } else {
            u64::MAX
        };
        self.draw_next = self.pos.saturating_add(steps);
    }

    /// Advances the spinner. Returns whether the bar is to be drawn.
    pub fn tick(&mut self, now: u64) -> (draw: bool)
        ensures
            draw == draw_due(BarView { tick: ticked(old(self)@), ..old(self)@ }),
            final(self)@ == settled(
                old(self)@.pos,
                BarView { tick: ticked(old(self)@), ..old(self)@ },
                now,
            ),
    {
        let old_pos = self.pos;
        self.advance_tick();
        self.settle(old_pos, now)
    }

    /// Advances the bar by `delta` steps. Returns whether it is to be drawn.
    pub fn inc(&mut self, delta: u64, now: u64) -> (draw: bool)
        ensures
            ({
                let changed = BarView {
                    pos: plus(old(self)@.pos, delta),
                    tick: ticked(old(self)@),
                    ..old(self)@
                };
                draw == draw_due(changed) && final(self)@ == settled(old(self)@.pos, changed, now)
            }),
    {
        let old_pos = self.pos;
        self.pos = self.pos.saturating_add(delta);
        self.advance_tick();
        self.settle(old_pos, now)
    }

    /// Whether the bar is drawn nowhere.
    pub fn is_hidden(&self) -> (hidden: bool)
        ensures
            hidden == match self@.draw_target {
                TargetView::Hidden => true,
                TargetView::Term { attended, .. } => !attended,
            },
    {
        self.draw_target.is_hidden()
    }

    /// Whether the bar is done.
    pub fn is_finished(&self) -> (done: bool)
        ensures
            done == finished(self@),
    {
        match self.status {
            Status::InProgress => false,
            Status::DoneVisible => true,
            Status::DoneHidden => true,
        }
    }

    /// Whether the bar is still shown.
    pub fn should_render(&self) -> (shown: bool)
        ensures
            shown == (self@.status != Status::DoneHidden),
    {
        match self.status {
            Status::DoneHidden => false,
            _ => true,
        }
    }

    /// The commands that draw the bar at `now`. `rendered` is the bar as the
    /// caller's renderer shows it at this moment. Nothing is drawn where the
    /// bar is hidden; a bar that was taken off screen is drawn as no lines.
    pub fn draw(&mut self, rendered: Vec<String>, now: u64) -> (commands: Vec<DrawCommand>)
        ensures
            ({
                let before = old(self)@;
                let hidden = match before.draw_target {
                    TargetView::Hidden => true,
                    TargetView::Term { attended, .. } => !attended,
                };
                let state = DrawStateView {
                    lines: if before.status != Status::DoneHidden {
                        line_views(rendered@)
                    } else {
                        Seq::empty()
                    },
                    orphan_lines: 0,
                    finished: finished(before),
                    force_draw: false,
                    move_cursor: false,
                };
                &&& hidden ==> commands@.len() == 0 && final(self)@ == before
                &&& !hidden ==> command_views(commands@) == target_commands(
                    before.draw_target,
                    state,
                    now,
                ) && final(self)@ == (BarView {
                    draw_target: target_after(before.draw_target, state, now),
                    ..before
                })
            }),
    {
        if self.draw_target.is_hidden() {
            return Vec::new();
        }
        let lines = if self.should_render() {
            rendered
        } else {
            let none: Vec<String> = Vec::new();
            assert(line_views(none@) =~= Seq::empty());
            none
        };
        let draw_state = ProgressDrawState::new(lines, self.is_finished());
        self.draw_target.apply_draw_state(draw_state, now)
    }

    /// The commands that print `msg` above the bar at `now`, line by line,
    /// and the bar below it as `rendered` shows it, where the bar is shown at
    /// all. The rate limit does not hold for this.
    pub fn println(&mut self, msg: &str, rendered: Vec<String>, now: u64) -> (commands: Vec<
        DrawCommand,
    >)
        ensures
            ({
                let before = old(self)@;
                let hidden = match before.draw_target {
                    TargetView::Hidden => true,
                    TargetView::Term { attended, .. } => !attended,
                };
                let state = DrawStateView {
                    lines: lines_of(msg@) + if before.status != Status::DoneHidden && !hidden {
                        line_views(rendered@)
                    } else {
                        Seq::empty()
                    },
                    orphan_lines: lines_of(msg@).len(),
                    finished: finished(before),
                    force_draw: true,
                    move_cursor: false,
                };
                &&& command_views(commands@) == target_commands(before.draw_target, state, now)
                &&& final(self)@ == (BarView {
                    draw_target: target_after(before.draw_target, state, now),
                    ..before
                })
            }),
    {
        let orphans = split_lines(msg);
        let lines = if self.should_render() && !self.draw_target.is_hidden() {
            rendered
        } else {
            let none: Vec<String> = Vec::new();
            assert(line_views(none@) =~= Seq::empty());
            none
        };
        let draw_state = ProgressDrawState::with_orphans(orphans, lines, self.is_finished());
        self.draw_target.apply_draw_state(draw_state, now)
    }

    /// Moves the bar to `pos`. Returns whether it is to be drawn, which it is.
    pub fn set_position(&mut self, pos: u64, now: u64) -> (draw: bool)
        ensures
            draw,
            final(self)@ == settled(
                old(self)@.pos,
                BarView { draw_next: pos, pos, tick: ticked(old(self)@), ..old(self)@ },
                now,
            ),
    {
        let old_pos = self.pos;
        self.draw_next = pos;
        self.pos = pos;
        self.advance_tick();
        self.settle(old_pos, now)
    }

    /// Gives the bar another length. Returns whether it is to be drawn.
    pub fn set_length(&mut self, len: u64, now: u64) -> (draw: bool)
        ensures
            draw == draw_due(old(self)@),
            final(self)@ == settled(old(self)@.pos, BarView { len, ..old(self)@ }, now),
    {
        let old_pos = self.pos;
        self.len = len;
        self.settle(old_pos, now)
    }

    /// Makes the bar longer by `delta`. Returns whether it is to be drawn.
    pub fn inc_length(&mut self, delta: u64, now: u64) -> (draw: bool)
        ensures
            draw == draw_due(old(self)@),
            final(self)@ == settled(
                old(self)@.pos,
                BarView { len: plus(old(self)@.len, delta), ..old(self)@ },
                now,
            ),
    {
        let old_pos = self.pos;
        self.len = self.len.saturating_add(delta);
        self.settle(old_pos, now)
    }

    /// Gives the bar another prefix. Returns whether it is to be drawn.
    pub fn set_prefix(&mut self, prefix: String, now: u64) -> (draw: bool)
        ensures
            draw == draw_due(old(self)@),
            final(self)@ == settled(
                old(self)@.pos,
                BarView { prefix: prefix@, tick: ticked(old(self)@), ..old(self)@ },
                now,
            ),
    {
        let old_pos = self.pos;
        self.prefix = prefix;
        self.advance_tick();
        self.settle(old_pos, now)
    }

    /// Gives the bar another message. Returns whether it is to be drawn.
    pub fn set_message(&mut self, msg: String, now: u64) -> (draw: bool)
        ensures
            draw == draw_due(old(self)@),
            final(self)@ == settled(
                old(self)@.pos,
                BarView { message: msg@, tick: ticked(old(self)@), ..old(self)@ },
                now,
            ),
    {
        let old_pos = self.pos;
        self.message = msg;
        self.advance_tick();
        self.settle(old_pos, now)
    }

    /// Starts the estimate of the time left anew, from where the bar is now.
    /// Returns whether the bar is to be drawn.
    pub fn reset_eta(&mut self, now: u64) -> (draw: bool)
        ensures
            draw == draw_due(old(self)@),
            final(self)@ == after_reset_eta(old(self)@, now),
    {
        let old_pos = self.pos;
        self.est.reset(self.pos, now);
        self.settle(old_pos, now)
    }

    /// Counts the elapsed time from `now`. Returns whether the bar is to be drawn.
    pub fn reset_elapsed(&mut self, now: u64) -> (draw: bool)
        ensures
            draw == draw_due(old(self)@),
            final(self)@ == after_reset_elapsed(old(self)@, now),
    {
        let old_pos = self.pos;
        self.started = now;
        self.settle(old_pos, now)
    }

    /// Starts over: estimate, elapsed time and position, and the bar is
    /// running again. Returns whether it is to be drawn, which it is.
    pub fn reset(&mut self, now: u64) -> (draw: bool)
        ensures
            draw,
            final(self)@ == after_reset(old(self)@, now),
    {
        self.reset_eta(now);
        self.reset_elapsed(now);
        let old_pos = self.pos;
        self.draw_next = 0;
        self.pos = 0;
        self.status = Status::InProgress;
        self.settle(old_pos, now)
    }

    fn force(&mut self)
        ensures
            final(self)@ == (BarView { draw_next: old(self)@.pos, ..old(self)@ }),
    {
        self.draw_next = self.pos;
    }

    /// Ends the bar at its full length; it stays on screen with its message.
    /// The caller draws it afterwards.
    pub fn finish(&mut self, now: u64)
        ensures
            final(self)@ == after_finish(old(self)@, old(self)@.message, Status::DoneVisible, now),
    {
        let old_pos = self.pos;
        self.force();
        self.pos = self.len;
        self.status = Status::DoneVisible;
        self.settle(old_pos, now);
    }

    /// Ends the bar where it is; it stays on screen with its message. The
    /// caller draws it afterwards.
    pub fn finish_at_current_pos(&mut self, now: u64)
        ensures
            final(self)@ == after_abandon(old(self)@, old(self)@.message, now),
    {
        let old_pos = self.pos;
        self.force();
        self.status = Status::DoneVisible;
        self.settle(old_pos, now);
    }

    /// Ends the bar at its full length; it stays on screen with the message
    /// `msg`. The caller draws it afterwards.
    pub fn finish_with_message(&mut self, msg: String, now: u64)
        ensures
            final(self)@ == after_finish(old(self)@, msg@, Status::DoneVisible, now),
    {
        let old_pos = self.pos;
        self.force();
        self.message = msg;
        self.pos = self.len;
        self.status = Status::DoneVisible;
        self.settle(old_pos, now);
    }

    /// Ends the bar at its full length and takes it off screen. The caller
    /// draws it afterwards, which clears it.
    pub fn finish_and_clear(&mut self, now: u64)
        ensures
            final(self)@ == after_finish(old(self)@, old(self)@.message, Status::DoneHidden, now),
    {
        let old_pos = self.pos;
        self.force();
        self.pos = self.len;
        self.status = Status::DoneHidden;
        self.settle(old_pos, now);
    }

    /// Ends the bar where it is; it stays on screen with its message. The
    /// caller draws it afterwards.
    pub fn abandon(&mut self, now: u64)
        ensures
            final(self)@ == after_abandon(old(self)@, old(self)@.message, now),
    {
        let old_pos = self.pos;
        self.force();
        self.status = Status::DoneVisible;
        self.settle(old_pos, now);
    }

    /// Ends the bar where it is; it stays on screen with the message `msg`.
    /// The caller draws it afterwards.
    pub fn abandon_with_message(&mut self, msg: String, now: u64)
        ensures
            final(self)@ == after_abandon(old(self)@, msg@, now),
    {
        let old_pos = self.pos;
        self.force();
        self.message = msg;
        self.status = Status::DoneVisible;
        self.settle(old_pos, now);
    }

    /// Ends the bar in the way that its style names. The caller draws it
    /// afterwards.
    pub fn finish_using_style(&mut self, now: u64)
        ensures
            final(self)@ == match old(self)@.style.on_finish {
                FinishView::AndLeave => after_finish(
                    old(self)@,
                    old(self)@.message,
                    Status::DoneVisible,
                    now,
                ),
                FinishView::AtCurrentPos => after_abandon(old(self)@, old(self)@.message, now),
                FinishView::WithMessage(m) => after_finish(
                    old(self)@,
                    m,
                    Status::DoneVisible,
                    now,
                ),
                FinishView::AndClear => after_finish(
                    old(self)@,
                    old(self)@.message,
                    Status::DoneHidden,
                    now,
                ),
                FinishView::Abandon => after_abandon(old(self)@, old(self)@.message, now),
                FinishView::AbandonWithMessage(m) => after_abandon(old(self)@, m, now),
            },
    {
        let finish = self.style.get_on_finish();
        match finish {
            ProgressFinish::AndLeave => self.finish(now),
            ProgressFinish::AtCurrentPos => self.finish_at_current_pos(now),
            ProgressFinish::WithMessage(m) => {
                let msg = m.clone();
                self.finish_with_message(msg, now)
            },
            ProgressFinish::AndClear => self.finish_and_clear(now),
            ProgressFinish::Abandon => self.abandon(now),
            ProgressFinish::AbandonWithMessage(m) => {
                let msg = m.clone();
                self.abandon_with_message(msg, now)
            },
        }
    }

    /// How far the bar is.
    pub fn position(&self) -> (pos: u64)
        ensures
            pos == self@.pos,
    {
        self.pos
    }

    /// How far the bar has to go.
    pub fn length(&self) -> (len: u64)
        ensures
            len == self@.len,
    {
        self.len
    }

    /// The time left, in nanoseconds.
    pub fn eta(&self) -> (nanos: u64)
        ensures
            nanos == eta_of(self@),
    {
        if self.len == NO_LENGTH || self.is_finished() {
            return 0;
        }
        let t = self.est.time_per_step();
        let left = match t.checked_mul(self.len.saturating_sub(self.pos)) {
            Some(nanos) => nanos,
            None => u64::MAX,
        };
        left.saturating_add(ETA_PADDING)
    }

    /// Nanoseconds per step, as estimated.
    pub fn time_per_step(&self) -> (nanos: u64)
        ensures
            nanos == mean(self@.est.samples),
    {
        self.est.time_per_step()
    }

    /// Steps per second, as estimated.
    pub fn per_sec(&self) -> (steps: u64)
        ensures
            steps == rate(mean(self@.est.samples)),
    {
        self.est.per_sec()
    }

    /// The time from start to end, as estimated at `now`, in nanoseconds.
    /// Zero for a spinner and for a bar that is done.
    pub fn duration(&self, now: u64) -> (nanos: u64)
        ensures
            nanos == if self@.len == NO_LENGTH || finished(self@) {
                0
            } else {
                plus(minus(now, self@.started), eta_of(self@))
            },
    {
        if self.len == NO_LENGTH || self.is_finished() {
            return 0;
        }
        now.saturating_sub(self.started).saturating_add(self.eta())
    }

    /// The time since the start, at `now`, in nanoseconds.
    pub fn elapsed(&self, now: u64) -> (nanos: u64)
        ensures
            nanos == minus(now, self@.started),
    {
        now.saturating_sub(self.started)
    }

    /// The style.
    pub fn style(&self) -> (style: &ProgressStyle)
        ensures
            style@ == self@.style,
    {
        &self.style
    }

    /// The message.
    pub fn message(&self) -> (text: &String)
        ensures
            text@ == self@.message,
    {
        &self.message
    }

    /// The prefix.
    pub fn prefix(&self) -> (text: &String)
        ensures
            text@ == self@.prefix,
    {
        &self.prefix
    }

    /// The frame of the spinner.
    pub fn current_tick(&self) -> (tick: u64)
        ensures
            tick == self@.tick,
    {
        self.tick
    }
}

/// The bar after its estimate of the time left was started anew at `now`.
pub open spec fn after_reset_eta(s: BarView, now: u64) -> BarView {
    settled(
        s.pos,
        BarView {
            est: EstimateView { samples: Seq::empty(), start_time: now, start_value: s.pos },
            ..s
        },
        now,
    )
}

/// The bar after its elapsed time was set to count from `now`.
pub open spec fn after_reset_elapsed(s: BarView, now: u64) -> BarView {
    settled(s.pos, BarView { started: now, ..s }, now)
}

/// The bar after it was started over at `now`.
pub open spec fn after_reset(s: BarView, now: u64) -> BarView {
    let cleared = after_reset_elapsed(after_reset_eta(s, now), now);
    settled(
        cleared.pos,
        BarView { draw_next: 0, pos: 0, status: Status::InProgress, ..cleared },
        now,
    )
}

/// The bar after it was ended at its full length with the message `message`.
pub open spec fn after_finish(s: BarView, message: Seq<char>, status: Status, now: u64) -> BarView {
    settled_forced(s, BarView { message, pos: s.len, status, ..s }, now)
}

/// The bar after it was ended where it is with the message `message`.
pub open spec fn after_abandon(s: BarView, message: Seq<char>, now: u64) -> BarView {
    settled_forced(s, BarView { message, status: Status::DoneVisible, ..s }, now)
}

} // verus!
