use vstd::prelude::*;
use crate::progress::estimate::{minus, NANOS_PER_SEC};

verus! {

/// How many draws may come in one burst before the rate limit holds.
pub const MAX_GROUP_SIZE: u64 = 32;

/// The level of a full bucket, in billionths of a draw.
pub const FULL_BUCKET: u64 = 32_000_000_000;

/// The stream that a terminal writes to.
#[derive(Clone, Copy, Debug, PartialEq, Eq, Structural)]
pub enum TermStream {
    Stdout,
    Stderr,
}

/// A rate limit as contracts speak of it.
pub struct BucketView {
    /// Draws per second that leak out.
    pub leak_rate: u64,
    /// When the level was last brought up to date.
    pub last_update: u64,
    /// The level, in billionths of a draw.
    pub level: u64,
}

/// The level at `now`: since the last update, `leak_rate` draws a second have
/// leaked out, down to an empty bucket.
pub open spec fn leaked_level(b: BucketView, now: u64) -> u64 {
    let leak = minus(now, b.last_update) * b.leak_rate;
    if b.level >= leak {
        (b.level - leak) as u64
    } else {
        0
    }
}

/// Whether one more draw fits at `now`.
pub open spec fn bucket_admits(b: BucketView, now: u64) -> bool {
    leaked_level(b, now) < FULL_BUCKET
}

/// The bucket after it was asked at `now` whether one more draw fits: the
/// draw is in it where it fits.
pub open spec fn bucket_after(b: BucketView, now: u64) -> BucketView {
    BucketView {
        leak_rate: b.leak_rate,
        last_update: now,
        level: if bucket_admits(b, now) {
            (leaked_level(b, now) + NANOS_PER_SEC) as u64
        } else {
            leaked_level(b, now)
        },
    }
}

/// A rate limit that lets bursts through: a bucket that every draw fills by
/// one and that leaks at the wanted rate.
#[derive(Clone, Copy, Debug)]
pub struct LeakyBucket {
    leak_rate: u64,
    last_update: u64,
    bucket: u64,
}

impl View for LeakyBucket {
    type V = BucketView;

    closed spec fn view(&self) -> BucketView {
        BucketView { leak_rate: self.leak_rate, last_update: self.last_update, level: self.bucket }
    }
}

impl LeakyBucket {
    /// Every bucket that executable code can hold satisfies this.
    #[verifier::type_invariant]
    pub closed spec fn well_formed(self) -> bool {
        self.bucket <= FULL_BUCKET + NANOS_PER_SEC
    }

    /// A full bucket that leaks `leak_rate` draws a second from `now` on.
    pub fn new(leak_rate: u64, now: u64) -> (b: LeakyBucket)
        ensures
            b@ == (BucketView { leak_rate, last_update: now, level: FULL_BUCKET }),
    {
        LeakyBucket { leak_rate, last_update: now, bucket: FULL_BUCKET }
    }

    fn leak(&mut self, now: u64)
        ensures
            final(self)@ == (BucketView {
                leak_rate: old(self)@.leak_rate,
                last_update: now,
                level: leaked_level(old(self)@, now),
            }),
    {
        proof {
            use_type_invariant(&*self);
        }
        let elapsed = now.saturating_sub(self.last_update);
        assert(elapsed * self.leak_rate <= u64::MAX * u64::MAX) by (nonlinear_arith)
            requires
                elapsed <= u64::MAX,
                self.leak_rate <= u64::MAX,
        ;
        let ticks: u128 = (elapsed as u128) * (self.leak_rate as u128);
        let level = if (self.bucket as u128) >= ticks {
            self.bucket - (ticks as u64)
        } else {
            0
        };
        *self = LeakyBucket { leak_rate: self.leak_rate, last_update: now, bucket: level };
    }

    /// Asks at `now` whether one more draw fits, and puts it in where it does.
    pub fn try_add_work(&mut self, now: u64) -> (admitted: bool)
        ensures
            admitted == bucket_admits(old(self)@, now),
            final(self)@ == bucket_after(old(self)@, now),
    {
        self.leak(now);
        proof {
            use_type_invariant(&*self);
        }
        if self.bucket < FULL_BUCKET {
            *self = LeakyBucket {
                leak_rate: self.leak_rate,
                last_update: self.last_update,
                bucket: self.bucket + NANOS_PER_SEC,
            };
            true
        } else {
            false
        }
    }
}

/// One thing for the terminal to do.
#[derive(Clone, Debug, PartialEq, Eq)]
pub enum DrawCommand {
    /// Move the cursor up by so many lines.
    MoveCursorUp(usize),
    /// Clear so many lines above the cursor.
    ClearLastLines(usize),
    /// Write the line and go to the next.
    WriteLine(String),
    /// Send what was written.
    Flush,
}

/// A draw command as contracts speak of it.
pub enum CommandView {
    MoveCursorUp(usize),
    ClearLastLines(usize),
    WriteLine(Seq<char>),
    Flush,
}

impl View for DrawCommand {
    type V = CommandView;

    open spec fn view(&self) -> CommandView {
        match self {
            DrawCommand::MoveCursorUp(n) => CommandView::MoveCursorUp(*n),
            DrawCommand::ClearLastLines(n) => CommandView::ClearLastLines(*n),
            DrawCommand::WriteLine(s) => CommandView::WriteLine(s@),
            DrawCommand::Flush => CommandView::Flush,
        }
    }
}

/// The views of a list of commands.
pub open spec fn command_views(commands: Seq<DrawCommand>) -> Seq<CommandView> {
    commands.map_values(|c: DrawCommand| c@)
}

/// The lines in `lines` as sequences of characters.
pub open spec fn line_views(lines: Seq<String>) -> Seq<Seq<char>> {
    lines.map_values(|l: String| l@)
}

/// What is to be drawn, as contracts speak of it.
pub struct DrawStateView {
    /// The lines to print.
    pub lines: Seq<Seq<char>>,
    /// How many of them, counted from the top, stay on screen for good.
    pub orphan_lines: nat,
    /// The bar needs no more drawing after this.
    pub finished: bool,
    /// The rate limit does not hold for this draw.
    pub force_draw: bool,
    /// Move the cursor up over the last drawing rather than clear it.
    pub move_cursor: bool,
}

/// What is to be drawn.
#[derive(Debug)]
pub struct ProgressDrawState {
    lines: Vec<String>,
    orphan_lines: usize,
    finished: bool,
    force_draw: bool,
    move_cursor: bool,
}

impl View for ProgressDrawState {
    type V = DrawStateView;

    closed spec fn view(&self) -> DrawStateView {
        DrawStateView {
            lines: line_views(self.lines@),
            orphan_lines: self.orphan_lines as nat,
            finished: self.finished,
            force_draw: self.force_draw,
            move_cursor: self.move_cursor,
        }
    }
}

impl ProgressDrawState {
    /// Every draw state that executable code can hold satisfies this.
    #[verifier::type_invariant]
    pub closed spec fn well_formed(self) -> bool {
        self.orphan_lines <= self.lines@.len()
    }

    /// The lines of one drawing of a bar.
    pub fn new(lines: Vec<String>, finished: bool) -> (s: ProgressDrawState)
        ensures
            s@ == (DrawStateView {
                lines: line_views(lines@),
                orphan_lines: 0,
                finished,
                force_draw: false,
                move_cursor: false,
            }),
    {
        ProgressDrawState { lines, orphan_lines: 0, finished, force_draw: false, move_cursor: false }
    }

    /// The lines `orphans`, which stay on screen for good, above the lines of
    /// one drawing of a bar; the rate limit does not hold for it.
    pub fn with_orphans(orphans: Vec<String>, lines: Vec<String>, finished: bool) -> (s:
        ProgressDrawState)
        ensures
            s@ == (DrawStateView {
                lines: line_views(orphans@) + line_views(lines@),
                orphan_lines: orphans@.len(),
                finished,
                force_draw: true,
                move_cursor: false,
            }),
    {
        let orphan_lines = orphans.len();
        let mut all = orphans;
        let mut rest = lines;
        all.append(&mut rest);
        assert(line_views(all@) =~= line_views(orphans@) + line_views(lines@));
        ProgressDrawState { lines: all, orphan_lines, finished, force_draw: true, move_cursor: false }
    }

    /// The same drawing, for which the rate limit holds or not.
    pub fn force_draw(self, force_draw: bool) -> (s: ProgressDrawState)
        ensures
            s@ == (DrawStateView { force_draw, ..self@ }),
    {
        proof {
            use_type_invariant(&self);
        }
        ProgressDrawState {
            lines: self.lines,
            orphan_lines: self.orphan_lines,
            finished: self.finished,
            force_draw,
            move_cursor: self.move_cursor,
        }
    }

    /// The same drawing, made by moving the cursor up or by clearing.
    pub fn move_cursor(self, move_cursor: bool) -> (s: ProgressDrawState)
        ensures
            s@ == (DrawStateView { move_cursor, ..self@ }),
    {
        proof {
            use_type_invariant(&self);
        }
        ProgressDrawState {
            lines: self.lines,
            orphan_lines: self.orphan_lines,
            finished: self.finished,
            force_draw: self.force_draw,
            move_cursor,
        }
    }
}

/// Where a bar is drawn, as contracts speak of it.
pub enum TargetView {
    /// A terminal.
    Term {
        /// The stream it writes to.
        stream: TermStream,
        /// Whether someone is looking at it.
        attended: bool,
        /// How many lines of the last drawing may be drawn over.
        last_line_count: usize,
        /// The rate limit, where there is one.
        bucket: Option<BucketView>,
    },
    /// Nowhere.
    Hidden,
}

/// Whether a drawing reaches the terminal at `now`, and what the rate limit
/// is afterwards.
pub open spec fn admitted(bucket: Option<BucketView>, state: DrawStateView, now: u64) -> (
    bool,
    Option<BucketView>,
) {
    match bucket {
        None => (true, None),
        Some(b) => if state.finished || state.force_draw {
            (true, Some(b))
        } else {
            (bucket_admits(b, now), Some(bucket_after(b, now)))
        },
    }
}

/// The commands that draw `state` over a last drawing of `last_line_count` lines.
pub open spec fn draw_commands(state: DrawStateView, last_line_count: usize) -> Seq<CommandView> {
    seq![
        if state.lines.len() > 0 && state.move_cursor {
            CommandView::MoveCursorUp(last_line_count)
        } else {
            CommandView::ClearLastLines(last_line_count)
        },
    ] + state.lines.map_values(|l: Seq<char>| CommandView::WriteLine(l)) + seq![CommandView::Flush]
}

/// The target after `state` was handed to it at `now`.
pub open spec fn target_after(target: TargetView, state: DrawStateView, now: u64) -> TargetView {
    match target {
        TargetView::Hidden => target,
        TargetView::Term { stream, attended, last_line_count, bucket } => {
            let (drawn, bucket_then) = admitted(bucket, state, now);
            TargetView::Term {
                stream,
                attended,
                last_line_count: if drawn {
                    (state.lines.len() - state.orphan_lines) as usize
                } else {
                    last_line_count
                },
                bucket: bucket_then,
            }
        },
    }
}

/// The commands that come back when `state` is handed to the target at `now`.
pub open spec fn target_commands(target: TargetView, state: DrawStateView, now: u64) -> Seq<
    CommandView,
> {
    match target {
        TargetView::Hidden => Seq::empty(),
        TargetView::Term { stream, attended, last_line_count, bucket } => {
            if admitted(bucket, state, now).0 {
                draw_commands(state, last_line_count)
            } else {
                Seq::empty()
            }
        },
    }
}

#[derive(Debug)]
enum TargetKind {
    Term {
        stream: TermStream,
        attended: bool,
        last_line_count: usize,
        leaky_bucket: Option<LeakyBucket>,
    },
    Hidden,
}

/// Where a bar is drawn. It keeps track of the lines on screen and of how
/// often it lets a drawing through.
#[derive(Debug)]
pub struct ProgressDrawTarget {
    kind: TargetKind,
}

impl View for ProgressDrawTarget {
    type V = TargetView;

    closed spec fn view(&self) -> TargetView {
        match self.kind {
            TargetKind::Hidden => TargetView::Hidden,
            TargetKind::Term { stream, attended, last_line_count, leaky_bucket } => {
                TargetView::Term {
                    stream,
                    attended,
                    last_line_count,
                    bucket: match leaky_bucket {
                        Some(b) => Some(b@),
                        None => None,
                    },
                }
            },
        }
    }
}

impl ProgressDrawTarget {
    /// A terminal on `stream`, attended or not, that lets through
    /// `refresh_rate` drawings a second, or every drawing where that is `None`.
    pub fn term(stream: TermStream, attended: bool, refresh_rate: Option<u64>, now: u64) -> (t:
        ProgressDrawTarget)
        ensures
            t@ == (TargetView::Term {
                stream,
                attended,
                last_line_count: 0,
                bucket: match refresh_rate {
                    Some(rate) => Some(
                        BucketView { leak_rate: rate, last_update: now, level: FULL_BUCKET },
                    ),
                    None => None,
                },
            }),
    {
        let leaky_bucket = match refresh_rate {
            Some(rate) => Some(LeakyBucket::new(rate, now)),
            None => None,
        };
        ProgressDrawTarget {
            kind: TargetKind::Term { stream, attended, last_line_count: 0, leaky_bucket },
        }
    }

    /// Standard output, at most 15 drawings a second.
    pub fn stdout(attended: bool, now: u64) -> (t: ProgressDrawTarget)
        ensures
            t@ == (TargetView::Term {
                stream: TermStream::Stdout,
                attended,
                last_line_count: 0,
                bucket: Some(BucketView { leak_rate: 15, last_update: now, level: FULL_BUCKET }),
            }),
    {
        ProgressDrawTarget::term(TermStream::Stdout, attended, Some(15), now)
    }

    /// Standard error, at most 15 drawings a second.
    pub fn stderr(attended: bool, now: u64) -> (t: ProgressDrawTarget)
        ensures
            t@ == (TargetView::Term {
                stream: TermStream::Stderr,
                attended,
                last_line_count: 0,
                bucket: Some(BucketView { leak_rate: 15, last_update: now, level: FULL_BUCKET }),
            }),
    {
        ProgressDrawTarget::term(TermStream::Stderr, attended, Some(15), now)
    }

    /// Standard output, at most `refresh_rate` drawings a second.
    pub fn stdout_with_hz(refresh_rate: u64, attended: bool, now: u64) -> (t: ProgressDrawTarget)
        ensures
            t@ == (TargetView::Term {
                stream: TermStream::Stdout,
                attended,
                last_line_count: 0,
                bucket: Some(
                    BucketView { leak_rate: refresh_rate, last_update: now, level: FULL_BUCKET },
                ),
            }),
    {
        ProgressDrawTarget::term(TermStream::Stdout, attended, Some(refresh_rate), now)
    }

    /// Standard error, at most `refresh_rate` drawings a second.
    pub fn stderr_with_hz(refresh_rate: u64, attended: bool, now: u64) -> (t: ProgressDrawTarget)
        ensures
            t@ == (TargetView::Term {
                stream: TermStream::Stderr,
                attended,
                last_line_count: 0,
                bucket: Some(
                    BucketView { leak_rate: refresh_rate, last_update: now, level: FULL_BUCKET },
                ),
            }),
    {
        ProgressDrawTarget::term(TermStream::Stderr, attended, Some(refresh_rate), now)
    }

    /// Standard output, every drawing.
    pub fn stdout_nohz(attended: bool) -> (t: ProgressDrawTarget)
        ensures
            t@ == (TargetView::Term {
                stream: TermStream::Stdout,
                attended,
                last_line_count: 0,
                bucket: None,
            }),
    {
        ProgressDrawTarget::term(TermStream::Stdout, attended, None, 0)
    }

    /// Standard error, every drawing.
    pub fn stderr_nohz(attended: bool) -> (t: ProgressDrawTarget)
        ensures
            t@ == (TargetView::Term {
                stream: TermStream::Stderr,
                attended,
                last_line_count: 0,
                bucket: None,
            }),
    {
        ProgressDrawTarget::term(TermStream::Stderr, attended, None, 0)
    }

    /// A target that shows nothing.
    pub fn hidden() -> (t: ProgressDrawTarget)
        ensures
            t@ == TargetView::Hidden,
    {
        ProgressDrawTarget { kind: TargetKind::Hidden }
    }

    /// Whether the target shows nothing: it is hidden, or a terminal that no
    /// one is looking at.
    pub fn is_hidden(&self) -> (hidden: bool)
        ensures
            hidden == match self@ {
                TargetView::Hidden => true,
                TargetView::Term { attended, .. } => !attended,
            },
    {
        match &self.kind {
            TargetKind::Hidden => true,
            TargetKind::Term { attended, .. } => !*attended,
        }
    }

    /// The stream to write to, where the target is a terminal.
    pub fn stream(&self) -> (s: Option<TermStream>)
        ensures
            s == match self@ {
                TargetView::Hidden => None::<TermStream>,
                TargetView::Term { stream, .. } => Some(stream),
            },
    {
        match &self.kind {
            TargetKind::Hidden => None,
            TargetKind::Term { stream, .. } => Some(*stream),
        }
    }

    /// Hands `draw_state` to the target at `now`. What comes back is for the
    /// terminal to carry out, in order; nothing comes back where the target is
    /// hidden or the rate limit holds the drawing back.
    pub fn apply_draw_state(&mut self, draw_state: ProgressDrawState, now: u64) -> (commands: Vec<
        DrawCommand,
    >)
        ensures
            command_views(commands@) == target_commands(old(self)@, draw_state@, now),
            final(self)@ == target_after(old(self)@, draw_state@, now),
    {
        proof {
            use_type_invariant(&draw_state);
        }
        let mut commands: Vec<DrawCommand> = Vec::new();
        let (stream, attended, last, mut bucket) = match &self.kind {
            TargetKind::Hidden => {
                assert(command_views(commands@) =~= Seq::empty());
                return commands;
            },
            TargetKind::Term { stream, attended, last_line_count, leaky_bucket } => (
                *stream,
                *attended,
                *last_line_count,
                *leaky_bucket,
            ),
        };
        let drawn = match &mut bucket {
            None => true,
            Some(b) => draw_state.finished || draw_state.force_draw || b.try_add_work(now),
        };
        if !drawn {
            self.kind =
            TargetKind::Term { stream, attended, last_line_count: last, leaky_bucket: bucket };
            assert(command_views(commands@) =~= Seq::empty());
            return commands;
        }
        let n = draw_state.lines.len();
        if n > 0 && draw_state.move_cursor {
            commands.push(DrawCommand::MoveCursorUp(last));
        } else {
            commands.push(DrawCommand::ClearLastLines(last));
        }
        let ghost first = commands@;
        let mut i: usize = 0;
        while i < n
            invariant
                n == draw_state.lines@.len(),
                i <= n,
                first.len() == 1,
                commands@.len() == 1 + i,
                commands@[0] == first[0],
                forall|k: int|
                    0 <= k < i ==> (#[trigger] commands@[1 + k])@ == CommandView::WriteLine(
                        draw_state.lines@[k]@,
                    ),
            decreases n - i,
        {
            commands.push(DrawCommand::WriteLine(draw_state.lines[i].clone()));
            i = i + 1;
        }
        commands.push(DrawCommand::Flush);
        self.kind = TargetKind::Term {
            stream,
            attended,
            last_line_count: n - draw_state.orphan_lines,
            leaky_bucket: bucket,
        };
        proof {
            let want = draw_commands(draw_state@, last);
            let got = command_views(commands@);
            assert(got.len() == want.len());
            assert forall|k: int| 0 <= k < got.len() implies got[k] == want[k] by {
                if 1 <= k && k < got.len() - 1 {
                    assert(commands@[1 + (k - 1)]@ == CommandView::WriteLine(
                        draw_state.lines@[k - 1]@,
                    ));
                }
            }
            assert(got =~= want);
        }
        commands
    }
}

/// How several bars line up.
#[derive(Debug, Copy, Clone, PartialEq, Eq, Structural)]
pub enum MultiProgressAlignment {
    Top,
}

impl Default for MultiProgressAlignment {
    fn default() -> (a: Self)
        ensures
            a == MultiProgressAlignment::Top,
    {
        MultiProgressAlignment::Top
    }
}

} // verus!
