use condor::progress::draw_target::{LeakyBucket, FULL_BUCKET, MAX_GROUP_SIZE};
use condor::progress::estimate::{Estimate, NANOS_PER_SEC, WINDOW};
use condor::progress::progress_bar::{ETA_PADDING, NO_LENGTH};
use condor::progress::{
    DrawCommand, MultiProgressAlignment, ProgressBar, ProgressDrawState, ProgressDrawTarget,
    ProgressFinish, ProgressStyle, SteadyTick, TermStream, TickOutcome,
};
use condor::utils::{test_progress_bar, train_progress_bar};

const SEC: u64 = NANOS_PER_SEC;

fn lines(text: &[&str]) -> Vec<String> {
    text.iter().map(|s| s.to_string()).collect()
}

fn attended(now: u64) -> ProgressDrawTarget {
    ProgressDrawTarget::term(TermStream::Stderr, true, None, now)
}

#[test]
fn estimate_averages_the_latest_samples() {
    let mut est = Estimate::new(0, 0);
    assert_eq!(est.time_per_step(), 0);
    assert_eq!(est.per_sec(), 0);
    est.record_step(10, 1_000);
    assert_eq!(est.time_per_step(), 100);
    est.record_step(20, 4_000);
    // samples 100 and 200
    assert_eq!(est.time_per_step(), 150);
    assert_eq!(est.per_sec(), SEC / 150);
    // a position at or before the start gives a sample of zero
    est.record_step(0, 9_000);
    assert_eq!(est.time_per_step(), 100);
    est.reset(20, 10_000);
    assert_eq!(est.time_per_step(), 0);
    est.record_step(30, 10_500);
    assert_eq!(est.time_per_step(), 50);
}

#[test]
fn estimate_forgets_the_oldest_sample() {
    let mut est = Estimate::new(0, 0);
    est.record_step(1, 15_000);
    for _ in 1..WINDOW {
        est.record_step(1, 0);
    }
    // one sample of 15000 and fourteen of zero
    assert_eq!(est.time_per_step(), 1_000);
    est.record_step(1, 0);
    assert_eq!(est.time_per_step(), 0);
}

#[test]
fn estimate_takes_the_largest_times() {
    let mut est = Estimate::new(0, 0);
    for _ in 0..WINDOW {
        est.record_step(1, u64::MAX);
    }
    assert_eq!(est.time_per_step(), u64::MAX);
    assert_eq!(est.per_sec(), 0);
}

#[test]
fn bucket_lets_a_burst_through_and_then_holds() {
    assert_eq!(FULL_BUCKET, MAX_GROUP_SIZE * SEC);
    let mut bucket = LeakyBucket::new(15, 0);
    // full at the start: nothing fits until something leaked
    assert!(!bucket.try_add_work(0));
    // after a second 15 draws have leaked out
    for _ in 0..15 {
        assert!(bucket.try_add_work(SEC));
    }
    assert!(!bucket.try_add_work(SEC));
    // a fifteenth of a second lets one more through, and the one after it,
    // because the bucket stood just below full
    assert!(bucket.try_add_work(SEC + SEC / 15 + 1));
    assert!(bucket.try_add_work(SEC + SEC / 15 + 1));
    assert!(!bucket.try_add_work(SEC + SEC / 15 + 1));
    // a clock that runs backwards leaks nothing
    assert!(!bucket.try_add_work(0));
}

#[test]
fn bucket_without_leak_stays_shut() {
    let mut bucket = LeakyBucket::new(0, 0);
    assert!(!bucket.try_add_work(u64::MAX));
    let mut wide = LeakyBucket::new(u64::MAX, 0);
    assert!(wide.try_add_work(u64::MAX));
}

#[test]
fn target_draws_over_the_last_drawing() {
    let mut target = attended(0);
    assert!(!target.is_hidden());
    assert_eq!(target.stream(), Some(TermStream::Stderr));
    let first = target.apply_draw_state(ProgressDrawState::new(lines(&["a", "b"]), false), 0);
    assert_eq!(
        first,
        vec![
            DrawCommand::ClearLastLines(0),
            DrawCommand::WriteLine("a".to_string()),
            DrawCommand::WriteLine("b".to_string()),
            DrawCommand::Flush,
        ]
    );
    let second = target.apply_draw_state(
        ProgressDrawState::new(lines(&["c"]), false).move_cursor(true),
        0,
    );
    assert_eq!(
        second,
        vec![
            DrawCommand::MoveCursorUp(2),
            DrawCommand::WriteLine("c".to_string()),
            DrawCommand::Flush,
        ]
    );
    // no lines: the cursor is not moved, the last drawing is cleared
    let third = target.apply_draw_state(
        ProgressDrawState::new(Vec::new(), true).move_cursor(true),
        0,
    );
    assert_eq!(third, vec![DrawCommand::ClearLastLines(1), DrawCommand::Flush]);
}

#[test]
fn target_keeps_orphan_lines_on_screen() {
    let mut target = attended(0);
    let state = ProgressDrawState::with_orphans(lines(&["log 1", "log 2"]), lines(&["bar"]), false);
    let drawn = target.apply_draw_state(state, 0);
    assert_eq!(drawn.len(), 5);
    // only the bar's line may be drawn over
    let next = target.apply_draw_state(ProgressDrawState::new(lines(&["bar"]), false), 0);
    assert_eq!(next[0], DrawCommand::ClearLastLines(1));
}

#[test]
fn target_holds_back_what_comes_too_fast() {
    let mut target = ProgressDrawTarget::stderr(true, 0);
    let held = target.apply_draw_state(ProgressDrawState::new(lines(&["x"]), false), 0);
    assert!(held.is_empty());
    let forced = target.apply_draw_state(
        ProgressDrawState::new(lines(&["x"]), false).force_draw(true),
        0,
    );
    assert_eq!(forced.len(), 3);
    let finished = target.apply_draw_state(ProgressDrawState::new(lines(&["x"]), true), 0);
    assert_eq!(finished.len(), 3);
    let later = target.apply_draw_state(ProgressDrawState::new(lines(&["x"]), false), SEC);
    assert_eq!(later.len(), 3);
}

#[test]
fn targets_by_name() {
    assert_eq!(ProgressDrawTarget::stdout(true, 0).stream(), Some(TermStream::Stdout));
    assert_eq!(ProgressDrawTarget::stderr(true, 0).stream(), Some(TermStream::Stderr));
    assert_eq!(ProgressDrawTarget::stdout_with_hz(3, true, 0).stream(), Some(TermStream::Stdout));
    assert_eq!(ProgressDrawTarget::stderr_with_hz(3, true, 0).stream(), Some(TermStream::Stderr));
    assert_eq!(ProgressDrawTarget::stdout_nohz(true).stream(), Some(TermStream::Stdout));
    assert_eq!(ProgressDrawTarget::stderr_nohz(true).stream(), Some(TermStream::Stderr));
    assert_eq!(ProgressDrawTarget::hidden().stream(), None);
    assert!(ProgressDrawTarget::hidden().is_hidden());
    assert!(ProgressDrawTarget::stdout(false, 0).is_hidden());
    // without a rate limit every drawing goes through
    let mut free = ProgressDrawTarget::stdout_nohz(true);
    assert_eq!(free.apply_draw_state(ProgressDrawState::new(lines(&["x"]), false), 0).len(), 3);
    // with one, the first drawing waits until something has leaked out
    let mut slow = ProgressDrawTarget::stdout_with_hz(1, true, 0);
    assert!(slow.apply_draw_state(ProgressDrawState::new(lines(&["x"]), false), 0).is_empty());
    assert_eq!(slow.apply_draw_state(ProgressDrawState::new(lines(&["x"]), false), 1).len(), 3);
    assert!(slow.apply_draw_state(ProgressDrawState::new(lines(&["x"]), false), 1).is_empty());
    assert_eq!(MultiProgressAlignment::default(), MultiProgressAlignment::Top);
}

#[test]
fn hidden_target_draws_nothing() {
    let mut target = ProgressDrawTarget::hidden();
    let drawn = target.apply_draw_state(
        ProgressDrawState::new(lines(&["x"]), true).force_draw(true),
        0,
    );
    assert!(drawn.is_empty());
}

#[test]
fn styles() {
    let bar = ProgressStyle::default_bar();
    assert_eq!(bar.get_template(), "{wide_bar} {pos}/{len}");
    assert_eq!(bar.get_progress_chars(), "█░");
    assert_eq!(bar.get_tick_chars(), "⠁⠂⠄⡀⢀⠠⠐⠈ ");
    assert!(bar.get_keys().is_empty());
    assert!(matches!(bar.get_on_finish(), ProgressFinish::AndLeave));
    let spinner = ProgressStyle::default_spinner();
    assert_eq!(spinner.get_template(), "{spinner} {msg}");
    let own = bar
        .template("{msg}")
        .progress_chars("#-")
        .tick_chars("|/-\\ ")
        .with_key("eta")
        .with_key("rate")
        .on_finish(ProgressFinish::WithMessage("done".to_string()));
    assert_eq!(own.get_template(), "{msg}");
    assert_eq!(own.get_progress_chars(), "#-");
    assert_eq!(own.get_tick_chars(), "|/-\\ ");
    assert_eq!(own.get_keys(), &lines(&["eta", "rate"]));
    assert!(matches!(own.get_on_finish(), ProgressFinish::WithMessage(m) if m == "done"));
}

#[test]
fn a_new_bar() {
    let bar = ProgressBar::with_draw_target(10, attended(5), 5);
    assert_eq!(bar.position(), 0);
    assert_eq!(bar.length(), 10);
    assert_eq!(bar.current_tick(), 0);
    assert_eq!(bar.message(), "");
    assert_eq!(bar.prefix(), "");
    assert_eq!(bar.elapsed(12), 7);
    assert_eq!(bar.elapsed(3), 0);
    assert!(!bar.is_finished());
    assert!(!bar.is_hidden());
    assert!(bar.should_render());
    assert_eq!(bar.style().get_template(), "{wide_bar} {pos}/{len}");
    let hidden = ProgressBar::hidden(0);
    assert!(hidden.is_hidden());
    assert_eq!(hidden.length(), NO_LENGTH);
    let spinner = ProgressBar::new_spinner(attended(0), 0);
    assert_eq!(spinner.length(), !0);
    assert_eq!(spinner.style().get_template(), "{spinner} {msg}");
}

#[test]
fn builders_set_one_field() {
    let bar = ProgressBar::hidden(0)
        .with_style(ProgressStyle::default_spinner())
        .with_prefix("pre".to_string())
        .with_message("msg".to_string())
        .with_position(7);
    assert_eq!(bar.style().get_template(), "{spinner} {msg}");
    assert_eq!(bar.prefix(), "pre");
    assert_eq!(bar.message(), "msg");
    assert_eq!(bar.position(), 7);
    assert_eq!(bar.current_tick(), 0);
}

#[test]
fn inc_advances_and_asks_for_a_drawing() {
    let mut bar = ProgressBar::with_draw_target(100, attended(0), 0);
    assert!(bar.inc(3, 300));
    assert_eq!(bar.position(), 3);
    assert_eq!(bar.current_tick(), 1);
    // one sample of 100 ns per step
    assert_eq!(bar.per_sec(), SEC / 100);
    assert_eq!(bar.eta(), 97 * 100 + ETA_PADDING);
    assert_eq!(bar.duration(300), 300 + 97 * 100 + ETA_PADDING);
    assert!(bar.inc(u64::MAX, 400));
    assert_eq!(bar.position(), u64::MAX);
    assert_eq!(bar.eta(), ETA_PADDING);
}

#[test]
fn draw_delta_spaces_the_drawings() {
    let mut bar = ProgressBar::with_draw_target(100, attended(0), 0);
    bar.set_draw_delta(10);
    assert!(!bar.inc(9, 1));
    assert!(!bar.tick(1));
    assert!(!bar.set_message("m".to_string(), 1));
    assert!(bar.inc(1, 2));
    // the next drawing is due at 20
    assert!(!bar.inc(9, 3));
    assert!(bar.inc(1, 4));
    // set_position is always drawn
    assert!(bar.set_position(5, 5));
    assert!(!bar.inc(9, 6));
    assert!(bar.inc(1, 7));
}

#[test]
fn draw_rate_goes_by_the_speed() {
    let mut bar = ProgressBar::with_draw_target(1_000_000, attended(0), 0);
    // ten steps in 100 ms: 100 steps a second
    assert!(bar.inc(10, SEC / 10));
    assert_eq!(bar.per_sec(), 100);
    // four drawings a second: every 25 steps
    bar.set_draw_rate(4);
    assert!(!bar.inc(24, SEC / 10));
    assert!(bar.inc(1, SEC / 10));
    // a rate of zero with a speed: never by position
    bar.set_draw_rate(0);
    bar.set_draw_delta(0);
    assert!(bar.inc(0, SEC / 10));
}

#[test]
fn draw_rate_of_zero() {
    let mut still = ProgressBar::with_draw_target(10, attended(0), 0);
    // no speed yet and no rate: the next drawing is due at once
    still.set_draw_rate(0);
    assert!(still.tick(0));
    let mut moving = ProgressBar::with_draw_target(10, attended(0), 0);
    moving.inc(1, SEC);
    moving.set_draw_rate(0);
    // speed of one step a second over no rate: as far off as can be
    assert!(!moving.inc(1, SEC));
    assert!(!moving.set_length(20, SEC));
}

#[test]
fn length_prefix_and_message() {
    let mut bar = ProgressBar::with_draw_target(10, attended(0), 0);
    assert!(bar.set_length(20, 0));
    assert_eq!(bar.length(), 20);
    assert_eq!(bar.current_tick(), 0);
    assert!(bar.inc_length(5, 0));
    assert_eq!(bar.length(), 25);
    assert!(bar.inc_length(u64::MAX, 0));
    assert_eq!(bar.length(), u64::MAX);
    assert!(bar.set_prefix("p".to_string(), 0));
    assert_eq!(bar.prefix(), "p");
    assert_eq!(bar.current_tick(), 1);
    assert!(bar.set_message("m".to_string(), 0));
    assert_eq!(bar.message(), "m");
    assert_eq!(bar.current_tick(), 2);
}

#[test]
fn finishing() {
    let mut bar = ProgressBar::with_draw_target(10, attended(0), 0);
    bar.inc(4, 0);
    bar.finish(0);
    assert!(bar.is_finished());
    assert!(bar.should_render());
    assert_eq!(bar.position(), 10);
    assert_eq!(bar.eta(), 0);
    assert_eq!(bar.duration(100), 0);

    let mut bar = ProgressBar::with_draw_target(10, attended(0), 0);
    bar.inc(4, 0);
    bar.finish_at_current_pos(0);
    assert!(bar.is_finished());
    assert_eq!(bar.position(), 4);

    let mut bar = ProgressBar::with_draw_target(10, attended(0), 0);
    bar.finish_with_message("done".to_string(), 0);
    assert_eq!(bar.message(), "done");
    assert_eq!(bar.position(), 10);

    let mut bar = ProgressBar::with_draw_target(10, attended(0), 0);
    bar.finish_and_clear(0);
    assert!(bar.is_finished());
    assert!(!bar.should_render());
    assert_eq!(bar.position(), 10);

    let mut bar = ProgressBar::with_draw_target(10, attended(0), 0);
    bar.inc(4, 0);
    bar.abandon(0);
    assert!(bar.is_finished());
    assert_eq!(bar.position(), 4);

    let mut bar = ProgressBar::with_draw_target(10, attended(0), 0);
    bar.inc(4, 0);
    bar.abandon_with_message("gone".to_string(), 0);
    assert_eq!(bar.message(), "gone");
    assert_eq!(bar.position(), 4);
}

#[test]
fn finishing_by_style() {
    let cases: Vec<(ProgressFinish, u64, &str, bool)> = vec![
        (ProgressFinish::AndLeave, 10, "", true),
        (ProgressFinish::AtCurrentPos, 4, "", true),
        (ProgressFinish::WithMessage("w".to_string()), 10, "w", true),
        (ProgressFinish::AndClear, 10, "", false),
        (ProgressFinish::Abandon, 4, "", true),
        (ProgressFinish::AbandonWithMessage("a".to_string()), 4, "a", true),
    ];
    for (finish, pos, message, shown) in cases {
        let mut bar = ProgressBar::with_draw_target(10, attended(0), 0)
            .with_style(ProgressStyle::default_bar().on_finish(finish));
        bar.inc(4, 0);
        bar.finish_using_style(0);
        assert!(bar.is_finished());
        assert_eq!(bar.position(), pos);
        assert_eq!(bar.message(), message);
        assert_eq!(bar.should_render(), shown);
    }
}

#[test]
fn resetting() {
    let mut bar = ProgressBar::with_draw_target(10, attended(0), 0);
    bar.inc(5, 500);
    assert_eq!(bar.per_sec(), SEC / 100);
    assert!(bar.reset_eta(600));
    assert_eq!(bar.per_sec(), 0);
    assert_eq!(bar.position(), 5);
    // measured from position 5 at 600
    bar.inc(1, 650);
    assert_eq!(bar.per_sec(), SEC / 50);
    assert!(bar.reset_elapsed(700));
    assert_eq!(bar.elapsed(710), 10);
    bar.finish(800);
    assert!(bar.reset(900));
    assert!(!bar.is_finished());
    assert_eq!(bar.position(), 0);
    assert_eq!(bar.elapsed(950), 50);
}

#[test]
fn steady_ticking() {
    let mut bar = ProgressBar::with_draw_target(10, attended(0), 0);
    assert_eq!(bar.enable_steady_tick(100, 0), SteadyTick { spawn: true, draw: true });
    assert_eq!(bar.current_tick(), 1);
    // a second call changes the interval only
    assert_eq!(bar.enable_steady_tick(50, 0), SteadyTick { spawn: false, draw: false });
    // while the ticker runs, changes to the bar leave the spinner alone
    bar.inc(1, 0);
    assert_eq!(bar.current_tick(), 1);
    assert_eq!(bar.steady_tick(), TickOutcome::Continue { sleep_ms: 50 });
    assert_eq!(bar.current_tick(), 2);
    assert_eq!(bar.disable_steady_tick(0), SteadyTick { spawn: false, draw: false });
    assert_eq!(bar.steady_tick(), TickOutcome::Stop);
    // the ticker is gone: the next call starts one
    assert_eq!(bar.enable_steady_tick(10, 0), SteadyTick { spawn: true, draw: true });
    bar.finish(0);
    assert_eq!(bar.steady_tick(), TickOutcome::Stop);
}

#[test]
fn steady_ticker_waits_for_the_first_tick() {
    let mut bar = ProgressBar::with_draw_target(10, attended(0), 0).with_position(1);
    bar.set_draw_delta(5);
    // position 1 is below the mark at 6, so no drawing, but the spinner starts
    assert_eq!(bar.disable_steady_tick(0), SteadyTick { spawn: true, draw: false });
    assert_eq!(bar.current_tick(), 1);
    assert_eq!(bar.steady_tick(), TickOutcome::Stop);
    let mut fresh = ProgressBar::with_draw_target(10, attended(0), 0);
    fresh.set_draw_delta(5);
    fresh.set_draw_target(ProgressDrawTarget::hidden());
    assert!(fresh.is_hidden());
}

#[test]
fn drawing_a_bar() {
    let mut bar = ProgressBar::with_draw_target(10, attended(0), 0);
    let first = bar.draw(lines(&["[>   ] 0/10"]), 0);
    assert_eq!(
        first,
        vec![
            DrawCommand::ClearLastLines(0),
            DrawCommand::WriteLine("[>   ] 0/10".to_string()),
            DrawCommand::Flush,
        ]
    );
    bar.finish_and_clear(0);
    let last = bar.draw(lines(&["[####] 10/10"]), 0);
    assert_eq!(last, vec![DrawCommand::ClearLastLines(1), DrawCommand::Flush]);
    let mut hidden = ProgressBar::hidden(0);
    assert!(hidden.draw(lines(&["x"]), 0).is_empty());
    let mut unattended =
        ProgressBar::with_draw_target(10, ProgressDrawTarget::stderr_nohz(false), 0);
    assert!(unattended.draw(lines(&["x"]), 0).is_empty());
}

#[test]
fn println_puts_lines_above_the_bar() {
    let mut bar = ProgressBar::with_draw_target(10, ProgressDrawTarget::stderr(true, 0), 0);
    let out = bar.println("one\r\ntwo\n\nfour\n", lines(&["bar"]), 0);
    assert_eq!(
        out,
        vec![
            DrawCommand::ClearLastLines(0),
            DrawCommand::WriteLine("one".to_string()),
            DrawCommand::WriteLine("two".to_string()),
            DrawCommand::WriteLine("".to_string()),
            DrawCommand::WriteLine("four".to_string()),
            DrawCommand::WriteLine("bar".to_string()),
            DrawCommand::Flush,
        ]
    );
    // only the bar's line is drawn over next time
    let next = bar.println("x\r", lines(&["bar"]), 0);
    assert_eq!(next[0], DrawCommand::ClearLastLines(1));
    assert_eq!(next[1], DrawCommand::WriteLine("x\r".to_string()));
    let empty = bar.println("", lines(&["bar"]), 0);
    assert_eq!(
        empty,
        vec![
            DrawCommand::ClearLastLines(1),
            DrawCommand::WriteLine("bar".to_string()),
            DrawCommand::Flush,
        ]
    );
    bar.finish_and_clear(0);
    let gone = bar.println("\n", lines(&["bar"]), 0);
    assert_eq!(
        gone,
        vec![
            DrawCommand::ClearLastLines(1),
            DrawCommand::WriteLine("".to_string()),
            DrawCommand::Flush,
        ]
    );
}

#[test]
fn println_on_a_terminal_no_one_looks_at() {
    let mut bar = ProgressBar::with_draw_target(10, ProgressDrawTarget::stderr_nohz(false), 0);
    let out = bar.println("log", lines(&["bar"]), 0);
    assert_eq!(
        out,
        vec![
            DrawCommand::ClearLastLines(0),
            DrawCommand::WriteLine("log".to_string()),
            DrawCommand::Flush,
        ]
    );
    let mut hidden = ProgressBar::hidden(0);
    assert!(hidden.println("log", lines(&["bar"]), 0).is_empty());
}

#[test]
fn bars_for_training_and_testing() {
    let train = train_progress_bar(500, attended(0), 0);
    assert_eq!(train.length(), 500);
    assert_eq!(train.position(), 0);
    assert_eq!(
        train.style().get_template(),
        "{spinner:.green.bright} {percent}│{wide_bar:.green.bright/blue}│{pos:>7}/{len:7}({msg} | {rate} | {eta} | {elapsed_precise})"
    );
    assert_eq!(train.style().get_progress_chars(), "█▉▊▋▌▍▎▏  ");
    assert_eq!(train.style().get_keys(), &lines(&["eta", "rate", "percent"]));
    let test = test_progress_bar(7, attended(0), 0);
    assert_eq!(test.length(), 7);
    assert_eq!(
        test.style().get_template(),
        "{spinner:.yellow.bright} {percent}│{wide_bar:.yellow.bright/blue}│{pos:>7}/{len:7}({rate} | {eta} | {elapsed_precise})"
    );
    assert_eq!(test.style().get_keys(), &lines(&["eta", "rate", "percent"]));
}
