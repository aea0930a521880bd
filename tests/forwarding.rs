use std::collections::VecDeque;

use playout_core::media::{decoder_args, MediaItem};
use playout_core::playout::{
    shutdown_order, FatalError, ItemPlan, Phase, PlayoutLoop, SessionEnd, Slot, Step,
};

fn strings(v: &[&str]) -> Vec<String> {
    v.iter().map(|s| s.to_string()).collect()
}

fn item(cmd: Option<&[&str]>, playable: bool) -> MediaItem {
    MediaItem {
        cmd: cmd.map(strings),
        filter: None,
        playable,
        source: "test".to_string(),
    }
}

/// What one simulated item run did.
struct Outcome {
    written: Vec<u8>,
    reads: usize,
    terminations: usize,
    resyncs: usize,
    handbacks: usize,
    steps: Vec<Step>,
}

/// Drives the loop for one item: `decoder` holds what successive reads
/// return (an exhausted list reads as end of output), `ingest` holds, per
/// iteration, the chunk that is pending then.
fn run_item(
    ctl: &mut PlayoutLoop,
    mut decoder: VecDeque<Vec<u8>>,
    mut ingest: VecDeque<Option<Vec<u8>>>,
) -> Outcome {
    let mut out = Outcome {
        written: vec![],
        reads: 0,
        terminations: 0,
        resyncs: 0,
        handbacks: 0,
        steps: vec![],
    };
    ctl.decoder_started(true);
    loop {
        let read = if ctl.wants_read() {
            out.reads += 1;
            decoder.pop_front().unwrap_or_default()
        } else {
            vec![]
        };
        let chunk = ingest.pop_front().unwrap_or(None);
        let step = ctl.step(read.len(), chunk.is_some());
        out.steps.push(step);
        match step {
            Step::ForwardLive { takeover } => {
                out.written.extend_from_slice(&chunk.unwrap());
                if takeover {
                    out.terminations += 1;
                    out.resyncs += 1;
                }
            }
            Step::ForwardDecoded => out.written.extend_from_slice(&read),
            Step::EndItem { handback } => {
                if handback {
                    out.handbacks += 1;
                }
                break;
            }
        }
    }
    out
}

fn started_loop() -> PlayoutLoop {
    let mut ctl = PlayoutLoop::new();
    assert!(!ctl.check_shutdown(false));
    let plan = ctl.next_item(&Some(item(Some(&["-i", "a.mp4"]), true)), "level+error", &vec![]);
    assert!(matches!(plan, ItemPlan::Decode(_)));
    assert_eq!(ctl.phase, Phase::Spawning);
    ctl
}

fn pattern(len: usize, seed: u8) -> Vec<u8> {
    (0..len).map(|i| (i as u8).wrapping_mul(7).wrapping_add(seed)).collect()
}

#[test]
fn plain_item_passes_through_in_order() {
    let mut ctl = started_loop();
    let a = pattern(1000, 1);
    let b = pattern(1000, 2);
    let c = pattern(500, 3);
    let decoder = VecDeque::from(vec![a.clone(), b.clone(), c.clone()]);
    let out = run_item(&mut ctl, decoder, VecDeque::new());
    let mut expected = a;
    expected.extend_from_slice(&b);
    expected.extend_from_slice(&c);
    assert_eq!(out.written.len(), 2500);
    assert_eq!(out.written, expected);
    assert_eq!(out.terminations, 0);
    assert_eq!(out.handbacks, 0);
    assert_eq!(
        out.steps,
        vec![
            Step::ForwardDecoded,
            Step::ForwardDecoded,
            Step::ForwardDecoded,
            Step::EndItem { handback: false }
        ]
    );
    assert_eq!(ctl.phase, Phase::Reaping);
    ctl.decoder_reaped(true);
    assert_eq!(ctl.phase, Phase::AwaitItem);
    assert_eq!(ctl.outcome(), None);
}

#[test]
fn ingest_chunk_takes_over_mid_item() {
    let mut ctl = started_loop();
    let first = pattern(1000, 9);
    let live = pattern(32256, 4);
    let decoder = VecDeque::from(vec![first.clone(), pattern(1000, 5), pattern(1000, 6)]);
    let ingest = VecDeque::from(vec![None, Some(live.clone())]);
    let out = run_item(&mut ctl, decoder, ingest);
    let mut expected = first;
    expected.extend_from_slice(&live);
    assert_eq!(out.written, expected);
    assert_eq!(out.terminations, 1);
    assert_eq!(out.resyncs, 1);
    assert!(ctl.resync_signalled);
    // two reads: the first chunk, and the one made in the takeover iteration
    assert_eq!(out.reads, 2);
    assert_eq!(
        out.steps,
        vec![
            Step::ForwardDecoded,
            Step::ForwardLive { takeover: true },
            Step::EndItem { handback: true }
        ]
    );
    assert!(!out.steps.iter().skip(2).any(|s| *s == Step::ForwardDecoded));
}

#[test]
fn takeover_state_is_live() {
    let mut ctl = started_loop();
    ctl.decoder_started(true);
    assert_eq!(ctl.step(1000, false), Step::ForwardDecoded);
    assert_eq!(ctl.step(1000, true), Step::ForwardLive { takeover: true });
    assert!(ctl.live);
    assert!(ctl.resync_signalled);
    assert!(!ctl.wants_read());
    assert_eq!(ctl.phase, Phase::Forwarding);
}

#[test]
fn termination_requested_once_per_takeover() {
    let mut ctl = started_loop();
    let decoder = VecDeque::from(vec![pattern(100, 1), pattern(100, 2)]);
    let ingest = VecDeque::from(vec![
        Some(pattern(10, 1)),
        Some(pattern(10, 2)),
        Some(pattern(10, 3)),
        Some(pattern(10, 4)),
    ]);
    let out = run_item(&mut ctl, decoder, ingest);
    assert_eq!(out.terminations, 1);
    assert_eq!(out.resyncs, 1);
    assert_eq!(out.reads, 1);
    assert_eq!(out.written.len(), 40);
    assert_eq!(out.handbacks, 1);
}

#[test]
fn chunk_with_empty_read_stays_live() {
    let mut ctl = started_loop();
    ctl.decoder_started(true);
    let step = ctl.step(0, true);
    assert_eq!(step, Step::ForwardLive { takeover: true });
    assert_eq!(ctl.phase, Phase::Forwarding);
    assert!(ctl.live);
    let end = ctl.step(0, false);
    assert_eq!(end, Step::EndItem { handback: true });
    assert_eq!(ctl.phase, Phase::Reaping);
    assert!(!ctl.live);
}

#[test]
fn resync_visible_before_next_item() {
    let mut ctl = started_loop();
    let decoder = VecDeque::from(vec![pattern(10, 1)]);
    let ingest = VecDeque::from(vec![Some(pattern(10, 2))]);
    let out = run_item(&mut ctl, decoder, ingest);
    assert_eq!(out.resyncs, 1);
    ctl.decoder_reaped(true);
    assert_eq!(ctl.phase, Phase::AwaitItem);
    assert!(ctl.resync_signalled);
}

#[test]
fn placeholders_spawn_no_decoder() {
    let mut ctl = PlayoutLoop::new();
    for _ in 0..5 {
        assert!(!ctl.check_shutdown(false));
        let plan = ctl.next_item(&Some(item(Some(&["-i", "gap.mp4"]), false)), "level+error", &vec![]);
        assert!(matches!(plan, ItemPlan::Skip));
        assert_eq!(ctl.phase, Phase::AwaitItem);
    }
}

#[test]
fn placeholder_then_exhausted_schedule() {
    let mut ctl = PlayoutLoop::new();
    let mut spawns = 0;
    let items = vec![item(Some(&["-i", "gap.mp4"]), false), item(None, true)];
    let mut plans = vec![];
    for it in items {
        if ctl.check_shutdown(false) {
            break;
        }
        let plan = ctl.next_item(&Some(it), "level+error", &vec![]);
        if matches!(plan, ItemPlan::Decode(_)) {
            spawns += 1;
        }
        let end = matches!(plan, ItemPlan::EndSession);
        plans.push(plan);
        if end {
            break;
        }
    }
    assert_eq!(spawns, 0);
    assert!(matches!(plans[0], ItemPlan::Skip));
    assert!(matches!(plans[1], ItemPlan::EndSession));
    assert_eq!(ctl.phase, Phase::Ended(SessionEnd::Exhausted));
    assert_eq!(ctl.outcome(), Some(Ok(SessionEnd::Exhausted)));
}

#[test]
fn source_without_items_ends_session() {
    let mut ctl = PlayoutLoop::new();
    assert!(matches!(ctl.next_item(&None, "level+error", &vec![]), ItemPlan::EndSession));
    assert_eq!(ctl.outcome(), Some(Ok(SessionEnd::Exhausted)));
}

#[test]
fn ending_signal_stops_at_item_boundary() {
    let mut ctl = PlayoutLoop::new();
    assert!(ctl.check_shutdown(true));
    assert_eq!(ctl.outcome(), Some(Ok(SessionEnd::Cancelled)));
}

#[test]
fn spawn_failure_is_fatal() {
    let mut ctl = started_loop();
    ctl.decoder_started(false);
    assert_eq!(ctl.outcome(), Some(Err(FatalError::DecoderSpawn)));
}

#[test]
fn read_failure_is_fatal() {
    let mut ctl = started_loop();
    ctl.decoder_started(true);
    ctl.read_failed();
    assert_eq!(ctl.outcome(), Some(Err(FatalError::DecoderRead)));
}

#[test]
fn reap_failure_is_fatal() {
    let mut ctl = started_loop();
    ctl.decoder_started(true);
    assert_eq!(ctl.step(0, false), Step::EndItem { handback: false });
    ctl.decoder_reaped(false);
    assert_eq!(ctl.outcome(), Some(Err(FatalError::DecoderReap)));
}

#[test]
fn write_failure_ends_session() {
    let mut ctl = started_loop();
    ctl.decoder_started(true);
    assert_eq!(ctl.step(10, false), Step::ForwardDecoded);
    ctl.write_failed();
    assert_eq!(ctl.outcome(), Some(Ok(SessionEnd::SinkClosed)));
}

#[test]
fn decode_invocation_order() {
    let args = decoder_args(
        "level+info",
        &strings(&["-i", "a.mp4"]),
        &Some(strings(&["-filter_complex", "[0:v]null[v]", "-map", "[v]"])),
        &strings(&["-f", "mpegts", "-"]),
    );
    assert_eq!(
        args,
        strings(&[
            "-hide_banner",
            "-nostats",
            "-v",
            "level+info",
            "-i",
            "a.mp4",
            "-filter_complex",
            "[0:v]null[v]",
            "-map",
            "[v]",
            "-f",
            "mpegts",
            "-"
        ])
    );
}

#[test]
fn single_entry_filter_is_not_applied() {
    let args = decoder_args("level+error", &strings(&["-i", "b.mp4"]), &Some(strings(&["-vn"])), &strings(&["-"]));
    assert_eq!(
        args,
        strings(&["-hide_banner", "-nostats", "-v", "level+error", "-i", "b.mp4", "-"])
    );
    let none = decoder_args("level+error", &strings(&["-i", "b.mp4"]), &None, &vec![]);
    assert_eq!(none, strings(&["-hide_banner", "-nostats", "-v", "level+error", "-i", "b.mp4"]));
}

#[test]
fn next_item_composes_decode_arguments() {
    let mut ctl = PlayoutLoop::new();
    let it = MediaItem {
        cmd: Some(strings(&["-ss", "5", "-i", "c.mp4"])),
        filter: Some(strings(&["-af", "volume=0.5"])),
        playable: true,
        source: "c.mp4".to_string(),
    };
    match ctl.next_item(&Some(it), "level+warning", &strings(&["-c:v", "rawvideo"])) {
        ItemPlan::Decode(args) => assert_eq!(
            args,
            strings(&[
                "-hide_banner",
                "-nostats",
                "-v",
                "level+warning",
                "-ss",
                "5",
                "-i",
                "c.mp4",
                "-af",
                "volume=0.5",
                "-c:v",
                "rawvideo"
            ])
        ),
        other => panic!("unexpected plan {:?}", other),
    }
}

#[test]
fn shutdown_visits_decoder_encoder_listener() {
    assert_eq!(shutdown_order(), vec![Slot::Decoder, Slot::Encoder, Slot::Listener]);
}
