use rep_engine::pipeline::{closing_messages, PipelineInfo, StageControl, StagePhase, StageStep};
use rep_engine::replacer::PipelineReplacer;

#[test]
fn begin_forwarded_once() {
    let mut c = StageControl::new();
    assert!(matches!(c.on_message(Some(PipelineInfo::<u8>::SeqBeg(4))), StageStep::Start(4)));
    assert_eq!(c.phase, StagePhase::Running);
    assert!(matches!(c.on_message(Some(PipelineInfo::<u8>::SeqBeg(4))), StageStep::Absorb));
    assert!(matches!(c.on_message(Some(PipelineInfo::SeqDat(4, 9u8))), StageStep::Process(4, 9)));
    assert!(matches!(c.on_message(Some(PipelineInfo::<u8>::SeqEnd(4))), StageStep::Finish(4)));
    assert_eq!(c.phase, StagePhase::Stopped);
}

#[test]
fn diagnostics_relayed_unchanged() {
    let mut c = StageControl::new();
    match c.on_message(Some(PipelineInfo::<u8>::MsgInfo(2, "hello".to_string()))) {
        StageStep::Relay(PipelineInfo::MsgInfo(2, s)) => assert_eq!(s, "hello"),
        _ => panic!("info not relayed"),
    }
    match c.on_message(Some(PipelineInfo::<u8>::MsgErr(1, "bad".to_string()))) {
        StageStep::Relay(PipelineInfo::MsgErr(1, s)) => assert_eq!(s, "bad"),
        _ => panic!("error not relayed"),
    }
    match c.on_message(Some(PipelineInfo::<u8>::MsgDebug(0, "dbg".to_string()))) {
        StageStep::Relay(PipelineInfo::MsgDebug(0, s)) => assert_eq!(s, "dbg"),
        _ => panic!("debug not relayed"),
    }
    assert!(matches!(
        c.on_message(Some(PipelineInfo::<u8>::MsgTime(3, 10, 20))),
        StageStep::Relay(PipelineInfo::MsgTime(3, 10, 20))
    ));
    assert_eq!(c.phase, StagePhase::Waiting);
}

#[test]
fn closed_channel_halts() {
    let mut c = StageControl::new();
    assert!(matches!(c.on_message::<u8>(None), StageStep::Halt));
    assert_eq!(c.phase, StagePhase::Stopped);
}

#[test]
fn closing_order() {
    let infos = vec!["i1".to_string(), "i2".to_string()];
    let errors = vec!["e1".to_string()];
    let out = closing_messages(7, 3, &infos, &errors, 100, 250);
    assert_eq!(out.len(), 5);
    assert!(matches!(&out[0], PipelineInfo::MsgInfo(7, s) if s == "i1"));
    assert!(matches!(&out[1], PipelineInfo::MsgInfo(7, s) if s == "i2"));
    assert!(matches!(&out[2], PipelineInfo::MsgErr(7, s) if s == "e1"));
    assert!(matches!(&out[3], PipelineInfo::MsgTime(7, 100, 250)));
    assert!(matches!(&out[4], PipelineInfo::SeqEnd(3)));
}

#[test]
fn engine_run_flushes_and_clears() {
    let mut r = PipelineReplacer::new(b"a", b"b", false);
    r.start_run();
    assert!(matches!(r.on_message(Some(PipelineInfo::<u8>::SeqBeg(1))), StageStep::Start(1)));
    r.record_error("Error: denied @ \"/x\"".to_string());
    r.record_info("note".to_string());
    r.add_busy(40);
    r.add_busy(2);
    assert_eq!(r.busy(), 42);
    assert!(matches!(r.on_message(Some(PipelineInfo::<u8>::SeqEnd(1))), StageStep::Finish(1)));
    let out = r.close_run(5, 1, 99);
    assert_eq!(out.len(), 4);
    assert!(matches!(&out[0], PipelineInfo::MsgInfo(5, s) if s == "note"));
    assert!(matches!(&out[1], PipelineInfo::MsgErr(5, s) if s.starts_with("Error: ")));
    assert!(matches!(&out[2], PipelineInfo::MsgTime(5, 42, 99)));
    assert!(matches!(&out[3], PipelineInfo::SeqEnd(1)));
    assert!(r.infos.is_empty() && r.errors.is_empty());
}

#[test]
fn busy_time_saturates() {
    let mut r = PipelineReplacer::new(b"a", b"b", false);
    r.add_busy(u64::MAX - 1);
    r.add_busy(5);
    assert_eq!(r.busy(), u64::MAX);
}
