use vstd::prelude::*;

verus! {

/// The envelope carried on every channel between stages. Durations are in
/// nanoseconds.
pub enum PipelineInfo<T> {
    SeqBeg(usize),
    SeqDat(usize, T),
    SeqEnd(usize),
    MsgDebug(usize, String),
    MsgInfo(usize, String),
    MsgErr(usize, String),
    MsgTime(usize, u64, u64),
}

/// Where a stage stands in its single run.
#[derive(Clone, Copy, Debug, PartialEq, Eq, Structural)]
pub enum StagePhase {
    Waiting,
    Running,
    Stopped,
}

/// What the loop around a stage does with one received message.
pub enum StageStep<T> {
    /// The first begin of the run: forward it and start the timers.
    Start(usize),
    /// A repeated begin: drop it.
    Absorb,
    /// Process the payload and forward a result under the same sequence id.
    Process(usize, T),
    /// Forward a diagnostic of another stage unchanged.
    Relay(PipelineInfo<()>),
    /// Flush this stage's diagnostics and timing, forward the end, and stop.
    Finish(usize),
    /// The input channel closed: stop without an end message.
    Halt,
}

/// The control state of a stage: whether its begin has been forwarded and
/// whether it has stopped.
#[derive(Clone, Copy, Debug, PartialEq, Eq, Structural)]
pub struct StageControl {
    pub phase: StagePhase,
}

/// A diagnostic message of another stage, re-typed for the output channel.
pub open spec fn relayed<T>(msg: PipelineInfo<T>) -> Option<PipelineInfo<()>> {
    match msg {
        PipelineInfo::MsgDebug(i, s) => Some(PipelineInfo::MsgDebug(i, s)),
        PipelineInfo::MsgInfo(i, s) => Some(PipelineInfo::MsgInfo(i, s)),
        PipelineInfo::MsgErr(i, s) => Some(PipelineInfo::MsgErr(i, s)),
        PipelineInfo::MsgTime(i, b, e) => Some(PipelineInfo::MsgTime(i, b, e)),
        _ => None,
    }
}

/// The phase after a message (`None`: the channel closed).
pub open spec fn next_phase<T>(phase: StagePhase, msg: Option<PipelineInfo<T>>) -> StagePhase {
    match msg {
        None => StagePhase::Stopped,
        Some(PipelineInfo::SeqBeg(_)) => StagePhase::Running,
        Some(PipelineInfo::SeqEnd(_)) => StagePhase::Stopped,
        _ => phase,
    }
}

/// The closing messages of a stage: its infos, then its errors, each tagged
/// with the stage id, then its timing, then the end of the run.
pub open spec fn closing(
    id: usize,
    seq: usize,
    infos: Seq<String>,
    errors: Seq<String>,
    busy: u64,
    elapsed: u64,
) -> Seq<PipelineInfo<()>> {
    infos.map_values(|s: String| PipelineInfo::<()>::MsgInfo(id, s)) + errors.map_values(
        |s: String| PipelineInfo::<()>::MsgErr(id, s),
    ) + seq![PipelineInfo::<()>::MsgTime(id, busy, elapsed), PipelineInfo::<()>::SeqEnd(seq)]
}

/// How many begins a stage in `phase` forwards while it reads `msgs`.
pub open spec fn begins_forwarded<T>(phase: StagePhase, msgs: Seq<PipelineInfo<T>>) -> nat
    decreases msgs.len(),
{
    if msgs.len() == 0 || phase == StagePhase::Stopped {
        0
    } else {
        (if phase == StagePhase::Waiting && msgs[0] is SeqBeg {
            1nat
        } else {
            0nat
        }) + begins_forwarded(next_phase(phase, Some(msgs[0])), msgs.drop_first())
    }
}

/// How many ends a stage in `phase` acts on while it reads `msgs`.
pub open spec fn ends_forwarded<T>(phase: StagePhase, msgs: Seq<PipelineInfo<T>>) -> nat
    decreases msgs.len(),
{
    if msgs.len() == 0 || phase == StagePhase::Stopped {
        0
    } else {
        (if msgs[0] is SeqEnd {
            1nat
        } else {
            0nat
        }) + ends_forwarded(next_phase(phase, Some(msgs[0])), msgs.drop_first())
    }
}

proof fn lemma_no_begin_after_start<T>(phase: StagePhase, msgs: Seq<PipelineInfo<T>>)
    requires
        phase != StagePhase::Waiting,
    ensures
        begins_forwarded(phase, msgs) == 0,
    decreases msgs.len(),
{
    if msgs.len() > 0 && phase != StagePhase::Stopped {
        lemma_no_begin_after_start(next_phase(phase, Some(msgs[0])), msgs.drop_first());
    }
}

/// Whatever a stage reads, at most one begin and at most one end cross it:
/// repeated begins are absorbed, and the stage stops at the first end.
pub proof fn lemma_one_begin_one_end<T>(phase: StagePhase, msgs: Seq<PipelineInfo<T>>)
    ensures
        begins_forwarded(phase, msgs) <= 1,
        ends_forwarded(phase, msgs) <= 1,
    decreases msgs.len(),
{
    if msgs.len() > 0 && phase != StagePhase::Stopped {
        let next = next_phase(phase, Some(msgs[0]));
        lemma_one_begin_one_end(next, msgs.drop_first());
        if phase == StagePhase::Waiting && msgs[0] is SeqBeg {
            lemma_no_begin_after_start(next, msgs.drop_first());
        }
        if msgs[0] is SeqEnd {
            assert(ends_forwarded(next, msgs.drop_first()) == 0);
        }
    }
}

impl StageControl {
    pub fn new() -> (r: Self)
        ensures
            r.phase == StagePhase::Waiting,
    {
        StageControl { phase: StagePhase::Waiting }
    }

    /// Decides what to do with one message of the input channel, `None`
    /// standing for a closed channel.
    pub fn on_message<T>(&mut self, msg: Option<PipelineInfo<T>>) -> (r: StageStep<T>)
        requires
            old(self).phase != StagePhase::Stopped,
        ensures
            final(self).phase == next_phase(old(self).phase, msg),
            match msg {
                None => r is Halt,
                Some(PipelineInfo::SeqBeg(x)) => if old(self).phase == StagePhase::Waiting {
                    r == StageStep::<T>::Start(x)
                } else {
                    r is Absorb
                },
                Some(PipelineInfo::SeqDat(x, p)) => r == StageStep::Process(x, p),
                Some(PipelineInfo::SeqEnd(x)) => r == StageStep::<T>::Finish(x),
                Some(m) => r == StageStep::<T>::Relay(relayed(m)->0),
            },
    {
        match msg {
            None => {
                self.phase = StagePhase::Stopped;
                StageStep::Halt
            },
            Some(PipelineInfo::SeqBeg(x)) => {
                if self.phase == StagePhase::Waiting {
                    self.phase = StagePhase::Running;
                    StageStep::Start(x)
                } else {
                    StageStep::Absorb
                }
            },
            Some(PipelineInfo::SeqDat(x, p)) => StageStep::Process(x, p),
            Some(PipelineInfo::SeqEnd(x)) => {
                self.phase = StagePhase::Stopped;
                StageStep::Finish(x)
            },
            Some(PipelineInfo::MsgDebug(i, s)) => StageStep::Relay(PipelineInfo::MsgDebug(i, s)),
            Some(PipelineInfo::MsgInfo(i, s)) => StageStep::Relay(PipelineInfo::MsgInfo(i, s)),
            Some(PipelineInfo::MsgErr(i, s)) => StageStep::Relay(PipelineInfo::MsgErr(i, s)),
            Some(PipelineInfo::MsgTime(i, b, e)) => StageStep::Relay(PipelineInfo::MsgTime(i, b, e)),
        }
    }
}

/// Builds the messages a stage sends when its run ends.
pub fn closing_messages(
    id: usize,
    seq: usize,
    infos: &Vec<String>,
    errors: &Vec<String>,
    busy: u64,
    elapsed: u64,
) -> (r: Vec<PipelineInfo<()>>)
    ensures
        r@ == closing(id, seq, infos@, errors@, busy, elapsed),
{
    let mut out: Vec<PipelineInfo<()>> = Vec::new();
    let mut i: usize = 0;
    while i < infos.len()
        invariant
            i <= infos@.len(),
            out@ == infos@.subrange(0, i as int).map_values(
                |s: String| PipelineInfo::<()>::MsgInfo(id, s),
            ),
        decreases infos@.len() - i,
    {
        out.push(PipelineInfo::MsgInfo(id, infos[i].clone()));
        assert(infos@.subrange(0, i + 1) =~= infos@.subrange(0, i as int).push(infos@[i as int]));
        i = i + 1;
    }
    assert(infos@.subrange(0, infos@.len() as int) =~= infos@);
    let ghost after_infos = out@;
    let mut j: usize = 0;
    while j < errors.len()
        invariant
            j <= errors@.len(),
            out@ == after_infos + errors@.subrange(0, j as int).map_values(
                |s: String| PipelineInfo::<()>::MsgErr(id, s),
            ),
        decreases errors@.len() - j,
    {
        out.push(PipelineInfo::MsgErr(id, errors[j].clone()));
        assert(errors@.subrange(0, j + 1) =~= errors@.subrange(0, j as int).push(
            errors@[j as int],
        ));
        j = j + 1;
    }
    assert(errors@.subrange(0, errors@.len() as int) =~= errors@);
    out.push(PipelineInfo::MsgTime(id, busy, elapsed));
    out.push(PipelineInfo::SeqEnd(seq));
    out
}

} // verus!
