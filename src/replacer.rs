use vstd::prelude::*;
use crate::pattern::{opt_bytes, pattern_replacement, pattern_result};
use vstd::utf8::decode_utf8;
use crate::pipeline::{
    closing, closing_messages, next_phase, relayed, PipelineInfo, StageControl, StagePhase, StageStep,
};

verus! {

/// What to do after one key read at a confirmation prompt.
#[derive(Clone, Copy, Debug, PartialEq, Eq, Structural)]
pub enum Reply {
    /// Write the replacement for this match.
    Replace,
    /// Write the original bytes of this match.
    Keep,
    /// Discard the file in progress and end the process.
    Quit,
    /// The key means nothing: ask again.
    Retry,
}

/// The replacement stage: its configuration, the per-run set of files
/// already rewritten, and its diagnostics.
pub struct PipelineReplacer {
    pub is_color: bool,
    pub is_interactive: bool,
    pub preserve_time: bool,
    pub print_file: bool,
    pub print_column: bool,
    pub print_row: bool,
    pub infos: Vec<String>,
    pub errors: Vec<String>,
    pub all_replace: bool,
    pub keyword: Vec<u8>,
    pub replacement: Vec<u8>,
    pub regex: bool,
    pub time_bsy: u64,
    pub replaced_paths: Vec<Vec<u8>>,
    pub control: StageControl,
}

/// The reply that a key gives: yes, space or enter replace, no keeps,
/// all replaces this and every later match, quit quits.
pub open spec fn reply_of(key: char) -> Reply {
    if key == 'Y' || key == 'y' || key == ' ' || key == '\r' || key == '\n' || key == 'A' || key
        == 'a' {
        Reply::Replace
    } else if key == 'N' || key == 'n' {
        Reply::Keep
    } else if key == 'Q' || key == 'q' {
        Reply::Quit
    } else {
        Reply::Retry
    }
}

pub open spec fn is_all_key(key: char) -> bool {
    key == 'A' || key == 'a'
}

/// Whether a file is to be rewritten: it has matches, it could be
/// resolved, and its resolved path has not been rewritten in this run.
pub open spec fn admits(seen: Seq<Seq<u8>>, n_matches: nat, canonical: Option<Seq<u8>>) -> bool {
    n_matches > 0 && canonical is Some && !seen.contains(canonical->0)
}

/// The set of rewritten paths after one file has been considered.
pub open spec fn after_claim(seen: Seq<Seq<u8>>, n_matches: nat, canonical: Option<Seq<u8>>) -> Seq<
    Seq<u8>,
> {
    if admits(seen, n_matches, canonical) {
        seen.push(canonical->0)
    } else {
        seen
    }
}

pub open spec fn opt_view(p: Option<&[u8]>) -> Option<Seq<u8>> {
    match p {
        Some(b) => Some(b@),
        None => None,
    }
}

/// Two paths that resolve to the same file are rewritten once: after the
/// first has been admitted, the second is refused and changes nothing.
pub proof fn lemma_same_file_rewritten_once(
    seen: Seq<Seq<u8>>,
    first_matches: nat,
    second_matches: nat,
    canonical: Seq<u8>,
)
    requires
        admits(seen, first_matches, Some(canonical)),
    ensures
        !admits(after_claim(seen, first_matches, Some(canonical)), second_matches, Some(canonical)),
        after_claim(after_claim(seen, first_matches, Some(canonical)), second_matches, Some(canonical))
            == seen.push(canonical),
{
    assert(seen.push(canonical)[seen.len() as int] == canonical);
}

/// A file without matches is never admitted, whatever path it has.
pub proof fn lemma_no_matches_never_admitted(seen: Seq<Seq<u8>>, canonical: Option<Seq<u8>>)
    ensures
        !admits(seen, 0, canonical),
        after_claim(seen, 0, canonical) == seen,
{
}

fn bytes_equal(a: &[u8], b: &[u8]) -> (r: bool)
    ensures
        r == (a@ == b@),
{
    if a.len() != b.len() {
        return false;
    }
    let mut i: usize = 0;
    while i < a.len()
        invariant
            a@.len() == b@.len(),
            i <= a@.len(),
            forall|j: int| 0 <= j < i ==> a@[j] == b@[j],
        decreases a@.len() - i,
    {
        if a[i] != b[i] {
            return false;
        }
        i = i + 1;
    }
    assert(a@ =~= b@);
    true
}

fn copy_bytes(b: &[u8]) -> (r: Vec<u8>)
    ensures
        r@ == b@,
{
    let mut r: Vec<u8> = Vec::new();
    let mut i: usize = 0;
    while i < b.len()
        invariant
            i <= b@.len(),
            r@ == b@.subrange(0, i as int),
        decreases b@.len() - i,
    {
        r.push(b[i]);
        assert(b@.subrange(0, i + 1) =~= b@.subrange(0, i as int).push(b@[i as int]));
        i = i + 1;
    }
    assert(b@.subrange(0, b@.len() as int) =~= b@);
    r
}

impl PipelineReplacer {
    /// The resolved paths rewritten so far in this run, in order.
    pub open spec fn seen(&self) -> Seq<Seq<u8>> {
        self.replaced_paths@.map_values(|v: Vec<u8>| v@)
    }

    pub open spec fn spec_keyword(&self) -> Seq<u8> {
        self.keyword@
    }

    pub open spec fn spec_replacement(&self) -> Seq<u8> {
        self.replacement@
    }

    pub open spec fn spec_regex(&self) -> bool {
        self.regex
    }

    pub open spec fn spec_all_replace(&self) -> bool {
        self.all_replace
    }

    pub open spec fn spec_busy(&self) -> u64 {
        self.time_bsy
    }

    pub open spec fn spec_phase(&self) -> StagePhase {
        self.control.phase
    }

    /// The configuration of the run, which no step of the run changes.
    pub open spec fn same_config(&self, other: &Self) -> bool {
        &&& self.is_color == other.is_color
        &&& self.is_interactive == other.is_interactive
        &&& self.preserve_time == other.preserve_time
        &&& self.print_file == other.print_file
        &&& self.print_column == other.print_column
        &&& self.print_row == other.print_row
        &&& self.keyword@ == other.keyword@
        &&& self.replacement@ == other.replacement@
        &&& self.regex == other.regex
    }

    /// No resolved path is held twice.
    pub open spec fn wf(&self) -> bool {
        self.seen().no_duplicates()
    }

    /// A stage in interactive mode that prints the file name, with color,
    /// timestamps not preserved, and nothing rewritten yet.
    pub fn new(keyword: &[u8], replacement: &[u8], regex: bool) -> (r: Self)
        ensures
            r.wf(),
            r.is_color,
            r.is_interactive,
            !r.preserve_time,
            r.print_file,
            !r.print_column,
            !r.print_row,
            r.infos@.len() == 0,
            r.errors@.len() == 0,
            !r.spec_all_replace(),
            r.spec_keyword() == keyword@,
            r.spec_replacement() == replacement@,
            r.spec_regex() == regex,
            r.spec_busy() == 0,
            r.seen().len() == 0,
            r.spec_phase() == StagePhase::Waiting,
    {
        let r = PipelineReplacer {
            is_color: true,
            is_interactive: true,
            preserve_time: false,
            print_file: true,
            print_column: false,
            print_row: false,
            infos: Vec::new(),
            errors: Vec::new(),
            all_replace: false,
            keyword: copy_bytes(keyword),
            replacement: copy_bytes(replacement),
            regex,
            time_bsy: 0,
            replaced_paths: Vec::new(),
            control: StageControl::new(),
        };
        assert(r.seen() =~= Seq::<Seq<u8>>::empty());
        r
    }

    /// Decides whether a file is rewritten, given its number of matches and
    /// its resolved path (`None` where it could not be resolved), and
    /// records the path when it is.
    pub fn admit_path(&mut self, n_matches: usize, canonical: Option<&[u8]>) -> (r: bool)
        requires
            old(self).wf(),
        ensures
            final(self).same_config(&*old(self)),
            final(self).wf(),
            r == admits(old(self).seen(), n_matches as nat, opt_view(canonical)),
            final(self).seen() == after_claim(old(self).seen(), n_matches as nat, opt_view(canonical)),
            final(self).spec_all_replace() == old(self).spec_all_replace(),
            final(self).spec_busy() == old(self).spec_busy(),
            final(self).spec_phase() == old(self).spec_phase(),
            final(self).infos == old(self).infos,
            final(self).errors == old(self).errors,
    {
        if n_matches == 0 {
            return false;
        }
        let path = match canonical {
            Some(p) => p,
            None => return false,
        };
        assert(opt_view(canonical) == Some(path@));
        let mut i: usize = 0;
        while i < self.replaced_paths.len()
            invariant
                *self == *old(self),
                self.wf(),
                n_matches > 0,
                opt_view(canonical) == Some(path@),
                i <= self.replaced_paths@.len(),
                forall|j: int| 0 <= j < i ==> self.seen()[j] != path@,
            decreases self.replaced_paths@.len() - i,
        {
            if bytes_equal(self.replaced_paths[i].as_slice(), path) {
                assert(self.seen()[i as int] == path@);
                assert(self.seen().contains(path@));
                return false;
            }
            i = i + 1;
        }
        let ghost before = self.seen();
        assert(!before.contains(path@));
        self.replaced_paths.push(copy_bytes(path));
        assert(self.seen() =~= before.push(path@));
        true
    }

    /// Whether the next match must be confirmed at a prompt.
    pub fn needs_prompt(&self) -> (r: bool)
        ensures
            r == (self.is_interactive && !self.spec_all_replace()),
    {
        self.is_interactive && !self.all_replace
    }

    /// Interprets one key read at a prompt. The all key also turns prompting
    /// off for every later match of the run.
    pub fn answer(&mut self, key: char) -> (r: Reply)
        ensures
            r == reply_of(key),
            final(self).same_config(&*old(self)),
            final(self).spec_all_replace() == (old(self).spec_all_replace() || is_all_key(key)),
            final(self).seen() == old(self).seen(),
            final(self).wf() == old(self).wf(),
            final(self).spec_busy() == old(self).spec_busy(),
            final(self).spec_phase() == old(self).spec_phase(),
            final(self).infos == old(self).infos,
            final(self).errors == old(self).errors,
    {
        if key == 'Y' || key == 'y' || key == ' ' || key == '\r' || key == '\n' {
            Reply::Replace
        } else if key == 'A' || key == 'a' {
            self.all_replace = true;
            Reply::Replace
        } else if key == 'N' || key == 'n' {
            Reply::Keep
        } else if key == 'Q' || key == 'q' {
            Reply::Quit
        } else {
            Reply::Retry
        }
    }

    /// The pattern-mode replacement for a matched slice; see
    /// `pattern_replacement`.
    pub fn get_regex_replacement(&self, org: &[u8]) -> (r: Option<Vec<u8>>)
        ensures
            opt_bytes(r) == pattern_result(self.spec_keyword(), self.spec_replacement(), org@),
            r is Some && !decode_utf8(self.spec_replacement()).contains('$') ==> r->0@
                == self.spec_replacement(),
    {
        pattern_replacement(self.keyword.as_slice(), self.replacement.as_slice(), org)
    }

    /// The bytes that replace a matched slice: the configured replacement in
    /// literal mode, its expansion against the slice in pattern mode.
    pub fn replacement_for(&self, matched: &[u8]) -> (r: Option<Vec<u8>>)
        ensures
            !self.spec_regex() ==> opt_bytes(r) == Some(self.spec_replacement()),
            self.spec_regex() ==> opt_bytes(r) == pattern_result(
                self.spec_keyword(),
                self.spec_replacement(),
                matched@,
            ),
    {
        if self.regex {
            self.get_regex_replacement(matched)
        } else {
            Some(copy_bytes(self.replacement.as_slice()))
        }
    }

    /// Records the failure of one file; it is reported when the run ends.
    pub fn record_error(&mut self, msg: String)
        ensures
            final(self).same_config(&*old(self)),
            final(self).errors@ == old(self).errors@.push(msg),
            final(self).infos == old(self).infos,
            final(self).seen() == old(self).seen(),
            final(self).wf() == old(self).wf(),
            final(self).spec_all_replace() == old(self).spec_all_replace(),
            final(self).spec_busy() == old(self).spec_busy(),
            final(self).spec_phase() == old(self).spec_phase(),
    {
        self.errors.push(msg);
    }

    /// Records a note; it is reported when the run ends.
    pub fn record_info(&mut self, msg: String)
        ensures
            final(self).same_config(&*old(self)),
            final(self).infos@ == old(self).infos@.push(msg),
            final(self).errors == old(self).errors,
            final(self).seen() == old(self).seen(),
            final(self).wf() == old(self).wf(),
            final(self).spec_all_replace() == old(self).spec_all_replace(),
            final(self).spec_busy() == old(self).spec_busy(),
            final(self).spec_phase() == old(self).spec_phase(),
    {
        self.infos.push(msg);
    }

    /// Adds the time spent processing one item to the busy time, saturating
    /// at the largest value.
    pub fn add_busy(&mut self, nanos: u64)
        ensures
            final(self).same_config(&*old(self)),
            final(self).spec_busy() == if old(self).spec_busy() + nanos > u64::MAX {
                u64::MAX as int
            } else {
                old(self).spec_busy() + nanos
            },
            final(self).infos == old(self).infos,
            final(self).errors == old(self).errors,
            final(self).seen() == old(self).seen(),
            final(self).wf() == old(self).wf(),
            final(self).spec_all_replace() == old(self).spec_all_replace(),
            final(self).spec_phase() == old(self).spec_phase(),
    {
        self.time_bsy = self.time_bsy.saturating_add(nanos);
    }

    /// The busy time of the run so far, in nanoseconds.
    pub fn busy(&self) -> (r: u64)
        ensures
            r == self.spec_busy(),
    {
        self.time_bsy
    }

    /// Starts a run: no diagnostics, no rewritten paths, no busy time, and
    /// no begin seen yet.
    pub fn start_run(&mut self)
        ensures
            final(self).same_config(&*old(self)),
            final(self).wf(),
            final(self).infos@.len() == 0,
            final(self).errors@.len() == 0,
            final(self).seen().len() == 0,
            final(self).spec_busy() == 0,
            final(self).spec_phase() == StagePhase::Waiting,
            final(self).spec_all_replace() == old(self).spec_all_replace(),
    {
        self.infos = Vec::new();
        self.errors = Vec::new();
        self.replaced_paths = Vec::new();
        self.time_bsy = 0;
        self.control = StageControl::new();
        assert(self.seen() =~= Seq::<Seq<u8>>::empty());
    }

    /// Decides what the stage does with one message of its input channel,
    /// `None` standing for a closed channel.
    pub fn on_message<T>(&mut self, msg: Option<PipelineInfo<T>>) -> (r: StageStep<T>)
        requires
            old(self).spec_phase() != StagePhase::Stopped,
        ensures
            final(self).same_config(&*old(self)),
            final(self).spec_phase() == next_phase(old(self).spec_phase(), msg),
            match msg {
                None => r is Halt,
                Some(PipelineInfo::SeqBeg(x)) => if old(self).spec_phase() == StagePhase::Waiting {
                    r == StageStep::<T>::Start(x)
                } else {
                    r is Absorb
                },
                Some(PipelineInfo::SeqDat(x, p)) => r == StageStep::Process(x, p),
                Some(PipelineInfo::SeqEnd(x)) => r == StageStep::<T>::Finish(x),
                Some(m) => r == StageStep::<T>::Relay(relayed(m)->0),
            },
            final(self).infos == old(self).infos,
            final(self).errors == old(self).errors,
            final(self).seen() == old(self).seen(),
            final(self).wf() == old(self).wf(),
            final(self).spec_all_replace() == old(self).spec_all_replace(),
            final(self).spec_busy() == old(self).spec_busy(),
    {
        self.control.on_message(msg)
    }

    /// Ends the run: the stage's infos and errors tagged with `id`, its
    /// timing, and the end message, in that order. The diagnostics are
    /// cleared.
    pub fn close_run(&mut self, id: usize, seq: usize, elapsed: u64) -> (r: Vec<PipelineInfo<()>>)
        ensures
            r@ == closing(id, seq, old(self).infos@, old(self).errors@, old(self).spec_busy(), elapsed),
            final(self).same_config(&*old(self)),
            final(self).spec_all_replace() == old(self).spec_all_replace(),
            final(self).infos@.len() == 0,
            final(self).errors@.len() == 0,
            final(self).seen() == old(self).seen(),
            final(self).wf() == old(self).wf(),
            final(self).spec_busy() == old(self).spec_busy(),
            final(self).spec_phase() == old(self).spec_phase(),
    {
        let r = closing_messages(id, seq, &self.infos, &self.errors, self.time_bsy, elapsed);
        self.infos = Vec::new();
        self.errors = Vec::new();
        r
    }
}

} // verus!
