//! The run controller: the decisions of a run over the declared sources.
//!
//! The controller opens and reads nothing itself. Its caller performs each
//! step that [`RunState::next_step`] asks for and reports what happened; the
//! controller keeps the total and the failures, and says what comes next.

use crate::counts::{CountOptions, CountsView, InputCounts};
use crate::format::{format_counts, formatted_line, label_view};
use crate::scanner::{count_input, measurable, scan, TokenizerError};
use crate::text::decoded_text;
use crate::tokenizer::model_encoding;
use vstd::prelude::*;

verus! {

/// Where a source failed: when it was opened, or while it was read.
#[derive(Copy, Clone, Debug, PartialEq, Eq, Structural)]
pub enum Stage {
    Opening,
    Reading,
}

/// Why a source failed, as far as the controller tells causes apart.
#[derive(Copy, Clone, Debug, PartialEq, Eq, Structural)]
pub enum Cause {
    NotFound,
    PermissionDenied,
    Other,
}

/// The diagnostic that a failure is reported with.
#[derive(Copy, Clone, Debug, PartialEq, Eq, Structural)]
pub enum Diagnostic {
    /// The declared source does not exist.
    NotFound,
    /// The source exists and may not be read.
    PermissionDenied,
    /// Any other failure to open a source.
    OpeningFile,
    /// A failure while a file was read.
    ReadingFile,
    /// A failure to read standard input.
    ReadingStdin,
    /// The output refused a line.
    WritingOutput,
}

/// What the caller does next.
#[derive(Copy, Clone, Debug, PartialEq, Eq, Structural)]
pub enum Step {
    /// Measure standard input, the only source of a run that declares none.
    ReadStdin,
    /// Measure the declared source with this index.
    ReadFile(usize),
    /// Write the line of the total.
    EmitTotal,
    /// Stop; `failed` is the outcome of the run.
    Finish { failed: bool },
}

/// The diagnostic of a failed source. Standard input has one diagnostic for
/// every failure; a file that cannot be opened is told apart by cause; a
/// file that fails while it is read has one diagnostic for every cause.
pub open spec fn diagnostic_for(stdin: bool, stage: Stage, cause: Cause) -> Diagnostic {
    if stdin {
        Diagnostic::ReadingStdin
    } else {
        match stage {
            Stage::Reading => Diagnostic::ReadingFile,
            Stage::Opening => match cause {
                Cause::NotFound => Diagnostic::NotFound,
                Cause::PermissionDenied => Diagnostic::PermissionDenied,
                Cause::Other => Diagnostic::OpeningFile,
            },
        }
    }
}

/// The state of a run.
#[derive(Copy, Clone, Debug, PartialEq, Eq, Structural)]
pub struct RunState {
    /// The number of declared sources; zero means standard input.
    pub declared: usize,
    /// The sources dealt with so far, measured or failed.
    pub attempted: usize,
    /// The sources that failed so far.
    pub failures: usize,
    /// The sum of the counts of the sources measured so far.
    pub total: InputCounts,
    /// The line of the total has been written.
    pub total_emitted: bool,
    /// The output refused a line: the run is over.
    pub output_failed: bool,
}

impl RunState {
    /// The number of sources of the run: the declared ones, or standard
    /// input alone.
    pub open spec fn source_count(&self) -> nat {
        if self.declared == 0 {
            1
        } else {
            self.declared as nat
        }
    }

    /// No more sources are counted than the run has, and no more failures
    /// than sources dealt with.
    pub open spec fn wf(&self) -> bool {
        &&& self.failures <= self.attempted
        &&& self.attempted <= self.source_count()
    }

    /// A source is due: the output works and not every source is dealt with.
    pub open spec fn source_due(&self) -> bool {
        !self.output_failed && self.attempted < self.source_count()
    }

    /// The line of the total is due: every source is dealt with, more than
    /// one was declared, and the line is not written yet.
    pub open spec fn total_due(&self) -> bool {
        &&& !self.output_failed
        &&& self.attempted == self.source_count()
        &&& self.declared > 1
        &&& !self.total_emitted
    }

    /// The run failed: a source failed, or the output did.
    pub open spec fn failed(&self) -> bool {
        self.failures > 0 || self.output_failed
    }

    /// The next step: the sources in their declared order, then the total
    /// where it is due, then the end. A failed output ends the run at once.
    pub open spec fn step(&self) -> Step {
        if self.output_failed {
            Step::Finish { failed: true }
        } else if self.attempted < self.source_count() {
            if self.declared == 0 {
                Step::ReadStdin
            } else {
                Step::ReadFile(self.attempted)
            }
        } else if self.declared > 1 && !self.total_emitted {
            Step::EmitTotal
        } else {
            Step::Finish { failed: self.failures > 0 }
        }
    }

    /// The state before the first source.
    pub open spec fn initial(declared: usize) -> RunState {
        RunState {
            declared,
            attempted: 0,
            failures: 0,
            total: InputCounts { lines: 0, words: 0, chars: 0, tokens: 0 },
            total_emitted: false,
            output_failed: false,
        }
    }

    /// The state after the due source was measured: one more source dealt
    /// with, its counts in the total.
    pub open spec fn after_success(self, counts: InputCounts) -> RunState
        recommends
            self.total@.combine(counts@).fits(),
    {
        RunState {
            attempted: (self.attempted + 1) as usize,
            total: InputCounts {
                lines: (self.total.lines + counts.lines) as usize,
                words: (self.total.words + counts.words) as usize,
                chars: (self.total.chars + counts.chars) as usize,
                tokens: (self.total.tokens + counts.tokens) as usize,
            },
            ..self
        }
    }

    /// The state after the due source failed: one more source dealt with,
    /// one more failure, the total as it was.
    pub open spec fn after_failure(self) -> RunState {
        RunState {
            attempted: (self.attempted + 1) as usize,
            failures: (self.failures + 1) as usize,
            ..self
        }
    }

    /// The state before the first source.
    pub fn new(declared: usize) -> (state: RunState)
        ensures
            state.wf(),
            state == RunState::initial(declared),
            state.source_due(),
    {
        RunState {
            declared,
            attempted: 0,
            failures: 0,
            total: InputCounts { lines: 0, words: 0, chars: 0, tokens: 0 },
            total_emitted: false,
            output_failed: false,
        }
    }

    /// Says what the caller does next.
    pub fn next_step(&self) -> (step: Step)
        requires
            self.wf(),
        ensures
            step == self.step(),
            (step is ReadStdin || step is ReadFile) <==> self.source_due(),
            step is EmitTotal <==> self.total_due(),
            step matches Step::Finish { failed } ==> failed == self.failed(),
            step matches Step::ReadFile(i) ==> i == self.attempted && i < self.declared,
    {
        let count: usize = if self.declared == 0 {
            1
        } else {
            self.declared
        };
        if self.output_failed {
            Step::Finish { failed: true }
        } else if self.attempted < count {
            if self.declared == 0 {
                Step::ReadStdin
            } else {
                Step::ReadFile(self.attempted)
            }
        } else if self.declared > 1 && !self.total_emitted {
            Step::EmitTotal
        } else {
            Step::Finish { failed: self.failures > 0 }
        }
    }

    /// Whether the counts of one more source fit into the total.
    pub fn can_take(&self, counts: &InputCounts) -> (ok: bool)
        ensures
            ok == self.total@.combine(counts@).fits(),
    {
        self.total.can_add(counts)
    }

    /// The due source was measured and its line written: its counts join
    /// the total.
    pub fn source_succeeded(&mut self, counts: InputCounts)
        requires
            old(self).wf(),
            old(self).source_due(),
            old(self).total@.combine(counts@).fits(),
        ensures
            final(self).wf(),
            *final(self) == old(self).after_success(counts),
            final(self).total@ == old(self).total@.combine(counts@),
    {
        self.total.add_assign(counts);
        self.attempted = self.attempted + 1;
    }

    /// The due source could not be opened or read: it is counted as failed,
    /// the total is left alone, and the run goes on. Returns the diagnostic
    /// to report.
    pub fn source_failed(&mut self, stage: Stage, cause: Cause) -> (diagnostic: Diagnostic)
        requires
            old(self).wf(),
            old(self).source_due(),
        ensures
            final(self).wf(),
            diagnostic == diagnostic_for(old(self).declared == 0, stage, cause),
            *final(self) == old(self).after_failure(),
            final(self).failed(),
    {
        self.attempted = self.attempted + 1;
        self.failures = self.failures + 1;
        if self.declared == 0 {
            Diagnostic::ReadingStdin
        } else {
            match stage {
                Stage::Reading => Diagnostic::ReadingFile,
                Stage::Opening => match cause {
                    Cause::NotFound => Diagnostic::NotFound,
                    Cause::PermissionDenied => Diagnostic::PermissionDenied,
                    Cause::Other => Diagnostic::OpeningFile,
                },
            }
        }
    }

    /// The output refused a line: the run is over and has failed.
    pub fn output_refused(&mut self) -> (diagnostic: Diagnostic)
        requires
            old(self).wf(),
        ensures
            final(self).wf(),
            diagnostic == Diagnostic::WritingOutput,
            *final(self) == (RunState { output_failed: true, ..*old(self) }),
            final(self).step() == (Step::Finish { failed: true }),
    {
        self.output_failed = true;
        Diagnostic::WritingOutput
    }

    /// Renders the line of the total under `label` and marks it written.
    pub fn total_line(&mut self, options: &CountOptions, label: &str) -> (line: String)
        requires
            old(self).wf(),
            old(self).total_due(),
        ensures
            final(self).wf(),
            line@ == formatted_line(old(self).total@, *options, Some(label@)),
            *final(self) == (RunState { total_emitted: true, ..*old(self) }),
            final(self).step() == (Step::Finish { failed: old(self).failures > 0 }),
    {
        self.total_emitted = true;
        format_counts(&self.total, options, Some(label))
    }
}

/// Measures the bytes of one source and renders its line, with the
/// source's name as the label where it has one.
pub fn process_input(buffer: &[u8], options: &CountOptions, filename: Option<&str>) -> (r: Result<
    (InputCounts, String),
    TokenizerError,
>)
    ensures
        r is Ok <==> measurable(buffer@, *options),
        !options.show_tokens ==> r is Ok,
        r matches Ok(measured) ==> {
            &&& measured.0@ == scan(buffer@, *options)
            &&& measured.1@ == formatted_line(measured.0@, *options, label_view(filename))
        },
        r matches Err(e) ==> {
            &&& e.model == options.tokenizer_model
            &&& model_encoding(options.tokenizer_model, decoded_text(buffer@)) is Err
            &&& model_encoding(options.tokenizer_model, decoded_text(buffer@))->Err_0 == e.failure
        },
        r matches Ok(measured) ==> (buffer@.len() == 0 ==> measured.0@ == CountsView::zero()),
{
    match count_input(buffer, options) {
        Ok(counts) => {
            let line = format_counts(&counts, options, filename);
            Ok((counts, line))
        },
        Err(e) => Err(e),
    }
}

/// The sum of the counts of the sources that were measured; a source that
/// failed (`None`) adds nothing.
pub open spec fn measured_total(outcomes: Seq<Option<InputCounts>>) -> CountsView
    decreases outcomes.len(),
{
    if outcomes.len() == 0 {
        CountsView::zero()
    } else {
        let before = measured_total(outcomes.drop_last());
        match outcomes.last() {
            Some(counts) => before.combine(counts@),
            None => before,
        }
    }
}

/// The number of sources that failed.
pub open spec fn failure_count(outcomes: Seq<Option<InputCounts>>) -> nat
    decreases outcomes.len(),
{
    if outcomes.len() == 0 {
        0
    } else {
        failure_count(outcomes.drop_last()) + if outcomes.last() is None {
            1nat
        } else {
            0nat
        }
    }
}

/// The state that a run over `declared` sources is in after its first
/// sources turned out as `outcomes` say, in their order.
pub open spec fn state_after(declared: usize, outcomes: Seq<Option<InputCounts>>) -> RunState
    decreases outcomes.len(),
{
    if outcomes.len() == 0 {
        RunState::initial(declared)
    } else {
        let before = state_after(declared, outcomes.drop_last());
        match outcomes.last() {
            Some(counts) => before.after_success(counts),
            None => before.after_failure(),
        }
    }
}

/// Whatever the sources turn out to be: the state holds how many sources
/// were dealt with and how many of them failed, the total line is not
/// written and the output has not failed.
pub proof fn lemma_state_after(declared: usize, outcomes: Seq<Option<InputCounts>>)
    requires
        outcomes.len() <= RunState::initial(declared).source_count(),
    ensures
        state_after(declared, outcomes).wf(),
        state_after(declared, outcomes).declared == declared,
        state_after(declared, outcomes).attempted == outcomes.len(),
        state_after(declared, outcomes).failures == failure_count(outcomes),
        !state_after(declared, outcomes).total_emitted,
        !state_after(declared, outcomes).output_failed,
        failure_count(outcomes) <= outcomes.len(),
    decreases outcomes.len(),
{
    if outcomes.len() > 0 {
        lemma_state_after(declared, outcomes.drop_last());
    }
}

/// So long as the sum fits machine words, the total is the sum of the
/// counts of the sources that were measured: a source that failed adds
/// nothing.
pub proof fn lemma_total_after(declared: usize, outcomes: Seq<Option<InputCounts>>)
    requires
        measured_total(outcomes).fits(),
    ensures
        state_after(declared, outcomes).total@ == measured_total(outcomes),
    decreases outcomes.len(),
{
    if outcomes.len() > 0 {
        lemma_total_after(declared, outcomes.drop_last());
    }
}

/// A run fails exactly where one of its sources failed.
pub proof fn lemma_failures(outcomes: Seq<Option<InputCounts>>)
    ensures
        failure_count(outcomes) > 0 <==> exists|i: int|
            0 <= i < outcomes.len() && outcomes[i] is None,
    decreases outcomes.len(),
{
    if outcomes.len() > 0 {
        let shorter = outcomes.drop_last();
        lemma_failures(shorter);
        if failure_count(outcomes) > 0 {
            if outcomes.last() is None {
                assert(outcomes[outcomes.len() - 1] is None);
            } else {
                let i = choose|i: int| 0 <= i < shorter.len() && shorter[i] is None;
                assert(outcomes[i] is None);
            }
        }
        if exists|i: int| 0 <= i < outcomes.len() && outcomes[i] is None {
            let i = choose|i: int| 0 <= i < outcomes.len() && outcomes[i] is None;
            if i < shorter.len() {
                assert(shorter[i] is None);
            }
        }
    }
}

/// When every source is dealt with: the total is due exactly where more
/// than one source was declared, however many of them failed; after it, or
/// at once where it is not due, the run ends, failed exactly where a
/// source failed.
pub proof fn lemma_end_of_run(declared: usize, outcomes: Seq<Option<InputCounts>>)
    requires
        outcomes.len() == RunState::initial(declared).source_count(),
    ensures
        !state_after(declared, outcomes).source_due(),
        state_after(declared, outcomes).total_due() <==> declared > 1,
        declared > 1 ==> state_after(declared, outcomes).step() == Step::EmitTotal,
        declared <= 1 ==> state_after(declared, outcomes).step() == (Step::Finish {
            failed: failure_count(outcomes) > 0,
        }),
        (RunState { total_emitted: true, ..state_after(declared, outcomes) }).step() == (
        Step::Finish { failed: failure_count(outcomes) > 0 }),
{
    lemma_state_after(declared, outcomes);
}

/// Before every source is dealt with, the next step is the next source in
/// the declared order: a failure does not end the run.
pub proof fn lemma_run_goes_on(declared: usize, outcomes: Seq<Option<InputCounts>>)
    requires
        outcomes.len() < RunState::initial(declared).source_count(),
    ensures
        state_after(declared, outcomes).source_due(),
        state_after(declared, outcomes).step() == if declared == 0 {
            Step::ReadStdin
        } else {
            Step::ReadFile(outcomes.len() as usize)
        },
{
    lemma_state_after(declared, outcomes);
}

/// The sum of the counts of the sources that could be read, each measured
/// under `options`; a source that could not be read (`None`) adds nothing.
pub open spec fn scanned_total(sources: Seq<Option<Seq<u8>>>, options: CountOptions) -> CountsView
    decreases sources.len(),
{
    if sources.len() == 0 {
        CountsView::zero()
    } else {
        let before = scanned_total(sources.drop_last(), options);
        match sources.last() {
            Some(bytes) => before.combine(scan(bytes, options)),
            None => before,
        }
    }
}

/// The outcomes are those of the sources: a source that could be read was
/// measured and has the counts of its bytes, one that could not has none.
pub open spec fn outcomes_of(
    outcomes: Seq<Option<InputCounts>>,
    sources: Seq<Option<Seq<u8>>>,
    options: CountOptions,
) -> bool {
    &&& outcomes.len() == sources.len()
    &&& forall|i: int|
        0 <= i < sources.len() ==> match #[trigger] sources[i] {
            Some(bytes) => outcomes[i] is Some && outcomes[i]->Some_0@ == scan(bytes, options),
            None => outcomes[i] is None,
        }
}

/// The measured total is the sum over the sources that could be read, and
/// the failures are the sources that could not.
pub proof fn lemma_measured_is_scanned(
    outcomes: Seq<Option<InputCounts>>,
    sources: Seq<Option<Seq<u8>>>,
    options: CountOptions,
)
    requires
        outcomes_of(outcomes, sources, options),
    ensures
        measured_total(outcomes) == scanned_total(sources, options),
        failure_count(outcomes) > 0 <==> exists|i: int|
            0 <= i < sources.len() && sources[i] is None,
        (forall|i: int| 0 <= i < sources.len() ==> sources[i] is None) ==> measured_total(
            outcomes,
        ) == CountsView::zero(),
    decreases outcomes.len(),
{
    if outcomes.len() > 0 {
        let n = outcomes.len() - 1;
        let shorter = sources.drop_last();
        assert(outcomes_of(outcomes.drop_last(), shorter, options)) by {
            assert forall|i: int| 0 <= i < shorter.len() implies match #[trigger] shorter[i] {
                Some(bytes) => outcomes.drop_last()[i] is Some && outcomes.drop_last()[i]->Some_0@
                    == scan(bytes, options),
                None => outcomes.drop_last()[i] is None,
            } by {
                assert(shorter[i] == sources[i]);
            }
        }
        lemma_measured_is_scanned(outcomes.drop_last(), shorter, options);
        assert(sources[n] == sources.last());
        if exists|i: int| 0 <= i < sources.len() && sources[i] is None {
            let i = choose|i: int| 0 <= i < sources.len() && sources[i] is None;
            if i < n {
                assert(shorter[i] is None);
            }
        }
        if failure_count(outcomes) > 0 && !(sources[n] is None) {
            let i = choose|i: int| 0 <= i < shorter.len() && shorter[i] is None;
            assert(sources[i] is None);
        }
        if forall|i: int| 0 <= i < sources.len() ==> sources[i] is None {
            assert forall|i: int| 0 <= i < shorter.len() implies shorter[i] is None by {
                assert(shorter[i] == sources[i]);
            }
        }
    }
}

/// A run over more than one source, every one of them dealt with: the next
/// step is the total line, and it is the line of the sum over the sources
/// that could be read, measured under `options`. The sources that failed
/// add nothing, and the sum is zero where all of them failed. The run has
/// failed exactly where a source could not be read. The premise that the
/// sum fits machine words is the one under which the run can get this far.
pub proof fn lemma_total_line_of_run(
    declared: usize,
    outcomes: Seq<Option<InputCounts>>,
    sources: Seq<Option<Seq<u8>>>,
    options: CountOptions,
    label: Seq<char>,
)
    requires
        declared > 1,
        sources.len() == declared,
        outcomes_of(outcomes, sources, options),
        measured_total(outcomes).fits(),
    ensures
        state_after(declared, outcomes).step() == Step::EmitTotal,
        state_after(declared, outcomes).total@ == scanned_total(sources, options),
        formatted_line(state_after(declared, outcomes).total@, options, Some(label))
            == formatted_line(scanned_total(sources, options), options, Some(label)),
        (forall|i: int| 0 <= i < sources.len() ==> sources[i] is None) ==> state_after(
            declared,
            outcomes,
        ).total@ == CountsView::zero(),
        (RunState { total_emitted: true, ..state_after(declared, outcomes) }).step() == (
        Step::Finish { failed: exists|i: int| 0 <= i < sources.len() && sources[i] is None }),
{
    lemma_end_of_run(declared, outcomes);
    lemma_total_after(declared, outcomes);
    lemma_measured_is_scanned(outcomes, sources, options);
}

} // verus!
