//! The execution adapter: what a test body reported, and the outcome that the
//! host framework is told.

use vstd::prelude::*;
use vstd::string::*;
use crate::descriptor::TestDescriptor;
use crate::name::is_disabled_name;

verus! {

/// How a call of a test body ended.
#[derive(Debug, PartialEq, Eq)]
pub enum Completion {
    /// The body declares no outcome and returned.
    Returned,
    /// The body declares an outcome and returned success.
    ReturnedOk,
    /// The body declares an outcome and returned a failure with this text.
    ReturnedErr(String),
    /// The body terminated abruptly, with this text if its payload had one.
    Aborted(Option<String>),
}

/// The mathematical value of a `Completion`.
pub enum CompletionModel {
    Returned,
    ReturnedOk,
    ReturnedErr(Seq<char>),
    Aborted(Option<Seq<char>>),
}

impl View for Completion {
    type V = CompletionModel;

    open spec fn view(&self) -> CompletionModel {
        match self {
            Completion::Returned => CompletionModel::Returned,
            Completion::ReturnedOk => CompletionModel::ReturnedOk,
            Completion::ReturnedErr(e) => CompletionModel::ReturnedErr(e@),
            Completion::Aborted(None) => CompletionModel::Aborted(None),
            Completion::Aborted(Some(m)) => CompletionModel::Aborted(Some(m@)),
        }
    }
}

/// The single signal that the host framework understands.
#[derive(Debug, PartialEq, Eq)]
pub enum Outcome {
    Passed,
    Failed(String),
}

/// The mathematical value of an `Outcome`.
pub enum OutcomeModel {
    Passed,
    Failed(Seq<char>),
}

impl View for Outcome {
    type V = OutcomeModel;

    open spec fn view(&self) -> OutcomeModel {
        match self {
            Outcome::Passed => OutcomeModel::Passed,
            Outcome::Failed(m) => OutcomeModel::Failed(m@),
        }
    }
}

/// The record of one execution: the diagnostics of the non-fatal check
/// failures raised while the body ran, oldest first.
#[derive(Debug)]
pub struct ExecutionContext {
    failures: Vec<String>,
}

impl View for ExecutionContext {
    type V = Seq<Seq<char>>;

    closed spec fn view(&self) -> Seq<Seq<char>> {
        self.failures.deep_view()
    }
}

impl ExecutionContext {
    /// A context in which no check has failed.
    pub fn new() -> (r: Self)
        ensures
            r@ == Seq::<Seq<char>>::empty(),
    {
        let r = ExecutionContext { failures: Vec::new() };
        assert(r.failures.deep_view() =~= Seq::<Seq<char>>::empty());
        r
    }

    /// Forgets every recorded failure.
    pub fn reset(&mut self)
        ensures
            final(self)@ == Seq::<Seq<char>>::empty(),
    {
        self.failures.clear();
        assert(self.failures.deep_view() =~= Seq::<Seq<char>>::empty());
    }

    /// Marks the execution as failed and keeps `diagnostic`; the execution
    /// goes on.
    pub fn record_failure(&mut self, diagnostic: &str)
        ensures
            final(self)@ == old(self)@.push(diagnostic@),
    {
        self.failures.push(String::from_str(diagnostic));
        assert(self.failures.deep_view() =~= old(self).failures.deep_view().push(diagnostic@));
    }

    /// Whether any check has failed in this execution.
    pub fn has_failed(&self) -> (r: bool)
        ensures
            r == (self@.len() > 0),
    {
        self.failures.len() > 0
    }

    /// The number of failures recorded.
    pub fn failure_count(&self) -> (r: usize)
        ensures
            r == self@.len(),
    {
        self.failures.len()
    }
}

/// What a body hands back: how it ended, and the context it ran in.
#[derive(Debug)]
pub struct BodyReport {
    pub completion: Completion,
    pub context: ExecutionContext,
}

/// What precedes the text of a returned failure in a diagnostic.
pub open spec fn error_prefix() -> Seq<char> {
    "Test returned error: "@
}

/// The diagnostic of an abrupt termination that carried no text.
pub open spec fn abort_notice() -> Seq<char> {
    "Test terminated abruptly"@
}

/// What stands between the notice and the text of an abrupt termination.
pub open spec fn abort_separator() -> Seq<char> {
    ": "@
}

/// What stands between two diagnostics of one outcome.
pub open spec fn line_break() -> Seq<char> {
    "\n"@
}

/// The diagnostic that the way a body ended adds by itself, if any.
pub open spec fn terminal_message(completion: CompletionModel) -> Option<Seq<char>> {
    match completion {
        CompletionModel::Returned => None,
        CompletionModel::ReturnedOk => None,
        CompletionModel::ReturnedErr(e) => Some(error_prefix() + e),
        CompletionModel::Aborted(None) => Some(abort_notice()),
        CompletionModel::Aborted(Some(m)) => Some(abort_notice() + abort_separator() + m),
    }
}

/// The diagnostics of one execution, in order: the check failures, then what
/// the ending adds.
pub open spec fn diagnostics(
    completion: CompletionModel,
    failures: Seq<Seq<char>>,
) -> Seq<Seq<char>> {
    match terminal_message(completion) {
        None => failures,
        Some(m) => failures.push(m),
    }
}

/// The lines, in order, with a line break between each two.
pub open spec fn join_lines(lines: Seq<Seq<char>>) -> Seq<char>
    decreases lines.len(),
{
    if lines.len() == 0 {
        Seq::empty()
    } else if lines.len() == 1 {
        lines[0]
    } else {
        join_lines(lines.drop_last()) + line_break() + lines.last()
    }
}

/// The outcome of an execution: passed when there is no diagnostic at all,
/// failed with all of them otherwise.
pub open spec fn outcome_of(completion: CompletionModel, failures: Seq<Seq<char>>) -> OutcomeModel {
    let all = diagnostics(completion, failures);
    if all.len() == 0 {
        OutcomeModel::Passed
    } else {
        OutcomeModel::Failed(join_lines(all))
    }
}

/// `needle` occurs in `text` as a contiguous run.
pub open spec fn contains_text(text: Seq<char>, needle: Seq<char>) -> bool {
    exists|i: int| occurs_at(text, needle, i)
}

/// `needle` stands in `text` from position `i` on.
pub open spec fn occurs_at(text: Seq<char>, needle: Seq<char>, i: int) -> bool {
    0 <= i && i + needle.len() <= text.len() && text.subrange(i, i + needle.len()) == needle
}

/// Joining one more line: alone it stands as it is, after others it follows a
/// line break.
pub proof fn lemma_join_push(lines: Seq<Seq<char>>, line: Seq<char>)
    ensures
        join_lines(lines.push(line)) == if lines.len() == 0 {
            line
        } else {
            join_lines(lines) + line_break() + line
        },
{
    assert(lines.push(line).drop_last() =~= lines);
}

/// The diagnostic that the way the body ended adds by itself, if any.
fn describe_ending(completion: &Completion) -> (r: Option<String>)
    ensures
        match r {
            Some(m) => terminal_message(completion@) == Some(m@),
            None => terminal_message(completion@).is_none(),
        },
{
    match completion {
        Completion::Returned => None,
        Completion::ReturnedOk => None,
        Completion::ReturnedErr(e) => {
            let mut m = String::from_str("Test returned error: ");
            m.append(e.as_str());
            Some(m)
        },
        Completion::Aborted(None) => Some(String::from_str("Test terminated abruptly")),
        Completion::Aborted(Some(text)) => {
            let mut m = String::from_str("Test terminated abruptly");
            m.append(": ");
            m.append(text.as_str());
            Some(m)
        },
    }
}

/// The recorded diagnostics, joined.
fn join_failures(context: &ExecutionContext) -> (r: String)
    ensures
        r@ == join_lines(context@),
{
    let mut message = String::new();
    let mut i: usize = 0;
    while i < context.failures.len()
        invariant
            i <= context.failures.len(),
            message@ == join_lines(context@.take(i as int)),
        decreases context.failures.len() - i,
    {
        proof {
            lemma_join_push(context@.take(i as int), context@[i as int]);
            assert(context@.take(i as int).push(context@[i as int]) =~= context@.take(i + 1));
        }
        if i > 0 {
            message.append("\n");
        }
        message.append(context.failures[i].as_str());
        i += 1;
    }
    assert(context@.take(i as int) =~= context@);
    message
}

/// Translates what a body reported into the outcome for the host framework:
/// passed when the body returned, without a failure value, and no check
/// failed; failed otherwise, with the diagnostics of the failed checks
/// followed by that of a returned failure or an abrupt termination.
pub fn conclude(report: &BodyReport) -> (outcome: Outcome)
    ensures
        outcome@ == outcome_of(report.completion@, report.context@),
{
    let mut message = join_failures(&report.context);
    match describe_ending(&report.completion) {
        None => {
            if report.context.has_failed() {
                Outcome::Failed(message)
            } else {
                Outcome::Passed
            }
        },
        Some(ending) => {
            proof {
                lemma_join_push(report.context@, ending@);
            }
            if report.context.has_failed() {
                message.append("\n");
            }
            message.append(ending.as_str());
            Outcome::Failed(message)
        },
    }
}

/// Runs an enabled test: calls its body once, in a context in which no check
/// has failed yet, and translates what the body reports.
pub fn run<B>(descriptor: &TestDescriptor<B>) -> (outcome: Outcome) where
    B: Fn(ExecutionContext) -> BodyReport,
    requires
        !is_disabled_name(descriptor@.test),
        forall|context: ExecutionContext|
            context@.len() == 0 ==> call_requires(descriptor.callable(), (context,)),
    ensures
        exists|context: ExecutionContext, report: BodyReport|
            context@.len() == 0 && call_ensures(descriptor.callable(), (context,), report)
                && outcome@ == outcome_of(report.completion@, report.context@),
{
    let context = ExecutionContext::new();
    let body = descriptor.body();
    let report = body(context);
    conclude(&report)
}

/// Runs the test unless it is disabled: a disabled test is never run and
/// yields no outcome, an enabled one yields exactly one.
pub fn dispatch<B>(descriptor: &TestDescriptor<B>) -> (outcome: Option<Outcome>) where
    B: Fn(ExecutionContext) -> BodyReport,
    requires
        forall|context: ExecutionContext|
            context@.len() == 0 ==> call_requires(descriptor.callable(), (context,)),
    ensures
        outcome.is_none() <==> is_disabled_name(descriptor@.test),
        outcome.is_some() ==> exists|context: ExecutionContext, report: BodyReport|
            context@.len() == 0 && call_ensures(descriptor.callable(), (context,), report)
                && outcome.unwrap()@ == outcome_of(report.completion@, report.context@),
{
    if descriptor.is_disabled() {
        None
    } else {
        Some(run(descriptor))
    }
}

/// A run inside a run inside a text is a run inside the text.
pub proof fn lemma_contains_transitive(text: Seq<char>, middle: Seq<char>, needle: Seq<char>)
    requires
        contains_text(text, middle),
        contains_text(middle, needle),
    ensures
        contains_text(text, needle),
{
    let i = choose|i: int| occurs_at(text, middle, i);
    let j = choose|j: int| occurs_at(middle, needle, j);
    assert(text.subrange(i + j, i + j + needle.len()) =~= middle.subrange(j, j + needle.len()));
    assert(occurs_at(text, needle, i + j));
}

/// Every joined line occurs in the joined text.
pub proof fn lemma_join_contains_each(lines: Seq<Seq<char>>, k: int)
    requires
        0 <= k < lines.len(),
    ensures
        contains_text(join_lines(lines), lines[k]),
    decreases lines.len(),
{
    let joined = join_lines(lines);
    let line = lines[k];
    if lines.len() == 1 {
        assert(joined.subrange(0, line.len() as int) =~= line);
        assert(occurs_at(joined, line, 0));
    } else {
        let front = join_lines(lines.drop_last());
        if k == lines.len() - 1 {
            let at: int = (front.len() + line_break().len()) as int;
            assert(joined.subrange(at, at + line.len()) =~= line);
            assert(occurs_at(joined, line, at));
        } else {
            lemma_join_contains_each(lines.drop_last(), k);
            let i = choose|i: int| occurs_at(front, line, i);
            assert(joined.subrange(i, i + line.len()) =~= front.subrange(i, i + line.len()));
            assert(occurs_at(joined, line, i));
        }
    }
}

/// An execution passes exactly when its body returned, without a failure
/// value, and no check failed in it.
pub proof fn lemma_passes_exactly_when_clean(completion: CompletionModel, failures: Seq<Seq<char>>)
    ensures
        outcome_of(completion, failures) == OutcomeModel::Passed <==> (failures.len() == 0 && (
        completion == CompletionModel::Returned || completion == CompletionModel::ReturnedOk)),
{
}

/// A body without a declared outcome that returns, no check having failed,
/// passes.
pub proof fn lemma_plain_return_passes()
    ensures
        outcome_of(CompletionModel::Returned, Seq::empty()) == OutcomeModel::Passed,
{
}

/// A body that returns success, no check having failed, passes.
pub proof fn lemma_returned_success_passes()
    ensures
        outcome_of(CompletionModel::ReturnedOk, Seq::empty()) == OutcomeModel::Passed,
{
}

/// The first of two texts put together occurs in the whole.
pub proof fn lemma_front_occurs(front: Seq<char>, back: Seq<char>)
    ensures
        contains_text(front + back, front),
{
    let whole = front + back;
    assert(whole.subrange(0, front.len() as int) =~= front);
    assert(occurs_at(whole, front, 0));
}

/// The second of two texts put together occurs in the whole.
pub proof fn lemma_back_occurs(front: Seq<char>, back: Seq<char>)
    ensures
        contains_text(front + back, back),
{
    let whole = front + back;
    let at: int = front.len() as int;
    assert(whole.subrange(at, at + back.len()) =~= back);
    assert(occurs_at(whole, back, at));
}

/// Where the ending of a body adds a diagnostic, the execution fails and the
/// diagnostic of the outcome holds that of the ending.
pub proof fn lemma_ending_in_diagnostic(completion: CompletionModel, failures: Seq<Seq<char>>)
    requires
        terminal_message(completion) is Some,
    ensures
        outcome_of(completion, failures) is Failed,
        contains_text(
            outcome_of(completion, failures)->Failed_0,
            terminal_message(completion)->Some_0,
        ),
{
    let line = terminal_message(completion)->Some_0;
    let all = failures.push(line);
    assert(diagnostics(completion, failures) == all);
    lemma_join_contains_each(all, failures.len() as int);
}

/// A body that returns a failure fails, whatever the checks did, and the
/// diagnostic holds the text of the failure behind its prefix.
pub proof fn lemma_returned_failure_fails(payload: Seq<char>, failures: Seq<Seq<char>>)
    ensures
        outcome_of(CompletionModel::ReturnedErr(payload), failures) is Failed,
        contains_text(
            outcome_of(CompletionModel::ReturnedErr(payload), failures)->Failed_0,
            error_prefix() + payload,
        ),
        contains_text(
            outcome_of(CompletionModel::ReturnedErr(payload), failures)->Failed_0,
            payload,
        ),
{
    let completion = CompletionModel::ReturnedErr(payload);
    let line = error_prefix() + payload;
    assert(terminal_message(completion) == Some(line));
    lemma_ending_in_diagnostic(completion, failures);
    lemma_back_occurs(error_prefix(), payload);
    lemma_contains_transitive(outcome_of(completion, failures)->Failed_0, line, payload);
}

/// A body that terminates abruptly fails, whatever the checks did; the
/// diagnostic says so and keeps the text that the termination carried.
pub proof fn lemma_abrupt_termination_fails(payload: Option<Seq<char>>, failures: Seq<Seq<char>>)
    ensures
        outcome_of(CompletionModel::Aborted(payload), failures) is Failed,
        contains_text(
            outcome_of(CompletionModel::Aborted(payload), failures)->Failed_0,
            abort_notice(),
        ),
        payload is Some ==> contains_text(
            outcome_of(CompletionModel::Aborted(payload), failures)->Failed_0,
            payload->Some_0,
        ),
{
    let completion = CompletionModel::Aborted(payload);
    let line = terminal_message(completion)->Some_0;
    let message = outcome_of(completion, failures)->Failed_0;
    lemma_ending_in_diagnostic(completion, failures);
    match payload {
        None => {
            assert(line == abort_notice());
        },
        Some(text) => {
            let head = abort_notice() + abort_separator();
            assert(line == head + text);
            lemma_back_occurs(head, text);
            lemma_contains_transitive(message, line, text);
            lemma_front_occurs(head, text);
            lemma_front_occurs(abort_notice(), abort_separator());
            lemma_contains_transitive(line, head, abort_notice());
            lemma_contains_transitive(message, line, abort_notice());
        },
    }
}

/// An execution in which a check failed fails, however its body ended, and
/// the diagnostic holds what each failed check recorded.
pub proof fn lemma_check_failure_fails(
    completion: CompletionModel,
    failures: Seq<Seq<char>>,
    k: int,
)
    requires
        0 <= k < failures.len(),
    ensures
        outcome_of(completion, failures) is Failed,
        contains_text(outcome_of(completion, failures)->Failed_0, failures[k]),
{
    lemma_join_contains_each(diagnostics(completion, failures), k);
}

} // verus!
