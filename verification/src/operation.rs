//! One run of an operation, from the arguments to the report.
//!
//! An operation alternates between deciding and waiting for the host: it
//! has local files read, a request sent, images fetched and files written.
//! An [`Operation`] holds where a run stands. The host asks it for the
//! next [`Step`], performs it and hands the [`Outcome`] to
//! [`Operation::advance`], until the step is `Finish` or `Fail`.
//!
//! The save directory is taken once, when the run starts; a later change
//! of it does not reach a run that is under way.

use crate::classify::{
    probe_paths, InputResolver, ResolveStep, ResolveStepModel, ResolverModel,
};
use crate::error::{ToolError, ToolErrorView};
use crate::text::strings_view;
use crate::persist::{
    batch_stem, lemma_handle_wf, sources_of, PersistAction, PersistActionModel,
    PersistEvent, PersistEventModel, PersistModel, PersistSession,
};
use crate::tools::{
    base_name_of, edit_base_name, edit_header, edit_report, edit_request, generate_header,
    generate_report, generate_request, interpret_reply, interpreted, report_text, ChatRequest,
    ChatRequestView, EditImageArgs, GenerateImageArgs, TokenUsage,
};
use vstd::prelude::*;

verus! {

/// What the host is to do next.
#[derive(Clone, Debug, PartialEq, Eq)]
pub enum Step {
    /// Read the file at `path`.
    ReadFile { path: String },
    /// Post `request` to the endpoint.
    Send { request: ChatRequest },
    /// Fetch the bytes at `url`.
    Fetch { url: String },
    /// Write the bytes of [`Operation::payload`] to a new file at `path`,
    /// creating the directory where it is missing, never replacing a file.
    WriteFile { path: String },
    /// Hand `report` to the caller: the run is over.
    Finish { report: String },
    /// Hand `error` to the caller: the run is over.
    Fail { error: ToolError },
}

/// Mathematical value of a [`Step`].
pub enum StepModel {
    ReadFile { path: Seq<char> },
    Send { request: ChatRequestView },
    Fetch { url: Seq<char> },
    WriteFile { path: Seq<char> },
    Finish { report: Seq<char> },
    Fail { error: ToolErrorView },
}

impl View for Step {
    type V = StepModel;

    open spec fn view(&self) -> StepModel {
        match self {
            Step::ReadFile { path } => StepModel::ReadFile { path: path@ },
            Step::Send { request } => StepModel::Send { request: request@ },
            Step::Fetch { url } => StepModel::Fetch { url: url@ },
            Step::WriteFile { path } => StepModel::WriteFile { path: path@ },
            Step::Finish { report } => StepModel::Finish { report: report@ },
            Step::Fail { error } => StepModel::Fail { error: error@ },
        }
    }
}

/// What the host reports.
#[derive(Clone, Debug, PartialEq, Eq)]
pub enum Outcome {
    /// The file was read and holds these bytes.
    FileRead(Vec<u8>),
    /// The file could not be read.
    FileMissing,
    /// The endpoint answered.
    Replied { status: u16, body: String },
    /// The request could not be sent, or no answer came.
    SendFailed(String),
    /// What became of a fetch or of a write.
    Stored(PersistEvent),
}

/// Mathematical value of an [`Outcome`].
pub enum OutcomeModel {
    FileRead(Seq<u8>),
    FileMissing,
    Replied { status: u16, body: Seq<char> },
    SendFailed(Seq<char>),
    Stored(PersistEventModel),
}

impl View for Outcome {
    type V = OutcomeModel;

    open spec fn view(&self) -> OutcomeModel {
        match self {
            Outcome::FileRead(bytes) => OutcomeModel::FileRead(bytes@),
            Outcome::FileMissing => OutcomeModel::FileMissing,
            Outcome::Replied { status, body } => OutcomeModel::Replied {
                status: *status,
                body: body@,
            },
            Outcome::SendFailed(detail) => OutcomeModel::SendFailed(detail@),
            Outcome::Stored(event) => OutcomeModel::Stored(event@),
        }
    }
}

/// What a run is busy with.
pub enum PhaseModel {
    /// The file of the input behind the `urls` found so far is looked
    /// for; it is to be read at `path`.
    Resolving { urls: Seq<Seq<char>>, resolver: ResolverModel, path: Seq<char> },
    /// The request is with the endpoint.
    AwaitingReply { request: ChatRequestView },
    /// The `count` images of the reply are being stored.
    Storing { text: Seq<char>, count: nat, usage: Option<TokenUsage>, session: PersistModel },
    /// The run ended with a report.
    Finished { report: Seq<char> },
    /// The run ended with an error.
    Failed { error: ToolErrorView },
}

/// What a run was started with.
pub struct RunModel {
    pub model: Seq<char>,
    /// The save directory, as it was when the run started.
    pub save_dir: Seq<char>,
    /// What the host's clock showed when the run started.
    pub stamp: nat,
    pub is_edit: bool,
    /// The prompt of a generation, the instruction of an edit.
    pub prompt: Seq<char>,
    /// The images of an edit, as the caller named them.
    pub inputs: Seq<Seq<char>>,
}

/// Where a run stands.
pub struct OperationModel {
    pub run: RunModel,
    pub phase: PhaseModel,
}

/// The name that a generation stores its images under.
pub open spec fn generated_name() -> Seq<char> {
    "generated_image"@
}

impl RunModel {
    /// The search for the file of `input`, before anything was tried.
    pub open spec fn resolver_for(self, input: Seq<char>) -> ResolverModel {
        ResolverModel { input, paths: probe_paths(input, self.save_dir), position: 0 }
    }

    /// What an edit is busy with once `urls` stand for its first inputs.
    ///
    /// The inputs that follow are taken in order. One that is told by its
    /// prefix is passed on as it is; with the first that is not, the search
    /// for its file begins. When none is left, the request goes out.
    pub open spec fn resolve_rest(self, urls: Seq<Seq<char>>) -> PhaseModel
        decreases self.inputs.len() - urls.len(),
    {
        if urls.len() >= self.inputs.len() {
            PhaseModel::AwaitingReply { request: edit_request(self.model, self.prompt, urls) }
        } else {
            let input = self.inputs[urls.len() as int];
            let resolver = self.resolver_for(input);
            match resolver.step() {
                ResolveStepModel::Done(c) => self.resolve_rest(urls.push(c.payload)),
                ResolveStepModel::Read { path } => PhaseModel::Resolving { urls, resolver, path },
                ResolveStepModel::Unrecognized => self.resolve_rest(urls.push(input)),
            }
        }
    }

    /// The name that the images of the run are stored under, if it has
    /// one.
    pub open spec fn base_name(self) -> Option<Seq<char>> {
        if self.is_edit {
            edit_base_name(self.inputs)
        } else {
            Some(generated_name())
        }
    }

    /// The report of the run, given what the reply held and what became
    /// of its images.
    pub open spec fn report(
        self,
        text: Seq<char>,
        count: nat,
        usage: Option<TokenUsage>,
        session: PersistModel,
    ) -> Seq<char> {
        report_text(
            if self.is_edit {
                edit_header(self.model, self.prompt, self.inputs.len(), text)
            } else {
                generate_header(self.model, self.prompt, self.save_dir, text)
            },
            count,
            session.results,
            usage,
        )
    }

    /// What a run is busy with while `session` stores its images: the
    /// report is due as soon as every image has its record.
    pub open spec fn storing(
        self,
        text: Seq<char>,
        count: nat,
        usage: Option<TokenUsage>,
        session: PersistModel,
    ) -> PhaseModel {
        if session.finished() {
            PhaseModel::Finished { report: self.report(text, count, usage, session) }
        } else {
            PhaseModel::Storing { text, count, usage, session }
        }
    }

    /// What a run is busy with once the endpoint has answered.
    pub open spec fn replied(self, status: u16, body: Seq<char>) -> PhaseModel {
        match interpreted(status, body) {
            Err(error) => PhaseModel::Failed { error },
            Ok(reply) => self.storing(
                reply.text,
                reply.images.len(),
                reply.usage,
                PersistModel::initial(
                    sources_of(reply.images),
                    self.save_dir,
                    batch_stem(self.base_name(), self.is_edit, self.stamp),
                ).settle(),
            ),
        }
    }
}

impl OperationModel {
    /// The run of a generation, before anything is done.
    pub open spec fn generate(
        model: Seq<char>,
        save_dir: Seq<char>,
        stamp: nat,
        prompt: Seq<char>,
    ) -> OperationModel {
        OperationModel {
            run: RunModel {
                model,
                save_dir,
                stamp,
                is_edit: false,
                prompt,
                inputs: Seq::empty(),
            },
            phase: PhaseModel::AwaitingReply { request: generate_request(model, prompt) },
        }
    }

    /// The run of an edit, before anything is done. An edit without
    /// images fails on the spot.
    pub open spec fn edit(
        model: Seq<char>,
        save_dir: Seq<char>,
        stamp: nat,
        instruction: Seq<char>,
        images: Seq<Seq<char>>,
    ) -> OperationModel {
        let run = RunModel {
            model,
            save_dir,
            stamp,
            is_edit: true,
            prompt: instruction,
            inputs: images,
        };
        if images.len() == 0 {
            OperationModel { run, phase: PhaseModel::Failed { error: ToolErrorView::Usage } }
        } else {
            OperationModel { run, phase: run.resolve_rest(Seq::empty()) }
        }
    }

    /// What the host is to do next.
    pub open spec fn step(self) -> StepModel {
        match self.phase {
            PhaseModel::Resolving { urls, resolver, path } => StepModel::ReadFile { path },
            PhaseModel::AwaitingReply { request } => StepModel::Send { request },
            PhaseModel::Storing { text, count, usage, session } => match session.action() {
                PersistActionModel::Fetch { url } => StepModel::Fetch { url },
                PersistActionModel::Write { path } => StepModel::WriteFile { path },
                PersistActionModel::Done => StepModel::Finish {
                    report: self.run.report(text, count, usage, session),
                },
            },
            PhaseModel::Finished { report } => StepModel::Finish { report },
            PhaseModel::Failed { error } => StepModel::Fail { error },
        }
    }

    /// The bytes that a `WriteFile` step is about.
    pub open spec fn payload(self) -> Option<Seq<u8>> {
        match self.phase {
            PhaseModel::Storing { text, count, usage, session } => session.pending,
            _ => None,
        }
    }

    /// What the run is busy with after the host's report. A report that
    /// does not answer the step that was due changes nothing.
    ///
    /// An input whose file is found nowhere is passed on as the caller
    /// wrote it, for the endpoint to judge.
    pub open spec fn next_phase(self, outcome: OutcomeModel) -> PhaseModel {
        match (self.phase, outcome) {
            (PhaseModel::Resolving { urls, resolver, path }, OutcomeModel::FileMissing) => {
                let next = resolver.after_missing();
                match next.step() {
                    ResolveStepModel::Read { path } => PhaseModel::Resolving {
                        urls,
                        resolver: next,
                        path,
                    },
                    _ => self.run.resolve_rest(urls.push(resolver.input)),
                }
            },
            (
                PhaseModel::Resolving { urls, resolver, path },
                OutcomeModel::FileRead(bytes),
            ) => match resolver.found(bytes) {
                Ok(c) => self.run.resolve_rest(urls.push(c.payload)),
                Err(_) => self.run.resolve_rest(urls.push(resolver.input)),
            },
            (
                PhaseModel::AwaitingReply { request },
                OutcomeModel::SendFailed(detail),
            ) => PhaseModel::Failed { error: ToolErrorView::Transport { detail } },
            (
                PhaseModel::AwaitingReply { request },
                OutcomeModel::Replied { status, body },
            ) => self.run.replied(status, body),
            (
                PhaseModel::Storing { text, count, usage, session },
                OutcomeModel::Stored(event),
            ) => self.run.storing(text, count, usage, session.handle(event)),
            _ => self.phase,
        }
    }

    /// The run after the host's report.
    pub open spec fn advance(self, outcome: OutcomeModel) -> OperationModel {
        OperationModel { phase: self.next_phase(outcome), ..self }
    }

    /// The run is over.
    pub open spec fn is_over(self) -> bool {
        self.phase is Finished || self.phase is Failed
    }

    /// The state is one that a run can be in.
    pub open spec fn wf(self) -> bool {
        match self.phase {
            PhaseModel::Resolving { urls, resolver, path } => {
                &&& urls.len() < self.run.inputs.len()
                &&& resolver.input == self.run.inputs[urls.len() as int]
                &&& resolver.step() == (ResolveStepModel::Read { path })
            },
            PhaseModel::Storing { text, count, usage, session } => {
                &&& session.wf()
                &&& !session.finished()
            },
            _ => true,
        }
    }
}

/// An edit without images fails with a usage error before anything is
/// sent, and no report of the host changes that.
pub proof fn lemma_edit_without_images_sends_nothing(
    model: Seq<char>,
    save_dir: Seq<char>,
    stamp: nat,
    instruction: Seq<char>,
    outcome: OutcomeModel,
)
    ensures
        OperationModel::edit(model, save_dir, stamp, instruction, Seq::empty()).step()
            == (StepModel::Fail { error: ToolErrorView::Usage }),
        OperationModel::edit(model, save_dir, stamp, instruction, Seq::empty()).advance(outcome)
            == OperationModel::edit(model, save_dir, stamp, instruction, Seq::empty()),
{
}

/// A run that is over stays as it is, whatever the host reports.
pub proof fn lemma_over_is_final(op: OperationModel, outcome: OutcomeModel)
    requires
        op.is_over(),
    ensures
        op.advance(outcome) == op,
{
}

/// A request is asked to be sent only while the run waits for the reply.
pub proof fn lemma_send_only_while_awaiting(op: OperationModel)
    ensures
        op.step() is Send <==> op.phase is AwaitingReply,
{
}

proof fn lemma_resolve_rest_wf(run: RunModel, urls: Seq<Seq<char>>)
    requires
        urls.len() <= run.inputs.len(),
    ensures
        (OperationModel { run, phase: run.resolve_rest(urls) }).wf(),
    decreases run.inputs.len() - urls.len(),
{
    if urls.len() < run.inputs.len() {
        let input = run.inputs[urls.len() as int];
        let resolver = run.resolver_for(input);
        match resolver.step() {
            ResolveStepModel::Done(c) => {
                lemma_resolve_rest_wf(run, urls.push(c.payload));
            },
            ResolveStepModel::Read { path } => {},
            ResolveStepModel::Unrecognized => {
                lemma_resolve_rest_wf(run, urls.push(input));
            },
        }
    }
}

/// Whatever the host reports, a run stays in a state that it can be in.
pub proof fn lemma_advance_wf(op: OperationModel, outcome: OutcomeModel)
    requires
        op.wf(),
    ensures
        op.advance(outcome).wf(),
{
    match (op.phase, outcome) {
        (PhaseModel::Resolving { urls, resolver, path }, OutcomeModel::FileMissing) => {
            lemma_resolve_rest_wf(op.run, urls.push(resolver.input));
        },
        (PhaseModel::Resolving { urls, resolver, path }, OutcomeModel::FileRead(bytes)) => {
            match resolver.found(bytes) {
                Ok(c) => {
                    lemma_resolve_rest_wf(op.run, urls.push(c.payload));
                },
                Err(_) => {
                    lemma_resolve_rest_wf(op.run, urls.push(resolver.input));
                },
            }
        },
        (PhaseModel::AwaitingReply { request }, OutcomeModel::Replied { status, body }) => {
            match interpreted(status, body) {
                Err(error) => {},
                Ok(reply) => {
                    let start = PersistModel::initial(
                        sources_of(reply.images),
                        op.run.save_dir,
                        batch_stem(op.run.base_name(), op.run.is_edit, op.run.stamp),
                    );
                    crate::persist::lemma_settle_wf(start);
                },
            }
        },
        (PhaseModel::Storing { text, count, usage, session }, OutcomeModel::Stored(event)) => {
            lemma_handle_wf(session, event);
        },
        _ => {},
    }
}

/// What a run is busy with.
enum Phase {
    Resolving { urls: Vec<String>, resolver: InputResolver, path: String },
    AwaitingReply { request: ChatRequest },
    Storing { text: String, count: usize, usage: Option<TokenUsage>, session: PersistSession },
    Finished { report: String },
    Failed { error: ToolError },
}

impl View for Phase {
    type V = PhaseModel;

    closed spec fn view(&self) -> PhaseModel {
        match self {
            Phase::Resolving { urls, resolver, path } => PhaseModel::Resolving {
                urls: strings_view(urls@),
                resolver: resolver@,
                path: path@,
            },
            Phase::AwaitingReply { request } => PhaseModel::AwaitingReply { request: request@ },
            Phase::Storing { text, count, usage, session } => PhaseModel::Storing {
                text: text@,
                count: *count as nat,
                usage: *usage,
                session: session@,
            },
            Phase::Finished { report } => PhaseModel::Finished { report: report@ },
            Phase::Failed { error } => PhaseModel::Failed { error: error@ },
        }
    }
}

/// What a run was started with.
struct Run {
    model: String,
    save_dir: String,
    stamp: u64,
    is_edit: bool,
    prompt: String,
    inputs: Vec<String>,
}

impl View for Run {
    type V = RunModel;

    closed spec fn view(&self) -> RunModel {
        RunModel {
            model: self.model@,
            save_dir: self.save_dir@,
            stamp: self.stamp as nat,
            is_edit: self.is_edit,
            prompt: self.prompt@,
            inputs: strings_view(self.inputs@),
        }
    }
}

/// One run of an operation.
pub struct Operation {
    run: Run,
    phase: Phase,
}

impl View for Operation {
    type V = OperationModel;

    closed spec fn view(&self) -> OperationModel {
        OperationModel { run: self.run@, phase: self.phase@ }
    }
}

impl Run {
    /// What an edit is busy with once `urls` stand for its first inputs.
    #[verifier::loop_isolation(false)]
    fn resolve_rest(&self, urls: Vec<String>) -> (r: Phase)
        ensures
            r@ == self@.resolve_rest(strings_view(urls@)),
    {
        let ghost given = strings_view(urls@);
        let mut urls = urls;
        while urls.len() < self.inputs.len()
            invariant
                self@.resolve_rest(strings_view(urls@)) == self@.resolve_rest(given),
            decreases self.inputs@.len() - urls@.len(),
        {
            let ghost before = strings_view(urls@);
            let input = &self.inputs[urls.len()];
            assert(strings_view(self.inputs@)[urls@.len() as int] == input@);
            let resolver = InputResolver::new(input.as_str(), self.save_dir.as_str());
            match resolver.step() {
                ResolveStep::Done(c) => {
                    urls.push(c.payload);
                    assert(strings_view(urls@) =~= before.push(c.payload@));
                },
                ResolveStep::Read { path } => {
                    return Phase::Resolving { urls, resolver, path };
                },
                ResolveStep::Unrecognized => {
                    urls.push(input.clone());
                    assert(strings_view(urls@) =~= before.push(input@));
                },
            }
        }
        Phase::AwaitingReply {
            request: ChatRequest::for_edit(self.model.as_str(), self.prompt.as_str(), &urls),
        }
    }

    /// The name that the images of the run are stored under, if it has
    /// one.
    fn base_name(&self) -> (r: Option<String>)
        ensures
            match r {
                Some(b) => self@.base_name() == Some(b@),
                None => self@.base_name() is None,
            },
    {
        if self.is_edit {
            base_name_of(&self.inputs)
        } else {
            Some("generated_image".to_owned())
        }
    }

    /// The report of the run, given what the reply held and what became
    /// of its images.
    fn report(
        &self,
        text: &str,
        count: usize,
        usage: Option<TokenUsage>,
        session: &PersistSession,
    ) -> (r: String)
        ensures
            r@ == self@.report(text@, count as nat, usage, session@),
    {
        if self.is_edit {
            edit_report(
                self.model.as_str(),
                self.prompt.as_str(),
                self.inputs.len(),
                text,
                count,
                session.records(),
                usage,
            )
        } else {
            generate_report(
                self.model.as_str(),
                self.prompt.as_str(),
                self.save_dir.as_str(),
                text,
                count,
                session.records(),
                usage,
            )
        }
    }

    /// What a run is busy with while `session` stores its images.
    fn storing(
        &self,
        text: String,
        count: usize,
        usage: Option<TokenUsage>,
        session: PersistSession,
    ) -> (r: Phase)
        ensures
            r@ == self@.storing(text@, count as nat, usage, session@),
    {
        if session.is_finished() {
            Phase::Finished { report: self.report(text.as_str(), count, usage, &session) }
        } else {
            Phase::Storing { text, count, usage, session }
        }
    }

    /// What a run is busy with once the endpoint has answered.
    fn replied(&self, status: u16, body: &str) -> (r: Phase)
        ensures
            r@ == self@.replied(status, body@),
    {
        match interpret_reply(status, body) {
            Err(error) => Phase::Failed { error },
            Ok(reply) => {
                let count = reply.images.len();
                let base = self.base_name();
                let session = match &base {
                    Some(b) => PersistSession::new(
                        reply.images,
                        self.save_dir.as_str(),
                        Some(b.as_str()),
                        self.is_edit,
                        self.stamp,
                    ),
                    None => PersistSession::new(
                        reply.images,
                        self.save_dir.as_str(),
                        None,
                        self.is_edit,
                        self.stamp,
                    ),
                };
                self.storing(reply.text, count, reply.usage, session)
            },
        }
    }
}

impl Operation {
    /// The run is in a state that it can reach.
    pub open spec fn wf(&self) -> bool {
        self@.wf()
    }

    /// Starts a generation with the model `model`. `save_dir` is the save
    /// directory of the moment, `stamp` what the host's clock shows.
    pub fn generate(model: &str, save_dir: &str, stamp: u64, args: &GenerateImageArgs) -> (r:
        Operation)
        ensures
            r.wf(),
            r@ == OperationModel::generate(model@, save_dir@, stamp as nat, args.prompt@),
    {
        let inputs: Vec<String> = Vec::new();
        assert(strings_view(inputs@) =~= Seq::<Seq<char>>::empty());
        Operation {
            run: Run {
                model: model.to_owned(),
                save_dir: save_dir.to_owned(),
                stamp,
                is_edit: false,
                prompt: args.prompt.clone(),
                inputs,
            },
            phase: Phase::AwaitingReply {
                request: ChatRequest::for_generate(model, args.prompt.as_str()),
            },
        }
    }

    /// Starts an edit with the model `model`. `save_dir` is the save
    /// directory of the moment, `stamp` what the host's clock shows.
    pub fn edit(model: &str, save_dir: &str, stamp: u64, args: &EditImageArgs) -> (r: Operation)
        ensures
            r.wf(),
            r@ == OperationModel::edit(
                model@,
                save_dir@,
                stamp as nat,
                args.instruction@,
                strings_view(args.images@),
            ),
    {
        let mut inputs: Vec<String> = Vec::new();
        let mut i: usize = 0;
        assert(strings_view(inputs@) =~= strings_view(args.images@).take(0));
        while i < args.images.len()
            invariant
                i <= args.images.len(),
                strings_view(inputs@) == strings_view(args.images@).take(i as int),
            decreases args.images.len() - i,
        {
            let ghost before = strings_view(inputs@);
            inputs.push(args.images[i].clone());
            assert(strings_view(inputs@) =~= before.push(args.images@[i as int]@));
            assert(strings_view(args.images@).take(i + 1) =~= before.push(
                strings_view(args.images@)[i as int],
            ));
            i = i + 1;
        }
        assert(strings_view(args.images@).take(args.images.len() as int) =~= strings_view(
            args.images@,
        ));
        let run = Run {
            model: model.to_owned(),
            save_dir: save_dir.to_owned(),
            stamp,
            is_edit: true,
            prompt: args.instruction.clone(),
            inputs,
        };
        if run.inputs.len() == 0 {
            Operation { run, phase: Phase::Failed { error: ToolError::Usage } }
        } else {
            let urls: Vec<String> = Vec::new();
            assert(strings_view(urls@) =~= Seq::<Seq<char>>::empty());
            proof {
                lemma_resolve_rest_wf(run@, Seq::empty());
            }
            let phase = run.resolve_rest(urls);
            Operation { run, phase }
        }
    }

    /// What the host is to do next.
    pub fn step(&self) -> (r: Step)
        ensures
            r@ == self@.step(),
    {
        match &self.phase {
            Phase::Resolving { urls, resolver, path } => Step::ReadFile { path: path.clone() },
            Phase::AwaitingReply { request } => Step::Send { request: request.duplicate() },
            Phase::Storing { text, count, usage, session } => match session.action() {
                PersistAction::Fetch { url } => Step::Fetch { url },
                PersistAction::Write { path } => Step::WriteFile { path },
                PersistAction::Done => Step::Finish {
                    report: self.run.report(text.as_str(), *count, *usage, session),
                },
            },
            Phase::Finished { report } => Step::Finish { report: report.clone() },
            Phase::Failed { error } => Step::Fail { error: error.duplicate() },
        }
    }

    /// The bytes that a `WriteFile` step is about.
    pub fn payload(&self) -> (r: Option<&Vec<u8>>)
        ensures
            match r {
                Some(bytes) => self@.payload() == Some(bytes@),
                None => self@.payload() is None,
            },
    {
        match &self.phase {
            Phase::Storing { text, count, usage, session } => session.payload(),
            _ => None,
        }
    }

    /// Whether the run is over.
    pub fn is_over(&self) -> (r: bool)
        ensures
            r == self@.is_over(),
    {
        match &self.phase {
            Phase::Finished { report } => true,
            Phase::Failed { error } => true,
            _ => false,
        }
    }

    /// Takes in what the host reports and goes on from there.
    pub fn advance(self, outcome: Outcome) -> (r: Operation)
        ensures
            r@ == self@.advance(outcome@),
            self.wf() ==> r.wf(),
    {
        proof {
            if self.wf() {
                lemma_advance_wf(self@, outcome@);
            }
        }
        let Operation { run, phase } = self;
        let next = match (phase, outcome) {
            (Phase::Resolving { urls, resolver, path }, Outcome::FileMissing) => {
                let mut resolver = resolver;
                let ghost before = strings_view(urls@);
                let raw = resolver.input().to_owned();
                resolver.missing();
                match resolver.step() {
                    ResolveStep::Read { path } => Phase::Resolving { urls, resolver, path },
                    _ => {
                        let mut urls = urls;
                        urls.push(raw);
                        assert(strings_view(urls@) =~= before.push(raw@));
                        run.resolve_rest(urls)
                    },
                }
            },
            (Phase::Resolving { urls, resolver, path }, Outcome::FileRead(bytes)) => {
                let ghost before = strings_view(urls@);
                let url = match resolver.found(bytes.as_slice()) {
                    Ok(c) => c.payload,
                    Err(_) => resolver.input().to_owned(),
                };
                let mut urls = urls;
                urls.push(url);
                assert(strings_view(urls@) =~= before.push(url@));
                run.resolve_rest(urls)
            },
            (Phase::AwaitingReply { request }, Outcome::SendFailed(detail)) => Phase::Failed {
                error: ToolError::Transport { detail },
            },
            (Phase::AwaitingReply { request }, Outcome::Replied { status, body }) => run.replied(
                status,
                body.as_str(),
            ),
            (Phase::Storing { text, count, usage, session }, Outcome::Stored(event)) => {
                let mut session = session;
                session.handle(event);
                run.storing(text, count, usage, session)
            },
            (phase, _) => phase,
        };
        Operation { run, phase: next }
    }
}

} // verus!
