//! Poe tasks: what a task of `pyproject.toml` runs, in which order, and when it stops.
//!
//! A run is a small machine. [`PoeRun::step`] says what comes next, the host does it and hands
//! back the exit code.
use vstd::prelude::*;
use vstd::string::StringExecFns;

use crate::pyproject::{lemma_list_model, list_model, parse_toml, toml_parse, Toml, TomlVal};
use crate::text::{
    blank, is_word, join_spaced, law_a_word_stays_whole, law_trimmed_empty_iff_blank,
    law_trimming_takes_the_ends, law_white_space_separates_words, law_words_are_the_text, spaced,
    split_whitespace, text_view, texts, trim, trimmed, white_space, words,
};

verus! {

/// Why a run fails.
#[derive(Debug, PartialEq, Eq)]
pub enum PoeError {
    /// No task is named.
    Usage,
    /// There is no `pyproject.toml`.
    NoPyproject,
    /// `pyproject.toml` is no TOML; the parser's complaint.
    BadToml(String),
    /// `pyproject.toml` has no tasks.
    NoTasks,
    /// There is no task of this name.
    TaskNotFound(String),
    /// An item of a sequence is no text.
    ItemNotText,
    /// The task of this name is neither a command nor a sequence.
    Unsupported(String),
    /// The command is blank.
    EmptyCommand,
}

/// What an error says.
#[verifier::ext_equal]
pub enum PoeErrorView {
    Usage,
    NoPyproject,
    BadToml(Seq<char>),
    NoTasks,
    TaskNotFound(Seq<char>),
    ItemNotText,
    Unsupported(Seq<char>),
    EmptyCommand,
}

impl View for PoeError {
    type V = PoeErrorView;

    open spec fn view(&self) -> PoeErrorView {
        match *self {
            PoeError::Usage => PoeErrorView::Usage,
            PoeError::NoPyproject => PoeErrorView::NoPyproject,
            PoeError::BadToml(complaint) => PoeErrorView::BadToml(complaint@),
            PoeError::NoTasks => PoeErrorView::NoTasks,
            PoeError::TaskNotFound(name) => PoeErrorView::TaskNotFound(name@),
            PoeError::ItemNotText => PoeErrorView::ItemNotText,
            PoeError::Unsupported(name) => PoeErrorView::Unsupported(name@),
            PoeError::EmptyCommand => PoeErrorView::EmptyCommand,
        }
    }
}

impl PoeErrorView {
    /// The message for the user.
    pub open spec fn message(self) -> Seq<char> {
        match self {
            PoeErrorView::Usage => "Usage: rtk poe <task> [args...]"@,
            PoeErrorView::NoPyproject => "No pyproject.toml found in current directory"@,
            PoeErrorView::BadToml(_) => "Failed to parse pyproject.toml"@,
            PoeErrorView::NoTasks => "No [tool.poe.tasks] section found in pyproject.toml"@,
            PoeErrorView::TaskNotFound(name) => "Poe task '"@ + name
                + "' not found in pyproject.toml"@,
            PoeErrorView::ItemNotText => "Sequence items must be strings"@,
            PoeErrorView::Unsupported(name) => "Task '"@ + name
                + "': only cmd and sequence tasks are supported (ref/script/shell not supported)"@,
            PoeErrorView::EmptyCommand => "Empty command in poe task"@,
        }
    }
}

impl PoeError {
    /// The message for the user.
    pub fn message(&self) -> (res: String)
        ensures
            res@ == self@.message(),
    {
        match self {
            PoeError::Usage => "Usage: rtk poe <task> [args...]".to_owned(),
            PoeError::NoPyproject => "No pyproject.toml found in current directory".to_owned(),
            PoeError::BadToml(_) => "Failed to parse pyproject.toml".to_owned(),
            PoeError::NoTasks => "No [tool.poe.tasks] section found in pyproject.toml".to_owned(),
            PoeError::TaskNotFound(name) => "Poe task '".to_owned().concat(name.as_str()).concat(
                "' not found in pyproject.toml",
            ),
            PoeError::ItemNotText => "Sequence items must be strings".to_owned(),
            PoeError::Unsupported(name) => "Task '".to_owned().concat(name.as_str()).concat(
                "': only cmd and sequence tasks are supported (ref/script/shell not supported)",
            ),
            PoeError::EmptyCommand => "Empty command in poe task".to_owned(),
        }
    }
}

/// Splits the arguments of a call into the name of the task and what is left for its command.
pub fn task_and_arguments(args: &[String]) -> (res: Result<(String, Vec<String>), PoeError>)
    ensures
        match res {
            Ok((name, extra)) => args@.len() > 0 && name@ == args@[0]@ && texts(extra@)
                == texts(args@).drop_first(),
            Err(error) => args@.len() == 0 && error == PoeError::Usage,
        },
{
    if args.len() == 0 {
        return Err(PoeError::Usage);
    }
    let name = args[0].clone();
    let mut extra: Vec<String> = Vec::new();
    let mut i: usize = 1;
    while i < args.len()
        invariant
            1 <= i <= args.len(),
            texts(extra@) == texts(args@).subrange(1, i as int),
        decreases args.len() - i,
    {
        let ghost before = texts(extra@);
        extra.push(args[i].clone());
        assert(texts(extra@) =~= before.push(args@[i as int]@));
        assert(texts(args@).subrange(1, i + 1) =~= before.push(args@[i as int]@));
        i += 1;
    }
    assert(texts(args@).subrange(1, i as int) =~= texts(
        args@,
    ).drop_first());
    Ok((name, extra))
}

/// The tasks of a `pyproject.toml`: its table at `tool.poe.tasks`.
pub open spec fn tasks_in(document: TomlVal) -> Option<TomlVal> {
    match document.entry("tool"@) {
        Some(tool) => match tool.entry("poe"@) {
            Some(poe) => poe.entry("tasks"@),
            None => None,
        },
        None => None,
    }
}

/// Finds the tasks of a `pyproject.toml`.
pub fn find_tasks(document: &Toml) -> (res: Result<&Toml, PoeError>)
    ensures
        match tasks_in(document@) {
            Some(tasks) => res matches Ok(found) && found@ == tasks,
            None => res matches Err(error) && error == PoeError::NoTasks,
        },
{
    if let Some(tool) = document.get("tool") {
        if let Some(poe) = tool.get("poe") {
            if let Some(tasks) = poe.get("tasks") {
                return Ok(tasks);
            }
        }
    }
    Err(PoeError::NoTasks)
}

/// Reads the text of a `pyproject.toml`.
pub fn read_pyproject(content: &str) -> (res: Result<Toml, PoeError>)
    ensures
        match toml_parse(content@) {
            Ok(document) => res matches Ok(read) && read@ == document,
            Err(complaint) => res matches Err(error) && error@ == PoeErrorView::BadToml(complaint),
        },
{
    match parse_toml(content) {
        Ok(document) => Ok(document),
        Err(complaint) => Err(PoeError::BadToml(complaint)),
    }
}

/// What a task amounts to.
pub enum Plan<'a> {
    Sequence(&'a Vec<Toml>),
    Command(&'a str),
    Error(PoeError),
}

/// What a plan says.
#[verifier::ext_equal]
pub enum PlanView {
    Sequence(Seq<TomlVal>),
    Command(Seq<char>),
    Error(PoeErrorView),
}

impl<'a> View for Plan<'a> {
    type V = PlanView;

    open spec fn view(&self) -> PlanView {
        match *self {
            Plan::Sequence(items) => PlanView::Sequence(list_model(items@)),
            Plan::Command(cmd) => PlanView::Command(cmd@),
            Plan::Error(error) => PlanView::Error(error@),
        }
    }
}

/// The list under `sequence` of a task.
pub open spec fn sequence_of(task: TomlVal) -> Option<Seq<TomlVal>> {
    match task.entry("sequence"@) {
        Some(sequence) => sequence.as_list(),
        None => None,
    }
}

/// The text under `cmd` of a task, or the task itself if it is a text.
pub open spec fn command_in(task: TomlVal) -> Option<Seq<char>> {
    match task.entry("cmd"@) {
        Some(cmd) => cmd.as_text(),
        None => task.as_text(),
    }
}

/// What the task of a name amounts to: a sequence goes before a command.
pub open spec fn plan_of(tasks: TomlVal, name: Seq<char>) -> PlanView {
    match tasks.entry(name) {
        Some(task) => match (sequence_of(task), command_in(task)) {
            (Some(items), _) => PlanView::Sequence(items),
            (None, Some(cmd)) => PlanView::Command(cmd),
            (None, None) => PlanView::Error(PoeErrorView::Unsupported(name)),
        },
        None => PlanView::Error(PoeErrorView::TaskNotFound(name)),
    }
}

/// Looks up what the task of a name amounts to.
pub fn plan_task<'a>(name: &str, tasks: &'a Toml) -> (res: Plan<'a>)
    ensures
        res@ == plan_of(tasks@, name@),
{
    let task = match tasks.get(name) {
        Some(task) => task,
        None => return Plan::Error(PoeError::TaskNotFound(name.to_owned())),
    };
    if let Some(Toml::List(items)) = task.get("sequence") {
        return Plan::Sequence(items);
    }
    let cmd = match task.get("cmd") {
        Some(cmd) => cmd.as_str(),
        None => task.as_str(),
    };
    match cmd {
        Some(cmd) => Plan::Command(cmd),
        None => Plan::Error(PoeError::Unsupported(name.to_owned())),
    }
}

/// A command followed by further arguments.
pub open spec fn with_arguments(cmd: Seq<char>, extra: Seq<Seq<char>>) -> Seq<char> {
    if extra.len() == 0 {
        cmd
    } else {
        cmd + seq![' '] + spaced(extra)
    }
}

/// Puts further arguments behind a command.
pub fn full_command(cmd: &str, extra: &Vec<String>) -> (res: String)
    ensures
        res@ == with_arguments(cmd@, texts(extra@)),
{
    let mut res = cmd.to_owned();
    if extra.len() > 0 {
        res.push(' ');
        res.append(join_spaced(extra.as_slice()).as_str());
        assert(res@ =~= cmd@ + seq![' '] + spaced(texts(extra@)));
    }
    res
}

/// A run of a task under way.
pub struct PoeRun<'a> {
    tasks: &'a Toml,
    current: Option<(String, Vec<String>)>,
    pending: Vec<&'a Toml>,
}

/// Where a run stands: the task to look at next with its arguments, and the items of sequences
/// that are to follow, in their order. The tasks that it draws on, [`PoeRun::tasks`], never
/// change and stand apart.
#[verifier::ext_equal]
pub struct RunView {
    pub current: Option<(Seq<char>, Seq<Seq<char>>)>,
    pub pending: Seq<TomlVal>,
}

impl<'a> View for PoeRun<'a> {
    type V = RunView;

    closed spec fn view(&self) -> RunView {
        RunView {
            current: match self.current {
                Some((name, extra)) => Some((name@, texts(extra@))),
                None => None,
            },
            pending: stack_view(self.pending@),
        }
    }
}

/// The items of a stack from its top down.
spec fn stack_view(stack: Seq<&Toml>) -> Seq<TomlVal> {
    Seq::new(stack.len(), |i: int| stack[stack.len() - 1 - i]@)
}

impl<'a> PoeRun<'a> {
    /// The tasks that the run draws on.
    pub closed spec fn tasks(self) -> TomlVal {
        self.tasks@
    }
}

/// What comes next in a run.
#[derive(Debug, PartialEq, Eq)]
pub enum PoeStep {
    /// A sub-task begins.
    Announce { name: String },
    /// This command is to be run; its exit code is wanted.
    Run { command: String },
    /// The run is over.
    Finish { code: i32 },
    /// The run has failed.
    Fail { error: PoeError },
}

/// What a step says.
#[verifier::ext_equal]
pub enum StepView {
    Announce(Seq<char>),
    Run(Seq<char>),
    Finish(i32),
    Fail(PoeErrorView),
}

impl View for PoeStep {
    type V = StepView;

    open spec fn view(&self) -> StepView {
        match *self {
            PoeStep::Announce { name } => StepView::Announce(name@),
            PoeStep::Run { command } => StepView::Run(command@),
            PoeStep::Finish { code } => StepView::Finish(code),
            PoeStep::Fail { error } => StepView::Fail(error@),
        }
    }
}

/// A run with nothing left to do.
pub open spec fn run_over() -> RunView {
    RunView { current: None, pending: seq![] }
}

/// The step to the next item of a sequence. Its task gets no arguments.
pub open spec fn item_step(pending: Seq<TomlVal>) -> (RunView, StepView) {
    if pending.len() == 0 {
        (run_over(), StepView::Finish(0))
    } else {
        match pending[0].as_text() {
            Some(name) => (
                RunView { current: Some((name, seq![])), pending: pending.drop_first() },
                StepView::Announce(name),
            ),
            None => (run_over(), StepView::Fail(PoeErrorView::ItemNotText)),
        }
    }
}

/// The step that follows once the last command has exited with `code`: a failure ends the run,
/// a sequence is taken up item by item, a command is run.
pub open spec fn run_step(tasks: TomlVal, run: RunView, code: i32) -> (RunView, StepView) {
    if code != 0 {
        (run_over(), StepView::Finish(code))
    } else {
        match run.current {
            Some((name, extra)) => match plan_of(tasks, name) {
                PlanView::Sequence(items) => item_step(items + run.pending),
                PlanView::Command(cmd) => (
                    RunView { current: None, pending: run.pending },
                    StepView::Run(with_arguments(cmd, extra)),
                ),
                PlanView::Error(error) => (run_over(), StepView::Fail(error)),
            },
            None => item_step(run.pending),
        }
    }
}

impl<'a> PoeRun<'a> {
    /// A run of the task of a name, whose command gets the extra arguments.
    pub fn run_task(name: &str, extra_args: Vec<String>, tasks: &'a Toml) -> (res: PoeRun<'a>)
        ensures
            res.tasks() == tasks@,
            res@ == (RunView {
                current: Some((name@, texts(extra_args@))),
                pending: seq![],
            }),
    {
        let current = Some((name.to_owned(), extra_args));
        let res = PoeRun { tasks, current, pending: Vec::new() };
        assert(res@.pending =~= seq![]);
        res
    }

    /// Ends the run.
    fn stop(&mut self)
        ensures
            final(self).tasks() == old(self).tasks(),
            final(self)@ == run_over(),
    {
        self.current = None;
        self.pending = Vec::new();
        assert(self@.pending =~= seq![]);
    }

    /// Takes up the next item.
    fn next_item(&mut self) -> (res: PoeStep)
        requires
            old(self)@.current is None,
        ensures
            final(self).tasks() == old(self).tasks(),
            (final(self)@, res@) == item_step(old(self)@.pending),
    {
        let ghost stack = self.pending@;
        match self.pending.pop() {
            Some(item) => {
                assert(stack_view(stack)[0] == item@);
                assert(stack_view(stack).drop_first() =~= stack_view(self.pending@));
                match item.as_str() {
                    Some(name) => {
                        let extra: Vec<String> = Vec::new();
                        assert(texts(extra@) =~= seq![]);
                        self.current = Some((name.to_owned(), extra));
                        PoeStep::Announce { name: name.to_owned() }
                    },
                    None => {
                        self.stop();
                        PoeStep::Fail { error: PoeError::ItemNotText }
                    },
                }
            },
            None => {
                assert(self@.pending =~= seq![]);
                PoeStep::Finish { code: 0 }
            },
        }
    }

    /// Puts the items of a sequence before all that is pending.
    fn schedule(&mut self, items: &'a Vec<Toml>)
        ensures
            final(self).tasks() == old(self).tasks(),
            final(self)@.current == old(self)@.current,
            final(self)@.pending == list_model(items@) + old(self)@.pending,
    {
        let ghost model = list_model(items@);
        let ghost before = self@;
        proof {
            lemma_list_model(items@);
        }
        let mut i: usize = items.len();
        assert(model.skip(i as int) + before.pending =~= before.pending);
        while i > 0
            invariant
                i <= items.len(),
                model == list_model(items@),
                model.len() == items@.len(),
                forall|j: int| 0 <= j < items@.len() ==> #[trigger] model[j] == items@[j]@,
                self.tasks() == old(self).tasks(),
                self@.current == before.current,
                self@.pending == model.skip(i as int) + before.pending,
            decreases i,
        {
            i -= 1;
            let ghost stack = self.pending@;
            self.pending.push(&items[i]);
            assert(stack_view(self.pending@) =~= seq![model[i as int]] + stack_view(stack));
            assert(model.skip(i as int) =~= seq![model[i as int]] + model.skip(i + 1));
            assert(seq![model[i as int]] + (model.skip(i + 1) + before.pending) =~= model.skip(
                i as int,
            ) + before.pending);
        }
        assert(model.skip(0) =~= model);
    }

    /// Says what comes next. `code` is the exit code of the last command, or 0 where the last
    /// step ran none.
    pub fn step(&mut self, code: i32) -> (res: PoeStep)
        ensures
            final(self).tasks() == old(self).tasks(),
            (final(self)@, res@) == run_step(old(self).tasks(), old(self)@, code),
    {
        if code != 0 {
            self.stop();
            return PoeStep::Finish { code };
        }
        match self.current.take() {
            Some((name, extra)) => match plan_task(name.as_str(), self.tasks) {
                Plan::Sequence(items) => {
                    self.schedule(items);
                    self.next_item()
                },
                Plan::Command(cmd) => PoeStep::Run { command: full_command(cmd, &extra) },
                Plan::Error(error) => {
                    self.stop();
                    PoeStep::Fail { error }
                },
            },
            None => self.next_item(),
        }
    }
}

/// How a command is started.
#[derive(Debug, PartialEq, Eq)]
pub enum Launch {
    /// By this program, whose filters know it.
    Rtk { args: Vec<String> },
    /// As it is.
    Passthrough { tool: String, args: Vec<String> },
}

/// What a launch says.
#[verifier::ext_equal]
pub enum LaunchView {
    Rtk(Seq<Seq<char>>),
    Passthrough(Seq<char>, Seq<Seq<char>>),
}

impl View for Launch {
    type V = LaunchView;

    open spec fn view(&self) -> LaunchView {
        match *self {
            Launch::Rtk { args } => LaunchView::Rtk(texts(args@)),
            Launch::Passthrough { tool, args } => LaunchView::Passthrough(
                tool@,
                texts(args@),
            ),
        }
    }
}

/// How a command is started, depending on whether the registry knows it: its words are the
/// arguments of this program, or a tool and its arguments.
pub open spec fn launch_of(cmd: Seq<char>, known: bool) -> LaunchView {
    let parts = words(cmd);
    if known {
        LaunchView::Rtk(parts)
    } else {
        LaunchView::Passthrough(parts[0], parts.drop_first())
    }
}

/// What the registry is asked: what it has for a command, if it may propose nothing for the
/// excluded ones and looks behind the transparent prefixes.
#[derive(Debug, PartialEq, Eq)]
pub struct RegistryQuestion {
    pub command: String,
    pub excluded: Vec<String>,
    pub transparent_prefixes: Vec<String>,
}

/// What a question to the registry says.
#[verifier::ext_equal]
pub struct QuestionView {
    pub command: Seq<char>,
    pub excluded: Seq<Seq<char>>,
    pub transparent_prefixes: Seq<Seq<char>>,
}

impl View for RegistryQuestion {
    type V = QuestionView;

    open spec fn view(&self) -> QuestionView {
        QuestionView {
            command: self.command@,
            excluded: texts(self.excluded@),
            transparent_prefixes: texts(self.transparent_prefixes@),
        }
    }
}

/// What the registry is asked about a command: the command without the white space around it,
/// with nothing excluded and no transparent prefixes.
pub open spec fn question_of(cmd: Seq<char>) -> QuestionView {
    QuestionView { command: trimmed(cmd), excluded: seq![], transparent_prefixes: seq![] }
}

/// What the registry is asked about a command. There is nothing to ask about a blank one.
pub fn registry_question(cmd_str: &str) -> (res: Result<RegistryQuestion, PoeError>)
    ensures
        match res {
            Ok(question) => !blank(cmd_str@) && question@ == question_of(cmd_str@),
            Err(error) => blank(cmd_str@) && error == PoeError::EmptyCommand,
        },
{
    let command = trim(cmd_str);
    proof {
        law_trimmed_empty_iff_blank(cmd_str@);
    }
    if command.is_empty() {
        Err(PoeError::EmptyCommand)
    } else {
        let question = RegistryQuestion {
            command: command.to_owned(),
            excluded: Vec::new(),
            transparent_prefixes: Vec::new(),
        };
        assert(question@ =~= question_of(cmd_str@));
        Ok(question)
    }
}

/// Decides how a command is started; `known` says whether the registry knows it.
pub fn run_cmd_string(cmd_str: &str, known: bool) -> (res: Result<Launch, PoeError>)
    ensures
        match res {
            Ok(launch) => !blank(cmd_str@) && launch@ == launch_of(cmd_str@, known),
            Err(error) => blank(cmd_str@) && error == PoeError::EmptyCommand,
        },
{
    proof {
        law_trimmed_empty_iff_blank(cmd_str@);
        law_words_are_the_text(cmd_str@);
    }
    if trim(cmd_str).is_empty() {
        return Err(PoeError::EmptyCommand);
    }
    let mut parts = split_whitespace(cmd_str);
    if known {
        Ok(Launch::Rtk { args: parts })
    } else {
        let ghost all = parts@;
        assert(texts(all).len() == all.len());
        let tool = parts.remove(0);
        assert(texts(parts@) =~= texts(all).drop_first());
        assert(texts(all)[0] == tool@);
        Ok(Launch::Passthrough { tool, args: parts })
    }
}

/// The exit code that counts for a command: 1 where it ended without one.
pub fn exit_code(status: Option<i32>) -> (res: i32)
    ensures
        res == match status {
            Some(code) => code,
            None => 1i32,
        },
{
    match status {
        Some(code) => code,
        None => 1,
    }
}

/// What a talkative run says of a step before it is taken.
pub open spec fn step_notice(step: StepView) -> Option<Seq<char>> {
    match step {
        StepView::Announce(name) => Some("poe: running sub-task '"@ + name + "'"@),
        StepView::Run(command) => Some("poe: "@ + command),
        _ => None,
    }
}

/// What a talkative run says of a launch.
pub open spec fn launch_notice(cmd: Seq<char>, known: bool) -> Seq<char> {
    if known {
        "poe: routing through rtk: "@ + trimmed(cmd)
    } else {
        "poe: no RTK filter for command (running passthrough): "@ + trimmed(cmd)
    }
}

impl PoeStep {
    /// What is said of the step on standard error; nothing unless the run is `verbose`.
    pub fn notice(&self, verbose: u8) -> (res: Option<String>)
        ensures
            text_view(res) == if verbose > 0 {
                step_notice(self@)
            } else {
                None
            },
    {
        if verbose == 0 {
            return None;
        }
        match self {
            PoeStep::Announce { name } => Some(
                "poe: running sub-task '".to_owned().concat(name.as_str()).concat("'"),
            ),
            PoeStep::Run { command } => Some("poe: ".to_owned().concat(command.as_str())),
            _ => None,
        }
    }
}

/// What is said of a launch on standard error; nothing unless the run is `verbose`.
pub fn notice_launch(cmd_str: &str, known: bool, verbose: u8) -> (res: Option<String>)
    ensures
        text_view(res) == if verbose > 0 {
            Some(launch_notice(cmd_str@, known))
        } else {
            None
        },
{
    if verbose == 0 {
        None
    } else if known {
        Some("poe: routing through rtk: ".to_owned().concat(trim(cmd_str)))
    } else {
        Some(
            "poe: no RTK filter for command (running passthrough): ".to_owned().concat(
                trim(cmd_str),
            ),
        )
    }
}

// What a run does as a whole.

/// How a run ends.
#[verifier::ext_equal]
pub enum RunEnd {
    /// With an exit code.
    Exit(i32),
    /// With an error of its own.
    Error(PoeErrorView),
    /// With a command that could not be started.
    NotStarted,
}

/// The commands of a run, in order, and its end.
pub type RunRecord = (Seq<Seq<char>>, RunEnd);

/// What running the task of a name does, after the commands in `done`. `codes` gives the exit
/// code of the last of some commands, or none if it cannot be started. Sequences that nest
/// `depth` deep or deeper have no record.
pub open spec fn task_record(
    tasks: TomlVal,
    name: Seq<char>,
    extra: Seq<Seq<char>>,
    codes: spec_fn(Seq<Seq<char>>) -> Option<i32>,
    done: Seq<Seq<char>>,
    depth: nat,
) -> Option<RunRecord>
    decreases depth, 0nat,
{
    match plan_of(tasks, name) {
        PlanView::Sequence(items) => if depth == 0 {
            None
        } else {
            items_record(tasks, items, codes, done, (depth - 1) as nat)
        },
        PlanView::Command(cmd) => {
            let done = done.push(with_arguments(cmd, extra));
            match codes(done) {
                Some(code) => Some((done, RunEnd::Exit(code))),
                None => Some((done, RunEnd::NotStarted)),
            }
        },
        PlanView::Error(error) => Some((done, RunEnd::Error(error))),
    }
}

/// What running the items of a sequence does: one task after the other, until one fails.
pub open spec fn items_record(
    tasks: TomlVal,
    items: Seq<TomlVal>,
    codes: spec_fn(Seq<Seq<char>>) -> Option<i32>,
    done: Seq<Seq<char>>,
    depth: nat,
) -> Option<RunRecord>
    decreases depth, items.len(),
{
    if items.len() == 0 {
        Some((done, RunEnd::Exit(0)))
    } else {
        match items[0].as_text() {
            Some(name) => match task_record(tasks, name, seq![], codes, done, depth) {
                Some((done, RunEnd::Exit(0))) => items_record(
                    tasks,
                    items.drop_first(),
                    codes,
                    done,
                    depth,
                ),
                other => other,
            },
            None => Some((done, RunEnd::Error(PoeErrorView::ItemNotText))),
        }
    }
}

/// What `n` steps of a run do, where the last command exited with `code`; none if they do not
/// end it.
pub open spec fn steps_record(
    tasks: TomlVal,
    run: RunView,
    code: i32,
    codes: spec_fn(Seq<Seq<char>>) -> Option<i32>,
    done: Seq<Seq<char>>,
    n: nat,
) -> Option<RunRecord>
    decreases n,
{
    if n == 0 {
        None
    } else {
        let (run, step) = run_step(tasks, run, code);
        match step {
            StepView::Announce(_) => steps_record(tasks, run, 0, codes, done, (n - 1) as nat),
            StepView::Run(command) => {
                let done = done.push(command);
                match codes(done) {
                    Some(code) => steps_record(tasks, run, code, codes, done, (n - 1) as nat),
                    None => Some((done, RunEnd::NotStarted)),
                }
            },
            StepView::Finish(code) => Some((done, RunEnd::Exit(code))),
            StepView::Fail(error) => Some((done, RunEnd::Error(error))),
        }
    }
}

/// How many steps a task takes.
spec fn task_steps(
    tasks: TomlVal,
    name: Seq<char>,
    extra: Seq<Seq<char>>,
    codes: spec_fn(Seq<Seq<char>>) -> Option<i32>,
    done: Seq<Seq<char>>,
    depth: nat,
) -> nat
    decreases depth, 0nat,
{
    match plan_of(tasks, name) {
        PlanView::Sequence(items) => if depth == 0 {
            0
        } else {
            items_steps(tasks, items, codes, done, (depth - 1) as nat)
        },
        PlanView::Command(cmd) => match codes(done.push(with_arguments(cmd, extra))) {
            Some(code) => if code == 0 {
                1
            } else {
                2
            },
            None => 1,
        },
        PlanView::Error(_) => 1,
    }
}

/// How many steps the items of a sequence take.
spec fn items_steps(
    tasks: TomlVal,
    items: Seq<TomlVal>,
    codes: spec_fn(Seq<Seq<char>>) -> Option<i32>,
    done: Seq<Seq<char>>,
    depth: nat,
) -> nat
    decreases depth, items.len(),
{
    if items.len() == 0 {
        0
    } else {
        match items[0].as_text() {
            Some(name) => {
                let first = task_steps(tasks, name, seq![], codes, done, depth);
                let others = match task_record(tasks, name, seq![], codes, done, depth) {
                    Some((done, RunEnd::Exit(0))) => items_steps(
                        tasks,
                        items.drop_first(),
                        codes,
                        done,
                        depth,
                    ),
                    _ => 0,
                };
                1 + first + others
            },
            None => 1,
        }
    }
}

/// A task that succeeds leaves the run at what is pending; any other end is the run's.
proof fn lemma_task_steps(
    tasks: TomlVal,
    name: Seq<char>,
    extra: Seq<Seq<char>>,
    rest: Seq<TomlVal>,
    codes: spec_fn(Seq<Seq<char>>) -> Option<i32>,
    done: Seq<Seq<char>>,
    depth: nat,
    n: nat,
)
    requires
        task_record(tasks, name, extra, codes, done, depth) is Some,
    ensures
        steps_record(
            tasks,
            RunView { current: Some((name, extra)), pending: rest },
            0,
            codes,
            done,
            n + task_steps(tasks, name, extra, codes, done, depth),
        ) == match task_record(tasks, name, extra, codes, done, depth) {
            Some((done, RunEnd::Exit(0))) => steps_record(
                tasks,
                RunView { current: None, pending: rest },
                0,
                codes,
                done,
                n,
            ),
            other => other,
        },
    decreases depth, 0nat,
{
    let start = RunView { current: Some((name, extra)), pending: rest };
    let k = task_steps(tasks, name, extra, codes, done, depth);
    match plan_of(tasks, name) {
        PlanView::Sequence(items) => {
            lemma_items_steps(tasks, items, rest, codes, done, (depth - 1) as nat, n);
            let unfolded = RunView { current: None, pending: items + rest };
            assert(run_step(tasks, start, 0) == run_step(tasks, unfolded, 0));
            assert(steps_record(tasks, start, 0, codes, done, n + k) == steps_record(
                tasks,
                unfolded,
                0,
                codes,
                done,
                n + k,
            ));
        },
        PlanView::Command(cmd) => {
            reveal_with_fuel(steps_record, 3);
        },
        PlanView::Error(_) => {},
    }
}

/// Items that succeed leave the run at what is pending; any other end is the run's.
proof fn lemma_items_steps(
    tasks: TomlVal,
    items: Seq<TomlVal>,
    rest: Seq<TomlVal>,
    codes: spec_fn(Seq<Seq<char>>) -> Option<i32>,
    done: Seq<Seq<char>>,
    depth: nat,
    n: nat,
)
    requires
        items_record(tasks, items, codes, done, depth) is Some,
    ensures
        steps_record(
            tasks,
            RunView { current: None, pending: items + rest },
            0,
            codes,
            done,
            n + items_steps(tasks, items, codes, done, depth),
        ) == match items_record(tasks, items, codes, done, depth) {
            Some((done, RunEnd::Exit(0))) => steps_record(
                tasks,
                RunView { current: None, pending: rest },
                0,
                codes,
                done,
                n,
            ),
            other => other,
        },
    decreases depth, items.len(),
{
    if items.len() == 0 {
        assert(items + rest =~= rest);
    } else {
        assert((items + rest)[0] == items[0]);
        match items[0].as_text() {
            Some(name) => {
                let others = items.drop_first();
                assert((items + rest).drop_first() =~= others + rest);
                let k = task_steps(tasks, name, seq![], codes, done, depth);
                match task_record(tasks, name, seq![], codes, done, depth) {
                    Some((after, RunEnd::Exit(0))) => {
                        let m = items_steps(tasks, others, codes, after, depth);
                        lemma_items_steps(tasks, others, rest, codes, after, depth, n);
                        lemma_task_steps(
                            tasks,
                            name,
                            seq![],
                            others + rest,
                            codes,
                            done,
                            depth,
                            n + m,
                        );
                        assert(n + (1 + k + m) == (n + m) + k + 1);
                    },
                    _ => {
                        lemma_task_steps(
                            tasks,
                            name,
                            seq![],
                            others + rest,
                            codes,
                            done,
                            depth,
                            n,
                        );
                    },
                }
            },
            None => {},
        }
    }
}

/// Taken step by step, a run does what running the task does: the same commands in the same
/// order, and the same end.
pub proof fn law_steps_run_the_task(
    tasks: TomlVal,
    name: Seq<char>,
    extra: Seq<Seq<char>>,
    codes: spec_fn(Seq<Seq<char>>) -> Option<i32>,
    depth: nat,
)
    requires
        task_record(tasks, name, extra, codes, seq![], depth) is Some,
    ensures
        exists|n: nat| #[trigger]
            steps_record(
                tasks,
                RunView { current: Some((name, extra)), pending: seq![] },
                0,
                codes,
                seq![],
                n,
            ) == task_record(tasks, name, extra, codes, seq![], depth),
{
    let k = task_steps(tasks, name, extra, codes, seq![], depth);
    lemma_task_steps(tasks, name, extra, seq![], codes, seq![], depth, 1);
    let n = 1 + k;
    assert(steps_record(
        tasks,
        RunView { current: Some((name, extra)), pending: seq![] },
        0,
        codes,
        seq![],
        n,
    ) == task_record(tasks, name, extra, codes, seq![], depth));
}

/// A run that has ended is not changed by allowing it more steps.
pub proof fn law_an_end_is_final(
    tasks: TomlVal,
    run: RunView,
    code: i32,
    codes: spec_fn(Seq<Seq<char>>) -> Option<i32>,
    done: Seq<Seq<char>>,
    n: nat,
    m: nat,
)
    requires
        steps_record(tasks, run, code, codes, done, n) is Some,
        n <= m,
    ensures
        steps_record(tasks, run, code, codes, done, m) == steps_record(
            tasks,
            run,
            code,
            codes,
            done,
            n,
        ),
    decreases n,
{
    let (next, step) = run_step(tasks, run, code);
    match step {
        StepView::Announce(_) => {
            law_an_end_is_final(tasks, next, 0, codes, done, (n - 1) as nat, (m - 1) as nat);
        },
        StepView::Run(command) => {
            let done = done.push(command);
            if let Some(code) = codes(done) {
                law_an_end_is_final(
                    tasks,
                    next,
                    code,
                    codes,
                    done,
                    (n - 1) as nat,
                    (m - 1) as nat,
                );
            }
        },
        _ => {},
    }
}

/// Items run in order: those behind run only if all before them succeed, and the first end that
/// is no success is the end of the whole.
pub proof fn law_items_run_in_order(
    tasks: TomlVal,
    first: Seq<TomlVal>,
    second: Seq<TomlVal>,
    codes: spec_fn(Seq<Seq<char>>) -> Option<i32>,
    done: Seq<Seq<char>>,
    depth: nat,
)
    ensures
        items_record(tasks, first + second, codes, done, depth) == match items_record(
            tasks,
            first,
            codes,
            done,
            depth,
        ) {
            Some((done, RunEnd::Exit(0))) => items_record(tasks, second, codes, done, depth),
            other => other,
        },
    decreases first.len(),
{
    if first.len() == 0 {
        assert(first + second =~= second);
    } else {
        assert((first + second)[0] == first[0]);
        assert((first + second).drop_first() =~= first.drop_first() + second);
        if let Some(name) = first[0].as_text() {
            if let Some((after, RunEnd::Exit(0))) = task_record(
                tasks,
                name,
                seq![],
                codes,
                done,
                depth,
            ) {
                law_items_run_in_order(tasks, first.drop_first(), second, codes, after, depth);
            }
        }
    }
}

// What a task is, key by key.

/// What a task runs is settled by its name alone. A text is the command itself. A table with a
/// list under `sequence` is that sequence; without one, its text under `cmd` is the command,
/// whatever else the table holds. Anything else is not supported, and a name that the tasks do
/// not have is not found.
pub proof fn law_tasks_are_texts_commands_or_sequences(tasks: TomlVal, name: Seq<char>)
    ensures
        match tasks {
            TomlVal::Table(entries) if entries.contains_key(name) => match entries[name] {
                TomlVal::Text(cmd) => plan_of(tasks, name) == PlanView::Command(cmd),
                TomlVal::Table(task) => if task.contains_key("sequence"@)
                    && task["sequence"@] is List {
                    plan_of(tasks, name) == PlanView::Sequence(task["sequence"@]->List_0)
                } else if task.contains_key("cmd"@) && task["cmd"@] is Text {
                    plan_of(tasks, name) == PlanView::Command(task["cmd"@]->Text_0)
                } else {
                    plan_of(tasks, name) == PlanView::Error(PoeErrorView::Unsupported(name))
                },
                _ => plan_of(tasks, name) == PlanView::Error(PoeErrorView::Unsupported(name)),
            },
            _ => plan_of(tasks, name) == PlanView::Error(PoeErrorView::TaskNotFound(name)),
        },
{
}

/// Other entries of a task, and other tasks, do not bear on what the task runs.
pub proof fn law_other_entries_do_not_matter(
    entries: Map<Seq<char>, TomlVal>,
    name: Seq<char>,
    task: Map<Seq<char>, TomlVal>,
    key: Seq<char>,
    value: TomlVal,
    other: Seq<char>,
    another: TomlVal,
)
    requires
        key != "cmd"@,
        key != "sequence"@,
        other != name,
    ensures
        plan_of(TomlVal::Table(entries.insert(name, TomlVal::Table(task.insert(key, value)))), name)
            == plan_of(TomlVal::Table(entries.insert(name, TomlVal::Table(task))), name),
        plan_of(TomlVal::Table(entries.insert(other, another)), name) == plan_of(
            TomlVal::Table(entries),
            name,
        ),
{
    let more = task.insert(key, value);
    assert(more.contains_key("cmd"@) == task.contains_key("cmd"@));
    assert(more.contains_key("sequence"@) == task.contains_key("sequence"@));
    law_tasks_are_texts_commands_or_sequences(
        TomlVal::Table(entries.insert(name, TomlVal::Table(more))),
        name,
    );
    law_tasks_are_texts_commands_or_sequences(
        TomlVal::Table(entries.insert(name, TomlVal::Table(task))),
        name,
    );
}

/// A task whose text under `cmd` is a command, without a list under `sequence`, runs that command
/// and no other; so does a task that is that text itself.
pub proof fn law_a_task_runs_its_command(
    entries: Map<Seq<char>, TomlVal>,
    name: Seq<char>,
    cmd: Seq<char>,
    pending: Seq<TomlVal>,
)
    requires
        entries.contains_key(name),
        match entries[name] {
            TomlVal::Text(text) => text == cmd,
            TomlVal::Table(task) => {
                &&& task.contains_key("sequence"@) ==> !(task["sequence"@] is List)
                &&& task.contains_key("cmd"@) && task["cmd"@] == TomlVal::Text(cmd)
            },
            _ => false,
        },
    ensures
        run_step(
            TomlVal::Table(entries),
            RunView { current: Some((name, seq![])), pending },
            0,
        ) == (RunView { current: None, pending }, StepView::Run(cmd)),
{
}

/// The tasks stand at `tool.poe.tasks`, and nowhere else.
pub proof fn law_tasks_stand_under_tool_and_poe(document: TomlVal)
    ensures
        match document {
            TomlVal::Table(top) if top.contains_key("tool"@) => match top["tool"@] {
                TomlVal::Table(tool) if tool.contains_key("poe"@) => match tool["poe"@] {
                    TomlVal::Table(poe) if poe.contains_key("tasks"@) => tasks_in(document) == Some(
                        poe["tasks"@],
                    ),
                    _ => tasks_in(document) is None,
                },
                _ => tasks_in(document) is None,
            },
            _ => tasks_in(document) is None,
        },
{
}

// What a step does.

/// Each further argument goes behind a space at the end of the command, and a command without
/// further arguments stays as it is.
pub proof fn law_arguments_are_appended(cmd: Seq<char>, extra: Seq<Seq<char>>, last: Seq<char>)
    ensures
        with_arguments(cmd, seq![]) == cmd,
        with_arguments(cmd, extra.push(last)) == with_arguments(cmd, extra) + seq![' '] + last,
{
    assert(extra.push(last).drop_last() =~= extra);
    if extra.len() == 0 {
        assert(extra.push(last) =~= seq![last]);
    }
    assert(with_arguments(cmd, extra.push(last)) =~= with_arguments(cmd, extra) + seq![' '] + last);
}

/// Arguments that are words reach the command as they are: its words are those of the task's
/// command, followed by the arguments in their order.
pub proof fn law_arguments_are_words_of_the_command(cmd: Seq<char>, extra: Seq<Seq<char>>)
    requires
        forall|i: int| 0 <= i < extra.len() ==> is_word(#[trigger] extra[i]),
    ensures
        words(with_arguments(cmd, extra)) == words(cmd) + extra,
    decreases extra.len(),
{
    if extra.len() == 0 {
        assert(extra =~= seq![]);
        assert(words(cmd) + extra =~= words(cmd));
    } else {
        let (front, last) = (extra.drop_last(), extra.last());
        assert forall|i: int| 0 <= i < front.len() implies is_word(#[trigger] front[i]) by {
            assert(front[i] == extra[i]);
        }
        assert(last == extra[extra.len() - 1]);
        law_arguments_are_words_of_the_command(cmd, front);
        law_arguments_are_appended(cmd, front, last);
        assert(front.push(last) =~= extra);
        law_white_space_separates_words(with_arguments(cmd, front), ' ', last);
        law_a_word_stays_whole(last);
        assert(words(cmd) + front + seq![last] =~= words(cmd) + extra);
    }
}

/// A failed command ends the run with its exit code: nothing that is pending is run.
pub proof fn law_a_failure_ends_the_run(tasks: TomlVal, run: RunView, code: i32)
    requires
        code != 0,
    ensures
        run_step(tasks, run, code) == (
            RunView { current: None, pending: seq![] },
            StepView::Finish(code),
        ),
{
}

/// A task that is a command is run with the further arguments, and what is pending stays
/// pending. A task that cannot be run ends the run with its error.
pub proof fn law_a_command_is_run_with_its_arguments(
    tasks: TomlVal,
    name: Seq<char>,
    extra: Seq<Seq<char>>,
    pending: Seq<TomlVal>,
)
    ensures
        ({
            let run = RunView { current: Some((name, extra)), pending };
            match plan_of(tasks, name) {
                PlanView::Command(cmd) => run_step(tasks, run, 0) == (
                    RunView { current: None, pending },
                    StepView::Run(with_arguments(cmd, extra)),
                ),
                PlanView::Error(error) => run_step(tasks, run, 0) == (
                    RunView { current: None, pending: seq![] },
                    StepView::Fail(error),
                ),
                PlanView::Sequence(items) => run_step(tasks, run, 0) == run_step(
                    tasks,
                    RunView { current: None, pending: items + pending },
                    0,
                ),
            }
        }),
{
}

/// The items of sequences are taken up from the front, each as a task without arguments. An item
/// that is no text fails the run; once there are no more, the run has succeeded.
pub proof fn law_items_are_taken_up_in_order(tasks: TomlVal, item: TomlVal, rest: Seq<TomlVal>)
    ensures
        run_step(tasks, RunView { current: None, pending: seq![item] + rest }, 0) == match item {
            TomlVal::Text(name) => (
                RunView { current: Some((name, seq![])), pending: rest },
                StepView::Announce(name),
            ),
            _ => (
                RunView { current: None, pending: seq![] },
                StepView::Fail(PoeErrorView::ItemNotText),
            ),
        },
        run_step(tasks, RunView { current: None, pending: seq![] }, 0) == (
            RunView { current: None, pending: seq![] },
            StepView::Finish(0),
        ),
{
    assert((seq![item] + rest).drop_first() =~= rest);
}

/// A sequence of command tasks runs their commands in order, up to the first that fails, whose
/// exit code is that of the whole; if none fails, all are run and the whole succeeds.
pub proof fn law_a_sequence_stops_at_the_first_failure(
    tasks: TomlVal,
    names: Seq<Seq<char>>,
    commands: Seq<Seq<char>>,
    codes: spec_fn(Seq<Seq<char>>) -> Option<i32>,
    done: Seq<Seq<char>>,
    depth: nat,
    n: nat,
)
    requires
        names.len() == commands.len(),
        forall|i: int|
            0 <= i < names.len() ==> plan_of(tasks, #[trigger] names[i]) == PlanView::Command(
                commands[i],
            ),
        n <= commands.len(),
        forall|k: int| 0 < k <= n ==> codes(done + #[trigger] commands.take(k)) == Some(0i32),
    ensures
        ({
            let items = names.map_values(|name: Seq<char>| TomlVal::Text(name));
            let record = items_record(tasks, items, codes, done, depth);
            if n == commands.len() {
                record == Some((done + commands, RunEnd::Exit(0)))
            } else {
                let run = done + commands.take((n + 1) as int);
                match codes(run) {
                    Some(code) => code != 0 ==> record == Some((run, RunEnd::Exit(code))),
                    None => record == Some((run, RunEnd::NotStarted)),
                }
            }
        }),
    decreases names.len(),
{
    let items = names.map_values(|name: Seq<char>| TomlVal::Text(name));
    if names.len() == 0 {
        assert(done + commands =~= done);
    } else {
        let next = done.push(commands[0]);
        reveal_with_fuel(items_record, 2);
        reveal_with_fuel(task_record, 2);
        assert(items.len() == names.len());
        assert(plan_of(tasks, names[0]) == PlanView::Command(commands[0]));
        assert(with_arguments(commands[0], seq![]) == commands[0]);
        assert(done + commands.take(1) =~= next);
        assert(items[0] == TomlVal::Text(names[0]));
        if n > 0 {
            let others = commands.drop_first();
            assert forall|k: int| 0 < k <= n - 1 implies codes(next + #[trigger] others.take(k))
                == Some(0i32) by {
                assert(next + others.take(k) =~= done + commands.take(k + 1));
            }
            assert forall|i: int| 0 <= i < names.drop_first().len() implies plan_of(
                tasks,
                #[trigger] names.drop_first()[i],
            ) == PlanView::Command(others[i]) by {
                assert(names.drop_first()[i] == names[i + 1]);
            }
            law_a_sequence_stops_at_the_first_failure(
                tasks,
                names.drop_first(),
                others,
                codes,
                next,
                depth,
                (n - 1) as nat,
            );
            assert(items.drop_first() =~= names.drop_first().map_values(
                |name: Seq<char>| TomlVal::Text(name),
            ));
            assert(next + others =~= done + commands);
            if n < commands.len() {
                assert(next + others.take(n as int) =~= done + commands.take(n + 1int));
            }
        }
    }
}

// How a command is started, and what is said of it.

/// A known command is handed to this program word for word; of any other the first word is the
/// tool, and the words behind it are its arguments.
pub proof fn law_a_launch_takes_the_words(tool: Seq<char>, c: char, rest: Seq<char>)
    requires
        is_word(tool),
        white_space(c),
    ensures
        launch_of(tool + seq![c] + rest, true) == LaunchView::Rtk(seq![tool] + words(rest)),
        launch_of(tool + seq![c] + rest, false) == LaunchView::Passthrough(tool, words(rest)),
        launch_of(tool, true) == LaunchView::Rtk(seq![tool]),
        launch_of(tool, false) == LaunchView::Passthrough(tool, seq![]),
        launch_of(seq![c] + rest, true) == launch_of(rest, true),
        launch_of(seq![c] + rest, false) == launch_of(rest, false),
{
    law_white_space_separates_words(tool, c, rest);
    law_a_word_stays_whole(tool);
    assert((seq![tool] + words(rest)).drop_first() =~= words(rest));
    assert(seq![tool].drop_first() =~= seq![]);
    let none: Seq<char> = seq![];
    law_white_space_separates_words(none, c, rest);
    law_words_are_the_text(none);
    assert(none + seq![c] + rest =~= seq![c] + rest);
    assert(words(none) + words(rest) =~= words(rest));
}

/// The registry is asked about the command between its white space, and a talkative run names
/// that same text. Nothing is excluded and no prefix is looked through.
pub proof fn law_the_question_is_the_trimmed_command(
    before: Seq<char>,
    cmd: Seq<char>,
    behind: Seq<char>,
)
    requires
        forall|i: int| 0 <= i < before.len() ==> white_space(#[trigger] before[i]),
        forall|i: int| 0 <= i < behind.len() ==> white_space(#[trigger] behind[i]),
        cmd.len() > 0,
        !white_space(cmd[0]),
        !white_space(cmd.last()),
    ensures
        question_of(before + cmd + behind) == (QuestionView {
            command: cmd,
            excluded: seq![],
            transparent_prefixes: seq![],
        }),
        launch_notice(before + cmd + behind, true) == "poe: routing through rtk: "@ + cmd,
        launch_notice(before + cmd + behind, false)
            == "poe: no RTK filter for command (running passthrough): "@ + cmd,
{
    law_trimming_takes_the_ends(before, cmd, behind);
}

/// A talkative run names the sub-task that it begins and the command that it runs.
pub proof fn law_steps_are_named(name: Seq<char>, command: Seq<char>, code: i32, error: PoeErrorView)
    ensures
        step_notice(StepView::Announce(name)) == Some("poe: running sub-task '"@ + name + "'"@),
        step_notice(StepView::Run(command)) == Some("poe: "@ + command),
        step_notice(StepView::Finish(code)) is None,
        step_notice(StepView::Fail(error)) is None,
{
}

/// Each error has its message, and the message of a task that is not found or not supported
/// names the task.
pub proof fn law_errors_have_their_messages(name: Seq<char>)
    ensures
        PoeErrorView::Usage.message() == "Usage: rtk poe <task> [args...]"@,
        PoeErrorView::NoPyproject.message() == "No pyproject.toml found in current directory"@,
        PoeErrorView::BadToml(name).message() == "Failed to parse pyproject.toml"@,
        PoeErrorView::NoTasks.message() == "No [tool.poe.tasks] section found in pyproject.toml"@,
        PoeErrorView::TaskNotFound(name).message() == "Poe task '"@ + name
            + "' not found in pyproject.toml"@,
        PoeErrorView::ItemNotText.message() == "Sequence items must be strings"@,
        PoeErrorView::Unsupported(name).message() == "Task '"@ + name
            + "': only cmd and sequence tasks are supported (ref/script/shell not supported)"@,
        PoeErrorView::EmptyCommand.message() == "Empty command in poe task"@,
{
}

// What the values of this module say.

/// Errors, steps, launches and questions say what they hold.
pub proof fn law_steps_say_what_they_hold(
    error: PoeError,
    step: PoeStep,
    launch: Launch,
    question: RegistryQuestion,
)
    ensures
        error@ == match error {
            PoeError::Usage => PoeErrorView::Usage,
            PoeError::NoPyproject => PoeErrorView::NoPyproject,
            PoeError::BadToml(complaint) => PoeErrorView::BadToml(complaint@),
            PoeError::NoTasks => PoeErrorView::NoTasks,
            PoeError::TaskNotFound(name) => PoeErrorView::TaskNotFound(name@),
            PoeError::ItemNotText => PoeErrorView::ItemNotText,
            PoeError::Unsupported(name) => PoeErrorView::Unsupported(name@),
            PoeError::EmptyCommand => PoeErrorView::EmptyCommand,
        },
        step@ == match step {
            PoeStep::Announce { name } => StepView::Announce(name@),
            PoeStep::Run { command } => StepView::Run(command@),
            PoeStep::Finish { code } => StepView::Finish(code),
            PoeStep::Fail { error } => StepView::Fail(error@),
        },
        launch@ == match launch {
            Launch::Rtk { args } => LaunchView::Rtk(texts(args@)),
            Launch::Passthrough { tool, args } => LaunchView::Passthrough(tool@, texts(args@)),
        },
        question@.command == question.command@,
        question@.excluded == texts(question.excluded@),
        question@.transparent_prefixes == texts(question.transparent_prefixes@),
{
}

/// A plan says what it holds, a sequence its items one by one.
pub proof fn law_a_plan_says_what_it_holds(plan: Plan)
    ensures
        match plan {
            Plan::Sequence(items) => {
                &&& plan@ matches PlanView::Sequence(said)
                &&& said.len() == items@.len()
                &&& forall|i: int| 0 <= i < items@.len() ==> #[trigger] said[i] == items@[i]@
            },
            Plan::Command(cmd) => plan@ == PlanView::Command(cmd@),
            Plan::Error(error) => plan@ == PlanView::Error(error@),
        },
{
    if let Plan::Sequence(items) = plan {
        lemma_list_model(items@);
    }
}

} // verus!
