//! The shell worker's execution context and the decisions its steps take
//! on what their commands, files and services reported.
use vstd::prelude::*;
use crate::client::{TimelineRequest, TimelineRequestStepOutcome, TimelineRequestStepState, LogDestination};
use crate::jobengine::{Config, config_keyed};
use crate::engine::{JobEngine, CelInput, CelValue, TemplStep, job_variables, templ_step, with_var};
use crate::templ::parse_spec;
use crate::text::{chars_of, push_char};

verus! {

broadcast use vstd::string::group_string_axioms;

/// The lower-case hexadecimal digit for `d` (below 16).
pub open spec fn hex_char(d: int) -> char {
    if d < 10 {
        (d + 48) as char
    } else {
        (d + 87) as char
    }
}

/// The `j`-th of the 32 hexadecimal digits of `id`, most significant first.
pub open spec fn nibble(id: u128, j: int) -> u128 {
    (id >> ((124 - 4 * j) as u32)) & 15u128
}

/// How many separators come before position `i` of a UUID text.
pub open spec fn dashes_before(i: int) -> int {
    if i <= 8 {
        0
    } else if i <= 13 {
        1
    } else if i <= 18 {
        2
    } else if i <= 23 {
        3
    } else {
        4
    }
}

/// The hyphenated text of a UUID: its 32 lower-case hexadecimal digits,
/// most significant first, in groups of 8, 4, 4, 4 and 12 joined by `-`.
pub open spec fn uuid_text(id: u128) -> Seq<char> {
    Seq::new(36, |i: int|
        if i == 8 || i == 13 || i == 18 || i == 23 {
            '-'
        } else {
            hex_char(nibble(id, i - dashes_before(i)) as int)
        })
}

/// Writes the hyphenated text of a UUID.
pub fn uuid_string(id: u128) -> (r: String)
    ensures
        r@ == uuid_text(id),
{
    let mut out = String::new();
    let mut i: u32 = 0;
    let mut j: u32 = 0;
    while i < 36
        invariant
            i <= 36,
            j as int == i - dashes_before(i as int),
            out@ == uuid_text(id).take(i as int),
        decreases 36 - i,
    {
        let ghost before = out@;
        let c: char = if i == 8 || i == 13 || i == 18 || i == 23 {
            '-'
        } else {
            let sh: u32 = 124 - 4 * j;
            let d: u128 = (id >> sh) & 15u128;
            assert(d < 16) by (bit_vector)
                requires
                    d == (id >> sh) & 15u128,
            ;
            j = j + 1;
            let b: u8 = d as u8;
            if b < 10 {
                (b + 48) as char
            } else {
                (b + 87) as char
            }
        };
        push_char(&mut out, c);
        assert(out@ =~= uuid_text(id).take(i + 1));
        i = i + 1;
    }
    assert(uuid_text(id).take(36) =~= uuid_text(id));
    out
}

/// `base` joined with the relative path `part`, as `Path::join` does for a
/// single relative component: a separator is put between them unless `base`
/// is empty or already ends with one.
pub open spec fn joined(base: Seq<char>, part: Seq<char>) -> Seq<char> {
    if base.len() == 0 {
        part
    } else if base.last() == '/' {
        base + part
    } else {
        base + seq!['/'] + part
    }
}

/// Joins a directory and a relative path component.
pub fn join_path(base: &str, part: &str) -> (r: String)
    ensures
        r@ == joined(base@, part@),
{
    let b = chars_of(base);
    if b.len() == 0 {
        return String::from_str(part);
    }
    let mut out = String::from_str(base);
    if b[b.len() - 1] != '/' {
        push_char(&mut out, '/');
    }
    out.concat(part)
}

/// Environment entries a job's commands get beside the runner's own.
pub open spec fn job_env(cfg_id: u128, name: Seq<char>, project: u128, workflow: u128, revision: u128) -> Seq<(Seq<char>, Seq<char>)> {
    seq![
        ("BOUNTYHUB_PROJECT_ID"@, uuid_text(project)),
        ("BOUNTYHUB_WORKFLOW_ID"@, uuid_text(workflow)),
        ("BOUNTYHUB_REVISION_ID"@, uuid_text(revision)),
        ("BOUNTYHUB_JOB_ID"@, uuid_text(cfg_id)),
        ("BOUNTYHUB_SCAN_NAME"@, name),
    ]
}

/// The workflow variables whose template evaluated, in order, with their
/// values.
pub open spec fn evaluated_env(keys: Seq<(String, String)>, values: Seq<Option<String>>, n: int) -> Seq<(Seq<char>, Seq<char>)>
    decreases n,
{
    if n <= 0 {
        Seq::empty()
    } else {
        let rest = evaluated_env(keys, values, n - 1);
        match values[n - 1] {
            Some(v) => rest.push((keys[n - 1].0@, v@)),
            None => rest,
        }
    }
}

/// Abstract environment.
pub open spec fn env_view(env: Seq<(String, String)>) -> Seq<(Seq<char>, Seq<char>)> {
    env.map_values(|e: (String, String)| (e.0@, e.1@))
}

/// What a job's steps run in: the work directory, the job's own directory
/// below it, the environment of its commands, and whether every step so far
/// went well.
#[derive(Debug)]
pub struct ExecutionContext {
    workdir: String,
    job_dir: String,
    env: Vec<(String, String)>,
    cfg: Config,
    engine: JobEngine,
    ok: bool,
}

impl ExecutionContext {
    pub closed spec fn workdir_view(&self) -> Seq<char> {
        self.workdir@
    }

    pub closed spec fn job_dir_view(&self) -> Seq<char> {
        self.job_dir@
    }

    pub closed spec fn env_seq(&self) -> Seq<(Seq<char>, Seq<char>)> {
        env_view(self.env@)
    }

    pub closed spec fn cfg_view(&self) -> Config {
        self.cfg
    }

    pub closed spec fn ok_view(&self) -> bool {
        self.ok
    }

    /// The variables the job's expressions are evaluated against.
    pub closed spec fn variables(&self) -> Seq<(Seq<char>, CelInput)> {
        self.engine.variables()
    }

    /// Builds the context of a job: the runner's environment, then the job's
    /// ids and scan name, then each workflow variable whose template
    /// rendered, with its value; one that did not is left out.
    /// `env_values[i]` is what the template of `cfg.env[i]` rendered to
    /// against the job's variables, `None` where it failed. The job directory
    /// is the work directory joined with the job id.
    pub fn new(workdir: String, env: &Vec<(String, String)>, cfg: Config, env_values: &Vec<Option<String>>) -> (r: ExecutionContext)
        requires
            env_values@.len() == cfg.env@.len(),
            config_keyed(cfg),
        ensures
            r.workdir_view() == workdir@,
            r.job_dir_view() == joined(workdir@, uuid_text(cfg.id)),
            r.env_seq() == env_view(env@) + job_env(cfg.id, cfg.name@, cfg.project.id, cfg.workflow.id, cfg.revision.id)
                + evaluated_env(cfg.env@, env_values@, cfg.env@.len() as int),
            r.cfg_view() == cfg,
            job_variables(r.variables(), cfg, true),
            r.ok_view(),
    {
        let engine = JobEngine::new(&cfg);
        Self::assemble(workdir, env, cfg, env_values, engine)
    }

    fn assemble(workdir: String, env: &Vec<(String, String)>, cfg: Config, env_values: &Vec<Option<String>>, engine: JobEngine) -> (r: ExecutionContext)
        requires
            env_values@.len() == cfg.env@.len(),
            job_variables(engine.variables(), cfg, true),
        ensures
            r.variables() == engine.variables(),
            r.workdir_view() == workdir@,
            r.job_dir_view() == joined(workdir@, uuid_text(cfg.id)),
            r.env_seq() == env_view(env@) + job_env(cfg.id, cfg.name@, cfg.project.id, cfg.workflow.id, cfg.revision.id)
                + evaluated_env(cfg.env@, env_values@, cfg.env@.len() as int),
            r.cfg_view() == cfg,
            job_variables(r.variables(), cfg, true),
            r.ok_view(),
    {
        let mut all: Vec<(String, String)> = Vec::new();
        let mut i: usize = 0;
        while i < env.len()
            invariant
                i <= env@.len(),
                env_view(all@) == env_view(env@.take(i as int)),
            decreases env@.len() - i,
        {
            let (k, v) = &env[i];
            let ghost prev = all@;
            let kc = k.clone();
            let vc = v.clone();
            all.push((kc, vc));
            assert(env_view(all@) =~= env_view(prev).push((kc@, vc@)));
            assert(env@.take(i + 1) =~= env@.take(i as int).push(env@[i as int]));
            assert(env_view(env@.take(i + 1)) =~= env_view(env@.take(i as int)).push((env@[i as int].0@, env@[i as int].1@)));
            i = i + 1;
        }
        assert(env@.take(env@.len() as int) =~= env@);
        let ghost base = env_view(all@);
        all.push((String::from_str("BOUNTYHUB_PROJECT_ID"), uuid_string(cfg.project.id)));
        all.push((String::from_str("BOUNTYHUB_WORKFLOW_ID"), uuid_string(cfg.workflow.id)));
        all.push((String::from_str("BOUNTYHUB_REVISION_ID"), uuid_string(cfg.revision.id)));
        all.push((String::from_str("BOUNTYHUB_JOB_ID"), uuid_string(cfg.id)));
        all.push((String::from_str("BOUNTYHUB_SCAN_NAME"), cfg.name.clone()));
        let ghost fixed = base + job_env(cfg.id, cfg.name@, cfg.project.id, cfg.workflow.id, cfg.revision.id);
        assert(env_view(all@) =~= fixed);
        let mut j: usize = 0;
        while j < cfg.env.len()
            invariant
                j <= cfg.env@.len(),
                env_values@.len() == cfg.env@.len(),
                env_view(all@) == fixed + evaluated_env(cfg.env@, env_values@, j as int),
            decreases cfg.env@.len() - j,
        {
            match &env_values[j] {
                Some(v) => {
                    let ghost prev = all@;
                    let kc = cfg.env[j].0.clone();
                    let vc = v.clone();
                    all.push((kc, vc));
                    assert(env_view(all@) =~= env_view(prev).push((kc@, vc@)));
                    assert(env_view(all@) =~= fixed + evaluated_env(cfg.env@, env_values@, j + 1));
                },
                None => {},
            }
            j = j + 1;
        }
        let job_dir = join_path(workdir.as_str(), uuid_string(cfg.id).as_str());
        ExecutionContext { workdir, job_dir, env: all, cfg, engine, ok: true }
    }

    /// Whether every step so far went well.
    pub fn ok(&self) -> (r: bool)
        ensures
            r == self.ok_view(),
    {
        self.ok
    }

    pub fn workdir(&self) -> (r: &String)
        ensures
            r@ == self.workdir_view(),
    {
        &self.workdir
    }

    pub fn job_dir(&self) -> (r: &String)
        ensures
            r@ == self.job_dir_view(),
    {
        &self.job_dir
    }

    /// The environment of the job's commands.
    pub fn env(&self) -> (r: Vec<(String, String)>)
        ensures
            env_view(r@) == self.env_seq(),
    {
        let mut out: Vec<(String, String)> = Vec::new();
        let mut i: usize = 0;
        while i < self.env.len()
            invariant
                i <= self.env@.len(),
                env_view(out@) == env_view(self.env@.take(i as int)),
            decreases self.env@.len() - i,
        {
            let (k, v) = &self.env[i];
            let ghost prev = out@;
            let kc = k.clone();
            let vc = v.clone();
            out.push((kc, vc));
            assert(env_view(out@) =~= env_view(prev).push((kc@, vc@)));
            assert(self.env@.take(i + 1) =~= self.env@.take(i as int).push(self.env@[i as int]));
            assert(env_view(self.env@.take(i + 1)) =~= env_view(self.env@.take(i as int)).push((self.env@[i as int].0@, self.env@[i as int].1@)));
            i = i + 1;
        }
        assert(self.env@.take(self.env@.len() as int) =~= self.env@);
        out
    }

    pub fn project_id(&self) -> (r: u128)
        ensures
            r == self.cfg_view().project.id,
    {
        self.cfg.project.id
    }

    pub fn workflow_id(&self) -> (r: u128)
        ensures
            r == self.cfg_view().workflow.id,
    {
        self.cfg.workflow.id
    }

    pub fn revision_id(&self) -> (r: u128)
        ensures
            r == self.cfg_view().revision.id,
    {
        self.cfg.revision.id
    }

    pub fn job_id(&self) -> (r: u128)
        ensures
            r == self.cfg_view().id,
    {
        self.cfg.id
    }

    /// The job's configuration.
    pub fn cfg(&self) -> (r: &Config)
        ensures
            *r == self.cfg_view(),
    {
        &self.cfg
    }

    /// The engine the job's expressions are evaluated with.
    pub fn engine(&self) -> (r: &JobEngine)
        ensures
            r.variables() == self.variables(),
    {
        &self.engine
    }

    /// One step of rendering a template against the job's variables, as
    /// `JobEngine::eval_templ` does it.
    pub fn eval_templ(&self, s: &str, outcomes: &Vec<Result<CelValue, String>>) -> (r: TemplStep)
        ensures
            templ_step(r, s@, outcomes@),
    {
        self.engine.eval_templ(s, outcomes)
    }

    /// Records how a step went. Once a step failed the context stays failed,
    /// and the `ok` variable of its expressions says so.
    pub fn set_ok(&mut self, ok: bool)
        ensures
            final(self).ok_view() == (old(self).ok_view() && ok),
            final(self).variables() == with_var(old(self).variables(), "ok"@, CelInput::Bool(old(self).ok_view() && ok)),
            final(self).workdir_view() == old(self).workdir_view(),
            final(self).job_dir_view() == old(self).job_dir_view(),
            final(self).env_seq() == old(self).env_seq(),
            final(self).cfg_view() == old(self).cfg_view(),
    {
        self.ok = self.ok && ok;
        let now = self.ok;
        self.engine.set_ok(now);
    }
}

/// What a step reports: the state it posts last, where its log line goes,
/// and whether the job goes on as ok.
#[derive(Debug, Clone, Copy, PartialEq, Eq, Structural)]
pub struct StepReport {
    pub state: TimelineRequestStepState,
    pub log: LogDestination,
    pub ok: bool,
}

/// The state a command step posts when it fails: a failure that is allowed
/// counts as succeeded.
pub open spec fn soft_fail(allow_failed: bool) -> TimelineRequestStepState {
    TimelineRequestStepState::Failed {
        outcome: if allow_failed { TimelineRequestStepOutcome::Succeeded } else { TimelineRequestStepOutcome::Failed },
    }
}

/// Report of a setup or teardown step, from whether creating or removing the
/// job directory worked.
pub fn dir_step_report(done: bool) -> (r: StepReport)
    ensures
        r.ok == done,
        r.state == if done {
            TimelineRequestStepState::Succeeded
        } else {
            TimelineRequestStepState::Failed { outcome: TimelineRequestStepOutcome::Failed }
        },
        r.log == if done { LogDestination::Stdout } else { LogDestination::Stderr },
{
    if done {
        StepReport { state: TimelineRequestStepState::Succeeded, log: LogDestination::Stdout, ok: true }
    } else {
        StepReport {
            state: TimelineRequestStepState::Failed { outcome: TimelineRequestStepOutcome::Failed },
            log: LogDestination::Stderr,
            ok: false,
        }
    }
}

/// What a step's condition evaluated to.
#[derive(Debug, Clone, Copy, PartialEq, Eq, Structural)]
pub enum CondValue {
    Bool(bool),
    /// A value that is not a boolean.
    NotBool,
    /// The evaluation failed.
    Failed,
}

/// What evaluating a step's condition gave, with the texts its messages
/// quote: the value with the text `{:?}` writes for the evaluator's value,
/// or the evaluator's error as `{:?}` writes it.
pub enum CondOutcome {
    Value(CelValue, String),
    Failed(String),
}

/// What a condition's evaluation decides: `true` runs the step, `false`
/// skips it, anything else fails it.
pub open spec fn cond_decision(o: CondOutcome) -> CondDecision {
    match o {
        CondOutcome::Value(CelValue::Bool(true), _) => CondDecision::Run,
        CondOutcome::Value(CelValue::Bool(false), _) => CondDecision::Skip,
        _ => CondDecision::Fail,
    }
}

/// The message a step logs for its condition's outcome; none where the
/// condition gave a boolean.
pub open spec fn cond_message(o: CondOutcome, cond: Seq<char>) -> Option<Seq<char>> {
    match o {
        CondOutcome::Value(CelValue::Bool(_), _) => None,
        CondOutcome::Value(_, shown) => Some("Condition should evaluate to boolean, got "@ + shown@ + "; cond '"@ + cond + "'"@),
        CondOutcome::Failed(shown) => Some("Failed to evaluate the if condition '"@ + cond + "': '"@ + shown@ + "'"@),
    }
}

/// What a command step does after its condition was evaluated.
#[derive(Debug, Clone, Copy, PartialEq, Eq, Structural)]
pub enum CondDecision {
    /// Post `Skipped` and leave the job ok.
    Skip,
    /// Post `Running` and run the command.
    Run,
    /// Log the problem, post a failure and fail the job.
    Fail,
}

/// Why a command step failed before its command ran.
#[derive(Debug, Clone, Copy, PartialEq, Eq, Structural)]
pub enum StepFault {
    /// The shell line is empty.
    EmptyShell,
    /// The shell line could not be split into words.
    ShellSplit,
}

/// The error a step reports when it failed.
#[derive(Debug, Clone, Copy, PartialEq, Eq, Structural)]
pub struct StepError;

impl StepError {
    pub fn to_string(&self) -> (r: String)
        ensures
            r@ == "Step error"@,
    {
        String::from_str("Step error")
    }
}

/// A command step of a job.
#[derive(Debug, Clone, PartialEq, Eq)]
pub struct CommandStep {
    pub index: u32,
    pub cond: String,
    pub run: String,
    pub shell: String,
    pub allow_failed: bool,
}

/// What `shlex::split` makes of a line: its words, or `None` where the
/// quoting is broken.
pub uninterp spec fn shlex_words(s: Seq<char>) -> Option<Seq<Seq<char>>>;

/// `shlex::split`; the result is whatever shlex makes of the line, named
/// `shlex_words`.
#[verifier::external_body]
fn shell_words(s: &str) -> (r: Option<Vec<String>>)
    ensures
        match r {
            Some(w) => shlex_words(s@) == Some(w@.map_values(|x: String| x@)),
            None => shlex_words(s@) is None,
        },
{
    shlex::split(s)
}

/// Outcome of splitting a shell line into words.
pub open spec fn split_result(words: Option<Seq<Seq<char>>>) -> Result<Seq<Seq<char>>, StepFault> {
    match words {
        None => Err(StepFault::ShellSplit),
        Some(w) => if w.len() == 0 {
            Err(StepFault::EmptyShell)
        } else {
            Ok(w)
        },
    }
}

impl CommandStep {
    /// State posted when the command failed in some way.
    pub fn soft_fail_state(&self) -> (r: TimelineRequestStepState)
        ensures
            r == soft_fail(self.allow_failed),
    {
        if self.allow_failed {
            TimelineRequestStepState::Failed { outcome: TimelineRequestStepOutcome::Succeeded }
        } else {
            TimelineRequestStepState::Failed { outcome: TimelineRequestStepOutcome::Failed }
        }
    }

    /// What the condition decides: `false` skips the step, `true` runs it,
    /// anything else fails it. Returns the timeline update to post and the
    /// decision.
    pub fn condition(&self, v: CondValue) -> (r: (TimelineRequest, CondDecision))
        ensures
            r.0.index == self.index,
            r.1 == match v {
                CondValue::Bool(false) => CondDecision::Skip,
                CondValue::Bool(true) => CondDecision::Run,
                _ => CondDecision::Fail,
            },
            r.0.state == match v {
                CondValue::Bool(false) => TimelineRequestStepState::Skipped,
                CondValue::Bool(true) => TimelineRequestStepState::Running,
                _ => TimelineRequestStepState::Failed { outcome: TimelineRequestStepOutcome::Failed },
            },
    {
        match v {
            CondValue::Bool(false) => (TimelineRequest { index: self.index, state: TimelineRequestStepState::Skipped }, CondDecision::Skip),
            CondValue::Bool(true) => (TimelineRequest { index: self.index, state: TimelineRequestStepState::Running }, CondDecision::Run),
            _ => (
                TimelineRequest {
                    index: self.index,
                    state: TimelineRequestStepState::Failed { outcome: TimelineRequestStepOutcome::Failed },
                },
                CondDecision::Fail,
            ),
        }
    }

    /// Decides on the step from what its condition evaluated to: `false`
    /// skips the step, `true` runs it; any other value, or a failed
    /// evaluation, fails it, with a message for the step's error log.
    pub fn should_run(&self, outcome: CondOutcome) -> (r: (TimelineRequest, CondDecision, Option<String>))
        ensures
            r.0.index == self.index,
            r.1 == cond_decision(outcome),
            r.1 == CondDecision::Skip <==> r.0.state == TimelineRequestStepState::Skipped,
            r.1 == CondDecision::Run <==> r.0.state == TimelineRequestStepState::Running,
            r.1 == CondDecision::Fail <==> r.0.state == (TimelineRequestStepState::Failed { outcome: TimelineRequestStepOutcome::Failed }),
            match r.2 {
                Some(t) => cond_message(outcome, self.cond@) == Some(t@),
                None => cond_message(outcome, self.cond@) is None,
            },
    {
        match outcome {
            CondOutcome::Value(CelValue::Bool(b), _) => {
                let (t, d) = self.condition(CondValue::Bool(b));
                (t, d, None)
            },
            CondOutcome::Value(_, shown) => {
                let mut msg = String::from_str("Condition should evaluate to boolean, got ");
                msg.append(shown.as_str());
                msg.append("; cond '");
                msg.append(self.cond.as_str());
                msg.append("'");
                let (t, d) = self.condition(CondValue::NotBool);
                (t, d, Some(msg))
            },
            CondOutcome::Failed(shown) => {
                let mut msg = String::from_str("Failed to evaluate the if condition '");
                msg.append(self.cond.as_str());
                msg.append("': '");
                msg.append(shown.as_str());
                msg.append("'");
                let (t, d) = self.condition(CondValue::Failed);
                (t, d, Some(msg))
            },
        }
    }

    /// What a step posts and logs when its shell line does not split into
    /// words: a failure (whether or not failures are allowed) and one line
    /// on the error log.
    pub fn split_fault_report(&self, fault: StepFault) -> (r: (TimelineRequest, String))
        ensures
            r.0 == (TimelineRequest {
                index: self.index,
                state: TimelineRequestStepState::Failed { outcome: TimelineRequestStepOutcome::Failed },
            }),
            r.1@ == match fault {
                StepFault::EmptyShell => "Shell split is empty"@,
                StepFault::ShellSplit => "Failed to split the shell "@ + self.shell@,
            },
    {
        let msg = match fault {
            StepFault::EmptyShell => String::from_str("Shell split is empty"),
            StepFault::ShellSplit => {
                let mut m = String::from_str("Failed to split the shell ");
                m.append(self.shell.as_str());
                m
            },
        };
        (
            TimelineRequest {
                index: self.index,
                state: TimelineRequestStepState::Failed { outcome: TimelineRequestStepOutcome::Failed },
            },
            msg,
        )
    }

    /// Applies the splitting rules to what the splitter made of the shell
    /// line: no words and broken quoting are errors.
    pub fn check_words(words: Option<Vec<String>>) -> (r: Result<Vec<String>, StepFault>)
        ensures
            match r {
                Ok(w) => split_result(match words {
                    Some(x) => Some(x@.map_values(|y: String| y@)),
                    None => None,
                }) == Ok::<Seq<Seq<char>>, StepFault>(w@.map_values(|y: String| y@)),
                Err(e) => split_result(match words {
                    Some(x) => Some(x@.map_values(|y: String| y@)),
                    None => None,
                }) == Err::<Seq<Seq<char>>, StepFault>(e),
            },
    {
        match words {
            None => Err(StepFault::ShellSplit),
            Some(w) => if w.len() == 0 {
                Err(StepFault::EmptyShell)
            } else {
                Ok(w)
            },
        }
    }

    /// Splits the shell line into the program and its leading arguments.
    pub fn split_shell(&self) -> (r: Result<Vec<String>, StepFault>)
        ensures
            match r {
                Ok(w) => split_result(shlex_words(self.shell@)) == Ok::<Seq<Seq<char>>, StepFault>(w@.map_values(|y: String| y@)),
                Err(e) => split_result(shlex_words(self.shell@)) == Err::<Seq<Seq<char>>, StepFault>(e),
            },
    {
        CommandStep::check_words(shell_words(self.shell.as_str()))
    }

    /// Outcome of the finished command from its exit code (`None` when it
    /// was killed by a signal, which counts as exit code 1): the state to
    /// post and whether the job stays ok.
    pub fn exit_outcome(&self, code: Option<i32>) -> (r: (TimelineRequest, bool))
        ensures
            r.0.index == self.index,
            r.0.state == if code == Some(0i32) { TimelineRequestStepState::Succeeded } else { soft_fail(self.allow_failed) },
            r.1 == (code == Some(0i32) || self.allow_failed),
    {
        let ok = match code {
            Some(c) => c == 0,
            None => false,
        };
        let state = if ok {
            TimelineRequestStepState::Succeeded
        } else {
            self.soft_fail_state()
        };
        (TimelineRequest { index: self.index, state }, ok || self.allow_failed)
    }

    /// Outcome when the command could not be started or waited for.
    pub fn broken_outcome(&self) -> (r: (TimelineRequest, bool))
        ensures
            r.0.index == self.index,
            r.0.state == soft_fail(self.allow_failed),
            r.1 == self.allow_failed,
    {
        (TimelineRequest { index: self.index, state: self.soft_fail_state() }, self.allow_failed)
    }

    /// Outcome when the job was cancelled while the command ran: the step is
    /// posted as skipped and the job is no longer ok.
    pub fn cancelled_outcome(&self) -> (r: (TimelineRequest, bool))
        ensures
            r.0.index == self.index,
            r.0.state == TimelineRequestStepState::Skipped,
            !r.1,
    {
        (TimelineRequest { index: self.index, state: TimelineRequestStepState::Skipped }, false)
    }
}

/// The program to start and its arguments: the first word of the shell
/// line, then the other words, then the script's file name.
pub fn command_line(words: Vec<String>, script: String) -> (r: (String, Vec<String>))
    requires
        words@.len() > 0,
    ensures
        r.0 == words@[0],
        r.1@ == words@.subrange(1, words@.len() as int).push(script),
{
    let mut args: Vec<String> = Vec::new();
    let mut i: usize = 1;
    while i < words.len()
        invariant
            1 <= i <= words@.len(),
            args@ == words@.subrange(1, i as int),
        decreases words@.len() - i,
    {
        let w = words[i].clone();
        args.push(w);
        assert(args@ =~= words@.subrange(1, i + 1));
        i = i + 1;
    }
    args.push(script);
    (words[0].clone(), args)
}

/// Whether an upload step runs: it is skipped (posted as skipped, job still
/// ok) when an earlier step failed.
pub fn upload_runs(ctx: &ExecutionContext) -> (r: bool)
    ensures
        r == ctx.ok_view(),
{
    ctx.ok()
}

/// What an upload step does when an earlier step failed: it posts one
/// `Skipped` and the job stays ok; it logs nothing, zips nothing and
/// uploads nothing.
pub fn upload_skip_report(index: u32) -> (r: (TimelineRequest, bool))
    ensures
        r.0 == (TimelineRequest { index, state: TimelineRequestStepState::Skipped }),
        r.1,
{
    (TimelineRequest { index, state: TimelineRequestStepState::Skipped }, true)
}

/// Report of an upload step that could not zip, open or upload its files.
pub fn upload_failed() -> (r: StepReport)
    ensures
        r.state == (TimelineRequestStepState::Failed { outcome: TimelineRequestStepOutcome::Failed }),
        r.log == LogDestination::Stderr,
        !r.ok,
{
    StepReport {
        state: TimelineRequestStepState::Failed { outcome: TimelineRequestStepOutcome::Failed },
        log: LogDestination::Stderr,
        ok: false,
    }
}


/// A worker failed.
#[derive(Debug, Clone, Copy, PartialEq, Eq, Structural)]
pub struct WorkerError;

/// Running a job's steps failed.
#[derive(Debug, Clone, Copy, PartialEq, Eq, Structural)]
pub struct ExecutionError;

/// The job's context was cancelled.
#[derive(Debug, Clone, Copy, PartialEq, Eq, Structural)]
pub struct ContextCancelledError;

impl WorkerError {
    pub fn to_string(&self) -> (r: String)
        ensures
            r@ == "Worker error"@,
    {
        String::from_str("Worker error")
    }
}

impl ExecutionError {
    pub fn to_string(&self) -> (r: String)
        ensures
            r@ == "Execution error"@,
    {
        String::from_str("Execution error")
    }
}

impl ContextCancelledError {
    pub fn to_string(&self) -> (r: String)
        ensures
            r@ == "Context cancelled"@,
    {
        String::from_str("Context cancelled")
    }
}

/// The state of a context after steps with these results, one `set_ok`
/// each.
pub open spec fn ok_after(start: bool, results: Seq<bool>) -> bool
    decreases results.len(),
{
    if results.len() == 0 {
        start
    } else {
        ok_after(start, results.drop_last()) && results.last()
    }
}

/// Law: after a sequence of steps the context is ok exactly when it was ok
/// before and every step went well.
pub proof fn law_ok_is_conjunction(start: bool, results: Seq<bool>)
    ensures
        ok_after(start, results) == (start && forall|i: int| 0 <= i < results.len() ==> results[i]),
    decreases results.len(),
{
    if results.len() > 0 {
        law_ok_is_conjunction(start, results.drop_last());
        assert forall|i: int| 0 <= i < results.len() - 1 implies results.drop_last()[i] == results[i] by {}
    }
}

} // verus!
