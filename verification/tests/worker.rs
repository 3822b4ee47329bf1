use bountyhub_runner::client::{LogDestination, TimelineRequest, TimelineRequestStepOutcome, TimelineRequestStepState};
use bountyhub_runner::jobengine::{Config, JobMeta, ProjectMeta, WorkflowMeta, WorkflowRevisionMeta};
use bountyhub_runner::engine::{
    native_has_diff, native_is_available, CelInput, CelKey, CelValue, EngineError, JobEngine, TemplStep,
};
use bountyhub_runner::worker::{
    command_line, dir_step_report, join_path, upload_failed, upload_skip_report, CommandStep, CondDecision,
    CondOutcome, CondValue, ExecutionContext, StepError, StepFault, uuid_string,
};
use std::collections::BTreeMap;

// The program evaluates expressions with `cellang` and hands the outcomes to
// the library; these tests do the same.

fn cel_input(v: &CelInput) -> cellang::Value {
    match v {
        CelInput::Bool(b) => cellang::Value::Bool(*b),
        CelInput::String(s) => cellang::Value::String(s.clone()),
        CelInput::List(items) => cellang::Value::List(cellang::ListValue::from(
            items.iter().map(cel_input).collect::<Vec<cellang::Value>>(),
        )),
        CelInput::Entries(es) => cellang::Value::Map(cellang::MapValue::from(
            es.iter()
                .map(|(k, x)| (k.clone(), cel_input(x)))
                .collect::<std::collections::BTreeMap<String, cellang::Value>>(),
        )),
    }
}

fn cel_value(v: &cellang::Value) -> CelValue {
    match v.clone() {
        cellang::Value::Null => CelValue::Null,
        cellang::Value::Bool(b) => CelValue::Bool(b),
        cellang::Value::Int(i) => CelValue::Int(i),
        cellang::Value::Uint(u) => CelValue::Uint(u),
        cellang::Value::Double(d) => CelValue::Double(d.to_string()),
        cellang::Value::String(s) => CelValue::String(s),
        cellang::Value::Bytes(b) => CelValue::Bytes(b),
        cellang::Value::Timestamp(t) => CelValue::Timestamp(t.to_string()),
        cellang::Value::Duration(d) => CelValue::Duration(d.to_string()),
        cellang::Value::List(l) => CelValue::List(l.iter().map(cel_value).collect()),
        cellang::Value::Map(m) => CelValue::Entries(
            m.iter()
                .map(|(k, x)| {
                    let key = match k.clone() {
                        cellang::Key::Bool(b) => CelKey::Bool(b),
                        cellang::Key::Int(i) => CelKey::Int(i),
                        cellang::Key::Uint(u) => CelKey::Uint(u),
                        cellang::Key::String(s) => CelKey::String(s),
                        cellang::Key::Bytes(b) => CelKey::Bytes(b),
                    };
                    (key, cel_value(x))
                })
                .collect(),
        ),
        cellang::Value::Struct(_) => CelValue::Struct,
    }
}

fn install<F>(b: &mut cellang::RuntimeBuilder, name: &str, params: usize, f: F)
where
    F: Fn(Vec<CelValue>, Vec<(String, CelValue)>) -> Result<bool, String> + Send + Sync + 'static,
{
    let mut decl = cellang::FunctionDecl::new(name);
    let overload = cellang::OverloadDecl::new(name, vec![cellang::Type::String; params], cellang::Type::Bool);
    decl.add_overload(overload.with_receiver(cellang::Type::list(cellang::Type::Dyn))).unwrap();
    b.add_function_decl(decl).unwrap();
    let native: cellang::NativeFunction = std::sync::Arc::new(move |c: &cellang::CallContext<'_>| {
        let vars = c.runtime().variables().iter().map(|(k, x)| (k.clone(), cel_value(x))).collect();
        f(c.args().iter().map(cel_value).collect(), vars)
            .map(cellang::Value::Bool)
            .map_err(cellang::RuntimeError::new)
    });
    b.set_function(name, native).unwrap();
}

fn eval_value(engine: &JobEngine, expr: &str) -> Result<cellang::Value, String> {
    let mut b = cellang::Runtime::builder();
    b.set_variables(engine.vars().iter().map(|(k, v)| (k.clone(), cel_input(v)))).unwrap();
    install(&mut b, "is_available", 0, native_is_available);
    install(&mut b, "has_diff", 1, native_has_diff);
    b.build().eval(expr).map_err(|e| e.to_string())
}

fn eval_expr(engine: &JobEngine, expr: &str) -> Result<CelValue, EngineError> {
    eval_value(engine, expr).map(|v| cel_value(&v)).map_err(EngineError::Eval)
}

fn eval_templ(engine: &JobEngine, s: &str) -> Result<String, EngineError> {
    let mut outcomes: Vec<Result<CelValue, String>> = Vec::new();
    loop {
        match engine.eval_templ(s, &outcomes) {
            TemplStep::Eval(e) => outcomes.push(eval_value(engine, &e).map(|v| cel_value(&v))),
            TemplStep::Done(r) => return r,
        }
    }
}

fn cond_outcome(engine: &JobEngine, cond: &str) -> CondOutcome {
    match eval_value(engine, cond) {
        Ok(v) => CondOutcome::Value(cel_value(&v), format!("{v:?}")),
        Err(e) => CondOutcome::Failed(format!("{e:?}")),
    }
}

fn decide(s: &CommandStep, ctx: &ExecutionContext) -> (TimelineRequest, CondDecision, Option<String>) {
    s.should_run(cond_outcome(ctx.engine(), &s.cond))
}

fn context_for(workdir: &str, env: &Vec<(String, String)>, cfg: Config) -> ExecutionContext {
    assert!(cfg.keyed());
    let engine = JobEngine::new(&cfg);
    let values: Vec<Option<String>> = cfg.env.iter().map(|(_, t)| eval_templ(&engine, t).ok()).collect();
    ExecutionContext::new(workdir.to_string(), env, cfg, &values)
}

fn new_test_job_config(id: u128, env: Vec<(&str, &str)>) -> Config {
    Config {
        id,
        name: "example".to_string(),
        vars: vec![],
        secrets: vec![],
        env: env
            .into_iter()
            .map(|(k, v)| (k.to_string(), v.to_string()))
            .collect::<BTreeMap<String, String>>()
            .into_iter()
            .collect(),
        inputs: None,
        scans: vec![],
        project: ProjectMeta { id: 0x0191_0000_0000_7000_8000_0000_0000_0001 },
        workflow: WorkflowMeta { id: 0x0191_0000_0000_7000_8000_0000_0000_0002 },
        revision: WorkflowRevisionMeta { id: 0x0191_0000_0000_7000_8000_0000_0000_0003 },
    }
}

fn step(shell: &str, allow_failed: bool) -> CommandStep {
    CommandStep {
        index: 1,
        cond: "ok".to_string(),
        run: "echo 'test'".to_string(),
        shell: shell.to_string(),
        allow_failed,
    }
}

#[test]
fn test_environment_is_set() {
    let job_id = 0x0191_0000_0000_7000_8000_0000_0000_0004u128;
    let cfg = new_test_job_config(job_id, vec![("WORKFLOW_ENV", "WORKFLOW_ENV")]);
    let project_id = cfg.project.id;
    let workflow_id = cfg.workflow.id;
    let revision_id = cfg.revision.id;
    let ctx = context_for("/tmp",
        &vec![("key".to_string(), "value".to_string())],
        cfg,
    );
    let got = ctx.env().into_iter().collect::<BTreeMap<String, String>>();
    assert_eq!(got.get("BOUNTYHUB_JOB_ID").expect("BOUNTYHUB_JOB_ID").clone(), uuid::Uuid::from_u128(job_id).to_string());
    assert_eq!(got.get("BOUNTYHUB_SCAN_NAME").expect("BOUNTYHUB_JOB_NAME").clone(), "example".to_string());
    assert_eq!(got.get("BOUNTYHUB_PROJECT_ID").expect("BOUNTYHUB_PROJECT_ID").clone(), uuid::Uuid::from_u128(project_id).to_string());
    assert_eq!(got.get("BOUNTYHUB_WORKFLOW_ID").expect("BOUNTYHUB_WORKFLOW_ID").clone(), uuid::Uuid::from_u128(workflow_id).to_string());
    assert_eq!(got.get("BOUNTYHUB_REVISION_ID").expect("BOUNTYHUB_REVISION_ID").clone(), uuid::Uuid::from_u128(revision_id).to_string());
    assert_eq!(got.get("WORKFLOW_ENV").expect("WORKFLOW_ENV").clone(), "WORKFLOW_ENV".to_string());
}

#[test]
fn environment_order_and_failed_templates() {
    let cfg = new_test_job_config(7, vec![("A", "${{ bad }}"), ("B", "b")]);
    let ctx = context_for("work/", &vec![], cfg);
    let env = ctx.env();
    let keys: Vec<&str> = env.iter().map(|(k, _)| k.as_str()).collect();
    assert_eq!(
        keys,
        vec!["BOUNTYHUB_PROJECT_ID", "BOUNTYHUB_WORKFLOW_ID", "BOUNTYHUB_REVISION_ID", "BOUNTYHUB_JOB_ID", "BOUNTYHUB_SCAN_NAME", "B"]
    );
    assert_eq!(ctx.job_dir(), &format!("work/{}", uuid::Uuid::from_u128(7)));
    assert_eq!(ctx.workdir(), "work/");
    assert_eq!(ctx.job_id(), 7);
}

#[test]
fn set_ok_never_recovers() {
    let mut ctx = context_for("w", &vec![], new_test_job_config(1, vec![]));
    assert!(ctx.ok());
    ctx.set_ok(true);
    assert!(ctx.ok());
    ctx.set_ok(false);
    assert!(!ctx.ok());
    ctx.set_ok(true);
    assert!(!ctx.ok());
}

#[test]
fn test_command_step_fail_state() {
    assert!(matches!(
        step("bash -x", true).soft_fail_state(),
        TimelineRequestStepState::Failed { outcome: TimelineRequestStepOutcome::Succeeded }
    ));
    assert!(matches!(
        step("bash -x", false).soft_fail_state(),
        TimelineRequestStepState::Failed { outcome: TimelineRequestStepOutcome::Failed }
    ));
}

#[test]
fn test_command_step_split_shell_empty() {
    let v = step("", true).split_shell();
    assert!(v.is_err(), "expected error, got {v:?}");
    assert_eq!(v, Err(StepFault::EmptyShell));
}

#[test]
fn test_command_step_split_shell_ok() {
    let v = step("bash -x", true).split_shell().expect("want ok");
    assert_eq!(v.len(), 2);
    assert_eq!(v[0], "bash");
    assert_eq!(v[1], "-x");
}

#[test]
fn split_shell_broken_quoting() {
    assert_eq!(step("bash -c 'unterminated", false).split_shell(), Err(StepFault::ShellSplit));
    let v = step("bash -c 'a b'", false).split_shell().unwrap();
    assert_eq!(v, vec!["bash", "-c", "a b"]);
}

fn new_context() -> ExecutionContext {
    context_for("/tmp", &vec![], new_test_job_config(9, vec![]))
}

#[test]
fn test_command_step_should_run_skipped() {
    let mut context = new_context();
    context.set_ok(false);
    let (req, decision, log) = decide(&step("bash -x", false), &context);
    assert_eq!(req.index, 1);
    assert!(matches!(req.state, TimelineRequestStepState::Skipped));
    assert_eq!(decision, CondDecision::Skip);
    assert!(log.is_none());
}

#[test]
fn test_command_step_should_run_running() {
    let context = new_context();
    let (req, decision, log) = decide(&step("bash -x", false), &context);
    assert_eq!(req.index, 1);
    assert!(matches!(req.state, TimelineRequestStepState::Running));
    assert_eq!(decision, CondDecision::Run);
    assert!(log.is_none());
}

#[test]
fn test_command_step_should_run_eval_error() {
    let context = new_context();
    let mut s = step("bash -x", false);
    s.cond = "notexist".to_string();
    let (req, decision, log) = decide(&s, &context);
    assert_eq!(req.index, 1);
    assert!(matches!(
        req.state,
        TimelineRequestStepState::Failed { outcome: TimelineRequestStepOutcome::Failed }
    ));
    assert_eq!(decision, CondDecision::Fail);
    assert!(log.expect("a message for the error log").starts_with("Failed to evaluate the if condition 'notexist'"));
}

#[test]
fn condition_that_is_not_boolean_fails_the_step() {
    let context = new_context();
    let mut s = step("sh", false);
    s.cond = "name".to_string();
    let (req, decision, log) = decide(&s, &context);
    assert_eq!(decision, CondDecision::Fail);
    assert_eq!(req.state, TimelineRequestStepState::Failed { outcome: TimelineRequestStepOutcome::Failed });
    assert!(log.unwrap().starts_with("Condition should evaluate to boolean, got "));
    assert_eq!(step("sh", false).condition(CondValue::NotBool).1, CondDecision::Fail);
    assert_eq!(step("sh", false).condition(CondValue::Bool(true)).1, CondDecision::Run);
}

fn setup_config() -> Config {
    let mut cfg = new_test_job_config(0x0191_0000_0000_7000_8000_0000_0000_0010, vec![]);
    cfg.scans = vec![(
        "example".to_string(),
        vec![JobMeta { id: 0x0191_0000_0000_7000_8000_0000_0000_0005, state: "succeeded".to_string(), artifacts: vec![] }],
    )];
    cfg.vars = vec![("key".to_string(), "value".to_string())];
    cfg.secrets = vec![("key".to_string(), "value".to_string())];
    cfg
}

#[test]
fn test_eval_from_setup() {
    let job_config = setup_config();
    let ctx = context_for("/tmp",
        &vec![("key".to_string(), "value".to_string())],
        job_config.clone(),
    );

    assert_eq!(eval_expr(ctx.engine(), "1 + 1").unwrap(), CelValue::Int(2));
    assert_eq!(
        eval_expr(ctx.engine(), "scans.example[0].id").unwrap(),
        CelValue::String(uuid::Uuid::from_u128(job_config.scans[0].1[0].id).to_string())
    );
    assert_eq!(
        eval_expr(ctx.engine(), "project.id").unwrap(),
        CelValue::String(uuid::Uuid::from_u128(job_config.project.id).to_string())
    );
    assert_eq!(
        eval_expr(ctx.engine(), "workflow.id").unwrap(),
        CelValue::String(uuid::Uuid::from_u128(job_config.workflow.id).to_string())
    );
    assert_eq!(
        eval_expr(ctx.engine(), "revision.id").unwrap(),
        CelValue::String(uuid::Uuid::from_u128(job_config.revision.id).to_string())
    );
    assert_eq!(eval_expr(ctx.engine(), "vars.key").unwrap(), CelValue::String("value".to_string()));
    assert_eq!(eval_expr(ctx.engine(), "name").unwrap(), CelValue::String(job_config.name.clone()));
    assert_eq!(
        eval_expr(ctx.engine(), "id").unwrap(),
        CelValue::String(uuid::Uuid::from_u128(job_config.id).to_string())
    );
}

#[test]
fn test_eval_set_ok() {
    let job_config = setup_config();
    let mut ctx = context_for("/tmp",
        &vec![("key".to_string(), "value".to_string())],
        job_config,
    );

    assert_eq!(eval_expr(ctx.engine(), "ok").unwrap(), CelValue::Bool(true));

    ctx.set_ok(false);

    assert_eq!(eval_expr(ctx.engine(), "ok").unwrap(), CelValue::Bool(false));
}

#[test]
fn workflow_env_is_rendered_against_the_job() {
    let mut cfg = new_test_job_config(3, vec![("GREETING", "hello ${{ vars.who }}"), ("BROKEN", "${{ vars.who"), ("MISSING", "${{ vars.nobody }}")]);
    cfg.vars = vec![("who".to_string(), "world".to_string())];
    let ctx = context_for("w", &vec![], cfg);
    let env = ctx.env().into_iter().collect::<BTreeMap<String, String>>();
    assert_eq!(env.get("GREETING").map(String::as_str), Some("hello world"));
    assert!(!env.contains_key("BROKEN"));
    assert!(!env.contains_key("MISSING"));
    assert_eq!(eval_templ(ctx.engine(), "${{ vars.who }}!").unwrap(), "world!");
}

#[test]
fn context_from_evaluated_values() {
    let cfg = new_test_job_config(7, vec![("A", "${{ bad }}"), ("B", "b")]);
    let ctx = ExecutionContext::new("work/".to_string(), &vec![], cfg, &vec![None, Some("x".to_string())]);
    let env = ctx.env();
    assert_eq!(env.last().unwrap(), &("B".to_string(), "x".to_string()));
    assert_eq!(env.len(), 6);
}

#[test]
fn exit_codes() {
    let s = step("sh", false);
    let (req, ok) = s.exit_outcome(Some(0));
    assert!(ok);
    assert_eq!(req.state, TimelineRequestStepState::Succeeded);
    let (req, ok) = s.exit_outcome(Some(1));
    assert!(!ok);
    assert_eq!(req.state, TimelineRequestStepState::Failed { outcome: TimelineRequestStepOutcome::Failed });
    let (req, ok) = step("sh", true).exit_outcome(None);
    assert!(ok);
    assert_eq!(req.state, TimelineRequestStepState::Failed { outcome: TimelineRequestStepOutcome::Succeeded });
    let (req, ok) = s.cancelled_outcome();
    assert!(!ok);
    assert_eq!(req.state, TimelineRequestStepState::Skipped);
    assert_eq!(step("sh", true).broken_outcome().1, true);
}

#[test]
fn command_line_appends_script() {
    let (program, args) = command_line(vec!["bash".to_string(), "--verbose".to_string()], "script".to_string());
    assert_eq!(program, "bash");
    assert_eq!(args, vec!["--verbose", "script"]);
}

#[test]
fn dir_and_upload_reports() {
    let r = dir_step_report(true);
    assert_eq!(r.state, TimelineRequestStepState::Succeeded);
    assert_eq!(r.log, LogDestination::Stdout);
    assert!(r.ok);
    let r = dir_step_report(false);
    assert_eq!(r.state, TimelineRequestStepState::Failed { outcome: TimelineRequestStepOutcome::Failed });
    assert_eq!(r.log, LogDestination::Stderr);
    assert!(!r.ok);
    assert!(!upload_failed().ok);
}

#[test]
fn join_and_uuid_text() {
    assert_eq!(join_path("a", "b"), "a/b");
    assert_eq!(join_path("a/", "b"), "a/b");
    assert_eq!(join_path("", "b"), "b");
    let ctx = context_for("w", &vec![], new_test_job_config(0x0123_4567_89ab_cdef_0123_4567_89ab_cdef, vec![]));
    assert_eq!(ctx.job_dir(), "w/01234567-89ab-cdef-0123-456789abcdef");
}

#[test]
fn step_error_reads_as_step_error() {
    assert_eq!(StepError.to_string(), "Step error");
}

#[test]
fn uuid_text_is_the_hyphenated_lower_hex_form() {
    for id in [0u128, 1, u128::MAX, 0x0123_4567_89ab_cdef_fedc_ba98_7654_3210] {
        assert_eq!(uuid_string(id), uuid::Uuid::from_u128(id).to_string());
    }
    assert_eq!(uuid_string(0xa1), "00000000-0000-0000-0000-0000000000a1");
}

#[test]
fn skipped_upload_posts_skipped_and_keeps_the_job_ok() {
    let (req, ok) = upload_skip_report(4);
    assert_eq!(req.index, 4);
    assert_eq!(req.state, TimelineRequestStepState::Skipped);
    assert!(ok);
}

#[test]
fn shell_split_faults_fail_the_step() {
    let s = step("", true);
    assert_eq!(s.split_shell(), Err(StepFault::EmptyShell));
    let (req, msg) = s.split_fault_report(StepFault::EmptyShell);
    assert_eq!(req.index, 1);
    assert_eq!(req.state, TimelineRequestStepState::Failed { outcome: TimelineRequestStepOutcome::Failed });
    assert_eq!(msg, "Shell split is empty");
    let s = step("bash 'open", true);
    let (req, msg) = s.split_fault_report(StepFault::ShellSplit);
    assert_eq!(req.state, TimelineRequestStepState::Failed { outcome: TimelineRequestStepOutcome::Failed });
    assert_eq!(msg, "Failed to split the shell bash 'open");
}

#[test]
fn condition_messages_quote_what_the_evaluator_printed() {
    let s = step("sh", false);
    let (_, d, m) = s.should_run(CondOutcome::Value(CelValue::Int(3), "Int(3)".to_string()));
    assert_eq!(d, CondDecision::Fail);
    assert_eq!(m.unwrap(), "Condition should evaluate to boolean, got Int(3); cond 'ok'");
    let (_, d, m) = s.should_run(CondOutcome::Failed("boom".to_string()));
    assert_eq!(d, CondDecision::Fail);
    assert_eq!(m.unwrap(), "Failed to evaluate the if condition 'ok': 'boom'");
    let (req, d, m) = s.should_run(CondOutcome::Value(CelValue::Bool(false), "Bool(false)".to_string()));
    assert_eq!((req.state, d, m), (TimelineRequestStepState::Skipped, CondDecision::Skip, None));
}

#[test]
fn configuration_maps_must_be_in_key_order() {
    let mut cfg = new_test_job_config(1, vec![("A", "a"), ("B", "b")]);
    assert!(cfg.keyed());
    cfg.vars = vec![("b".to_string(), "1".to_string()), ("a".to_string(), "2".to_string())];
    assert!(!cfg.keyed());
    cfg.vars = vec![("a".to_string(), "1".to_string()), ("a".to_string(), "2".to_string())];
    assert!(!cfg.keyed());
    cfg.vars = vec![("a".to_string(), "1".to_string()), ("ab".to_string(), "2".to_string())];
    assert!(cfg.keyed());
}
