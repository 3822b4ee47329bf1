use bountyhub_runner::jobengine::{
    has_diff, is_available, render, ArtifactMeta, Config, EvalError, JobMeta, ProjectMeta,
    WorkflowMeta, WorkflowRevisionMeta,
};
use bountyhub_runner::engine::{
    native_has_diff, native_is_available, value_text, CelInput, CelKey, CelValue, EngineError, JobEngine,
    TemplStep,
};
use bountyhub_runner::jobengine::InputValue;
use bountyhub_runner::templ::Template;

// The program evaluates expressions with `cellang` and hands the outcomes to
// the library; these tests do the same.

fn cel_input(v: &CelInput) -> cellang::Value {
    match v {
        CelInput::Bool(b) => cellang::Value::Bool(*b),
        CelInput::String(s) => cellang::Value::String(s.clone()),
        CelInput::List(items) => cellang::Value::List(cellang::ListValue::from(
            items.iter().map(cel_input).collect::<Vec<cellang::Value>>(),
        )),
        CelInput::Entries(es) => cellang::Value::Map(cellang::MapValue::from(
            es.iter()
                .map(|(k, x)| (k.clone(), cel_input(x)))
                .collect::<std::collections::BTreeMap<String, cellang::Value>>(),
        )),
    }
}

fn cel_value(v: &cellang::Value) -> CelValue {
    match v.clone() {
        cellang::Value::Null => CelValue::Null,
        cellang::Value::Bool(b) => CelValue::Bool(b),
        cellang::Value::Int(i) => CelValue::Int(i),
        cellang::Value::Uint(u) => CelValue::Uint(u),
        cellang::Value::Double(d) => CelValue::Double(d.to_string()),
        cellang::Value::String(s) => CelValue::String(s),
        cellang::Value::Bytes(b) => CelValue::Bytes(b),
        cellang::Value::Timestamp(t) => CelValue::Timestamp(t.to_string()),
        cellang::Value::Duration(d) => CelValue::Duration(d.to_string()),
        cellang::Value::List(l) => CelValue::List(l.iter().map(cel_value).collect()),
        cellang::Value::Map(m) => CelValue::Entries(
            m.iter()
                .map(|(k, x)| {
                    let key = match k.clone() {
                        cellang::Key::Bool(b) => CelKey::Bool(b),
                        cellang::Key::Int(i) => CelKey::Int(i),
                        cellang::Key::Uint(u) => CelKey::Uint(u),
                        cellang::Key::String(s) => CelKey::String(s),
                        cellang::Key::Bytes(b) => CelKey::Bytes(b),
                    };
                    (key, cel_value(x))
                })
                .collect(),
        ),
        cellang::Value::Struct(_) => CelValue::Struct,
    }
}

fn install<F>(b: &mut cellang::RuntimeBuilder, name: &str, params: usize, f: F)
where
    F: Fn(Vec<CelValue>, Vec<(String, CelValue)>) -> Result<bool, String> + Send + Sync + 'static,
{
    let mut decl = cellang::FunctionDecl::new(name);
    let overload = cellang::OverloadDecl::new(name, vec![cellang::Type::String; params], cellang::Type::Bool);
    decl.add_overload(overload.with_receiver(cellang::Type::list(cellang::Type::Dyn))).unwrap();
    b.add_function_decl(decl).unwrap();
    let native: cellang::NativeFunction = std::sync::Arc::new(move |c: &cellang::CallContext<'_>| {
        let vars = c.runtime().variables().iter().map(|(k, x)| (k.clone(), cel_value(x))).collect();
        f(c.args().iter().map(cel_value).collect(), vars)
            .map(cellang::Value::Bool)
            .map_err(cellang::RuntimeError::new)
    });
    b.set_function(name, native).unwrap();
}

fn eval_value(engine: &JobEngine, expr: &str) -> Result<cellang::Value, String> {
    let mut b = cellang::Runtime::builder();
    b.set_variables(engine.vars().iter().map(|(k, v)| (k.clone(), cel_input(v)))).unwrap();
    install(&mut b, "is_available", 0, native_is_available);
    install(&mut b, "has_diff", 1, native_has_diff);
    b.build().eval(expr).map_err(|e| e.to_string())
}

fn eval_expr(engine: &JobEngine, expr: &str) -> Result<CelValue, EngineError> {
    eval_value(engine, expr).map(|v| cel_value(&v)).map_err(EngineError::Eval)
}

fn eval_templ(engine: &JobEngine, s: &str) -> Result<String, EngineError> {
    let mut outcomes: Vec<Result<CelValue, String>> = Vec::new();
    loop {
        match engine.eval_templ(s, &outcomes) {
            TemplStep::Eval(e) => outcomes.push(eval_value(engine, &e).map(|v| cel_value(&v))),
            TemplStep::Done(r) => return r,
        }
    }
}

fn job(id: u128, state: &str, artifacts: Vec<(&str, &str)>) -> JobMeta {
    JobMeta {
        id,
        state: state.to_string(),
        artifacts: artifacts
            .into_iter()
            .map(|(n, c)| (n.to_string(), ArtifactMeta { checksum: Some(c.to_string()) }))
            .collect(),
    }
}

fn test_config(id: u128, name: &str, scans: Vec<(&str, Vec<JobMeta>)>) -> Config {
    Config {
        id,
        name: name.to_string(),
        vars: vec![],
        secrets: vec![],
        env: vec![],
        inputs: None,
        // The scans form a map keyed by name, as in a JSON object.
        scans: scans
            .into_iter()
            .map(|(k, v)| (k.to_string(), v))
            .collect::<std::collections::BTreeMap<String, Vec<JobMeta>>>()
            .into_iter()
            .collect(),
        project: ProjectMeta { id: 1 },
        workflow: WorkflowMeta { id: 2 },
        revision: WorkflowRevisionMeta { id: 3 },
    }
}

fn target<'a>(cfg: &'a Config, scan: &str) -> &'a Vec<JobMeta> {
    &cfg.scans.iter().find(|(k, _)| k == scan).unwrap().1
}

fn assert_eval(cfg: &Config, expr: &str, expected: bool) {
    let engine = JobEngine::new(cfg);
    let result = eval_expr(&engine, expr).expect("failed to evaluate {expr}");
    assert_eq!(result, CelValue::Bool(expected));
}

fn eval_available(cfg: &Config, scan: &str) -> bool {
    let expected = cfg.is_available(target(cfg, scan)).expect("is_available");
    assert_eval(cfg, &format!("scans.{scan}.is_available()"), expected);
    expected
}

fn eval_has_diff(cfg: &Config, scan: &str, artifact: &str) -> bool {
    let expected = cfg.has_diff(target(cfg, scan), &artifact.to_string()).expect("has_diff");
    assert_eval(cfg, &format!("scans.{scan}.has_diff('{artifact}')"), expected);
    expected
}

// Ids grow with time, as time-ordered UUIDs do.
const NOW: u128 = 1_000;

#[test]
fn test_is_available_target_empty() {
    let cfg = test_config(NOW + 10, "scan1", vec![("scan1", vec![job(NOW, "succeeded", vec![])]), ("scan2", vec![])]);
    assert!(!eval_available(&cfg, "scan2"));
}

#[test]
fn test_is_available_self_empty() {
    let cfg = test_config(NOW + 10, "scan1", vec![("scan2", vec![job(NOW, "succeeded", vec![])]), ("scan1", vec![])]);
    assert!(eval_available(&cfg, "scan2"));
}

#[test]
fn test_is_available_both_empty() {
    let cfg = test_config(NOW + 10, "scan1", vec![("scan1", vec![]), ("scan2", vec![])]);
    assert!(!eval_available(&cfg, "scan2"));
}

#[test]
fn test_is_available_target_before_self() {
    let ids = [NOW, NOW + 1];
    let cfg = test_config(NOW + 10, "scan1", vec![
        ("scan1", vec![job(ids[1], "succeeded", vec![])]),
        ("scan2", vec![job(ids[0], "succeeded", vec![])]),
    ]);
    assert!(!eval_available(&cfg, "scan2"));
}

#[test]
fn test_is_available_self_before_target_but_target_failed() {
    let ids = [NOW, NOW + 1];
    let cfg = test_config(NOW + 10, "scan1", vec![
        ("scan1", vec![job(ids[0], "succeeded", vec![])]),
        ("scan2", vec![job(ids[1], "failed", vec![])]),
    ]);
    assert!(!eval_available(&cfg, "scan2"));
}

#[test]
fn test_is_available_self_failed_before_target() {
    let ids = [NOW, NOW + 1];
    let cfg = test_config(NOW + 10, "scan1", vec![
        ("scan1", vec![job(ids[0], "failed", vec![])]),
        ("scan2", vec![job(ids[1], "succeeded", vec![])]),
    ]);
    assert!(eval_available(&cfg, "scan2"));
}

#[test]
fn test_is_available_self_failed_after_target() {
    let ids = [NOW, NOW + 1];
    let cfg = test_config(NOW + 10, "scan1", vec![
        ("scan1", vec![job(ids[1], "failed", vec![])]),
        ("scan2", vec![job(ids[0], "succeeded", vec![])]),
    ]);
    assert!(!eval_available(&cfg, "scan2"));
}

#[test]
fn test_is_available_target_after_self() {
    let ids = [NOW, NOW + 1];
    let cfg = test_config(NOW + 10, "scan1", vec![
        ("scan1", vec![job(ids[0], "succeeded", vec![])]),
        ("scan2", vec![job(ids[1], "succeeded", vec![])]),
    ]);
    assert!(eval_available(&cfg, "scan2"));
}

#[test]
fn test_has_diff_target_empty() {
    let cfg = test_config(NOW + 10, "scan1", vec![("scan1", vec![job(NOW, "succeeded", vec![])]), ("scan2", vec![])]);
    assert!(!eval_has_diff(&cfg, "scan2", "artifact1"));
}

#[test]
fn test_has_diff_self_empty() {
    let cfg = test_config(NOW + 10, "scan1", vec![
        ("scan2", vec![job(NOW, "succeeded", vec![("artifact1", "checksum1")])]),
        ("scan1", vec![]),
    ]);
    assert!(eval_has_diff(&cfg, "scan2", "artifact1"));
}

#[test]
fn test_has_diff_both_empty() {
    let cfg = test_config(NOW + 10, "scan1", vec![("scan1", vec![]), ("scan2", vec![])]);
    assert!(!eval_has_diff(&cfg, "scan2", "artifact1"));
}

#[test]
fn test_has_diff_no_artifact_in_target() {
    let ids = [NOW, NOW + 1];
    let cfg = test_config(NOW + 10, "scan1", vec![
        ("scan1", vec![job(ids[0], "succeeded", vec![])]),
        ("scan2", vec![job(ids[1], "succeeded", vec![])]),
    ]);
    assert!(!eval_has_diff(&cfg, "scan2", "artifact1"));
}

#[test]
fn test_has_diff_but_last_instance_already_executed() {
    let ids = [NOW, NOW + 1];
    let cfg = test_config(NOW + 10, "scan1", vec![
        ("scan1", vec![job(ids[1], "succeeded", vec![])]),
        ("scan2", vec![job(ids[0], "succeeded", vec![])]),
    ]);
    assert!(!eval_has_diff(&cfg, "scan2", "artifact1"));
}

#[test]
fn test_has_diff_single_artifact() {
    let ids = [NOW, NOW + 1];
    let cfg = test_config(NOW + 10, "scan1", vec![
        ("scan1", vec![job(ids[0], "succeeded", vec![])]),
        ("scan2", vec![job(ids[1], "succeeded", vec![("artifact1", "checksum1")])]),
    ]);
    assert!(eval_has_diff(&cfg, "scan2", "artifact1"));
}

#[test]
fn test_has_diff_multiple_artifacts() {
    let ids = [NOW, NOW + 1, NOW + 2];
    let cfg = test_config(NOW + 10, "scan1", vec![
        ("scan1", vec![job(ids[1], "succeeded", vec![])]),
        ("scan2", vec![
            job(ids[2], "succeeded", vec![("artifact1", "checksum1")]),
            job(ids[0], "succeeded", vec![("artifact1", "checksum2")]),
        ]),
    ]);
    assert!(eval_has_diff(&cfg, "scan2", "artifact1"));
}

#[test]
fn test_has_no_diff_multiple_artifacts() {
    let ids = [NOW, NOW + 1, NOW + 2];
    let cfg = test_config(NOW + 10, "scan1", vec![
        ("scan1", vec![job(ids[1], "succeeded", vec![])]),
        ("scan2", vec![
            job(ids[2], "succeeded", vec![("artifact1", "checksum1")]),
            job(ids[0], "succeeded", vec![("artifact1", "checksum1")]),
        ]),
    ]);
    assert!(!eval_has_diff(&cfg, "scan2", "artifact1"));
}

#[test]
fn missing_own_scan_is_an_error_only_when_needed() {
    let cfg = test_config(NOW + 10, "scan1", vec![("scan2", vec![job(NOW, "succeeded", vec![("a", "c")])])]);
    assert_eq!(cfg.is_available(target(&cfg, "scan2")), Err(EvalError::MissingScan));
    assert_eq!(cfg.has_diff(target(&cfg, "scan2"), &"a".to_string()), Err(EvalError::MissingScan));
    let empty = vec![];
    assert_eq!(cfg.is_available(&empty), Ok(false));
    assert_eq!(cfg.has_diff(&empty, &"a".to_string()), Ok(false));
}

#[test]
fn has_diff_ignores_this_job_itself() {
    let this_id = NOW + 10;
    let jobs = vec![job(NOW + 5, "succeeded", vec![("a", "c1")])];
    let this_scan = vec![job(this_id, "running", vec![]), job(NOW + 6, "succeeded", vec![])];
    // The newest other job of this scan ran after the target: no diff.
    assert!(!has_diff(this_id, &"a".to_string(), &jobs, &this_scan));
    let only_self = vec![job(this_id, "running", vec![])];
    assert!(has_diff(this_id, &"a".to_string(), &jobs, &only_self));
}

#[test]
fn missing_checksum_counts_as_empty() {
    let jobs = vec![
        JobMeta { id: 5, state: "succeeded".to_string(), artifacts: vec![("a".to_string(), ArtifactMeta { checksum: None })] },
        job(4, "succeeded", vec![("a", "")]),
    ];
    let this_scan = vec![job(1, "succeeded", vec![])];
    assert!(!has_diff(99, &"a".to_string(), &jobs, &this_scan));
}

#[test]
fn is_available_uses_first_succeeded_target() {
    let target = vec![job(9, "failed", vec![]), job(7, "succeeded", vec![]), job(3, "succeeded", vec![])];
    assert!(is_available(&target, &vec![job(6, "failed", vec![])]));
    assert!(!is_available(&target, &vec![job(8, "succeeded", vec![])]));
}

#[test]
fn render_replaces_expressions_in_order() {
    let t = Template::parse("input has '${{ vars.EXAMPLE_KEY }}' value ${{x}}").unwrap();
    let out = render(&t, &vec!["EXAMPLE_VALUE".to_string(), "!".to_string()]);
    assert_eq!(out, "input has 'EXAMPLE_VALUE' value !");
    let plain = Template::parse("test str").unwrap();
    assert_eq!(render(&plain, &vec![]), "test str");
}

#[test]
fn test_ok_and_always() {
    let cfg = test_config(NOW, "scan1", vec![]);
    let mut engine = JobEngine::new(&cfg);
    let result = eval_expr(&engine, "ok").unwrap();
    assert_eq!(result, CelValue::Bool(true));
    let result = eval_expr(&engine, "always").unwrap();
    assert_eq!(result, CelValue::Bool(true));
    engine.set_ok(false);
    let result = eval_expr(&engine, "ok").unwrap();
    assert_eq!(result, CelValue::Bool(false));
    let result = eval_expr(&engine, "always").unwrap();
    assert_eq!(result, CelValue::Bool(true));
}

#[test]
fn test_eval_empty_inputs() {
    let cfg = test_config(NOW, "scan1", vec![("scan1", vec![])]);
    let engine = JobEngine::new(&cfg);
    let result = eval_expr(&engine, "has(inputs.test)").expect("has should not fail");
    assert_eq!(result, CelValue::Bool(false), "expected has(inputs.test) to be false");

    let result = eval_expr(&engine, "inputs.test");
    assert!(result.is_err(), "expected error, got {result:?}");
}

#[test]
fn test_eval_set_inputs() {
    let mut cfg = test_config(NOW, "scan1", vec![("scan1", vec![])]);
    cfg.inputs = Some(vec![
        ("key_bool".to_string(), InputValue::Bool(true)),
        ("key_str".to_string(), InputValue::String("example".to_string())),
    ]);
    let engine = JobEngine::new(&cfg);

    let result = eval_expr(&engine, "has(inputs.key_str)").expect("has should not fail");
    assert_eq!(result, CelValue::Bool(true), "expected inputs to contain key_str");

    let result = eval_expr(&engine, "inputs.key_str").expect("expected inputs.key_str to exist");
    assert_eq!(result, CelValue::String("example".to_string()));

    let result = eval_expr(&engine, "has(inputs.key_bool)").expect("has should not fail");
    assert_eq!(result, CelValue::Bool(true), "expected inputs to contain key_bool");

    let result = eval_expr(&engine, "inputs.key_bool").expect("expected inputs.key_bool to exist");
    assert_eq!(result, CelValue::Bool(true));
}

#[test]
fn test_eval_templ_var() {
    let mut cfg = test_config(NOW, "scan1", vec![("scan1", vec![])]);
    cfg.vars.push(("EXAMPLE_KEY".to_string(), "EXAMPLE_VALUE".to_string()));
    let engine = JobEngine::new(&cfg);

    let expr = "test str";
    let got = eval_templ(&engine, expr)
        .unwrap_or_else(|_| panic!("failed to evaluate template: {expr}"));
    assert_eq!(expr, got);

    let expr = "input has '${{ vars.EXAMPLE_KEY }}' value";
    let got = eval_templ(&engine, expr)
        .unwrap_or_else(|_| panic!("failed to evaluate template: {expr}"));
    let want = "input has 'EXAMPLE_VALUE' value";
    assert_eq!(want, got);
}

#[test]
fn test_eval_templ_secrret() {
    let mut cfg = test_config(NOW, "scan1", vec![("scan1", vec![])]);
    cfg.secrets.push(("EXAMPLE_KEY".to_string(), "EXAMPLE_VALUE".to_string()));
    let engine = JobEngine::new(&cfg);

    let expr = "test str";
    let got = eval_templ(&engine, expr)
        .unwrap_or_else(|_| panic!("failed to evaluate template: {expr}"));
    assert_eq!(expr, got);

    let expr = "input has '${{ secrets.EXAMPLE_KEY }}' value";
    let got = eval_templ(&engine, expr)
        .unwrap_or_else(|_| panic!("failed to evaluate template: {expr}"));
    let want = "input has 'EXAMPLE_VALUE' value";
    assert_eq!(want, got);
}

#[test]
fn engine_sees_job_records() {
    let cfg = test_config(NOW + 10, "scan1", vec![(
        "scan1",
        vec![JobMeta {
            id: NOW,
            state: "succeeded".to_string(),
            artifacts: vec![
                ("a".to_string(), ArtifactMeta { checksum: Some("c1".to_string()) }),
                ("b".to_string(), ArtifactMeta { checksum: None }),
            ],
        }],
    )]);
    let engine = JobEngine::new(&cfg);
    let id = uuid::Uuid::from_u128(NOW).to_string();
    assert_eq!(eval_expr(&engine, "scans.scan1[0].id").unwrap(), CelValue::String(id));
    assert_eq!(eval_expr(&engine, "scans.scan1[0].state").unwrap(), CelValue::String("succeeded".to_string()));
    assert_eq!(eval_expr(&engine, "scans.scan1[0].artifacts.a.checksum").unwrap(), CelValue::String("c1".to_string()));
    assert_eq!(eval_expr(&engine, "scans.scan1[0].artifacts.b.checksum").unwrap(), CelValue::String(String::new()));
    assert_eq!(eval_expr(&engine, "project.id").unwrap(), CelValue::String(uuid::Uuid::from_u128(1).to_string()));
    assert_eq!(eval_expr(&engine, "name").unwrap(), CelValue::String("scan1".to_string()));
    assert_eq!(eval_expr(&engine, "size(scans.scan1)").unwrap(), CelValue::Int(1));
}

#[test]
fn set_job_ctx_changes_id_and_name() {
    let cfg = test_config(NOW + 10, "scan1", vec![
        ("scan1", vec![job(NOW + 5, "succeeded", vec![])]),
        ("scan2", vec![job(NOW + 1, "succeeded", vec![])]),
        ("scan3", vec![]),
    ]);
    let mut engine = JobEngine::new(&cfg);
    assert_eq!(eval_expr(&engine, "scans.scan2.is_available()").unwrap(), CelValue::Bool(false));
    engine.set_job_ctx(NOW + 20, "scan3");
    assert_eq!(eval_expr(&engine, "name").unwrap(), CelValue::String("scan3".to_string()));
    assert_eq!(eval_expr(&engine, "id").unwrap(), CelValue::String(uuid::Uuid::from_u128(NOW + 20).to_string()));
    // This job's scan is now scan3, which has no job yet.
    assert_eq!(eval_expr(&engine, "scans.scan2.is_available()").unwrap(), CelValue::Bool(true));
}

fn text(s: &str) -> CelValue {
    CelValue::String(s.to_string())
}

fn job_value(id: u128, state: &str, artifacts: Vec<(&str, &str)>) -> CelValue {
    let arts = artifacts
        .into_iter()
        .map(|(n, c)| (CelKey::String(n.to_string()), CelValue::Entries(vec![(CelKey::String("checksum".to_string()), text(c))])))
        .collect();
    CelValue::Entries(vec![
        (CelKey::String("id".to_string()), text(&uuid::Uuid::from_u128(id).to_string())),
        (CelKey::String("state".to_string()), text(state)),
        (CelKey::String("artifacts".to_string()), CelValue::Entries(arts)),
    ])
}

fn runtime_vars(id: u128, name: &str, scans: Vec<(&str, Vec<CelValue>)>) -> Vec<(String, CelValue)> {
    vec![
        ("id".to_string(), text(&uuid::Uuid::from_u128(id).to_string())),
        ("name".to_string(), text(name)),
        (
            "scans".to_string(),
            CelValue::Entries(scans.into_iter().map(|(k, v)| (CelKey::String(k.to_string()), CelValue::List(v))).collect()),
        ),
    ]
}

#[test]
fn engine_functions_check_their_arguments() {
    let cfg = test_config(NOW + 10, "scan1", vec![("scan1", vec![]), ("scan2", vec![])]);
    let vars = || runtime_vars(NOW + 10, "scan1", vec![("scan1", vec![]), ("scan2", vec![])]);
    assert_eq!(native_is_available(vec![], vars()), Err("expected 1 argument, got 0".to_string()));
    assert!(native_is_available(vec![CelValue::Int(1)], vars()).is_err());
    assert_eq!(
        native_has_diff(vec![CelValue::List(vec![])], vars()),
        Err("expected 2 arguments, got 1".to_string())
    );
    assert_eq!(native_has_diff(vec![CelValue::List(vec![]), text("a")], vars()), Ok(false));
    assert!(native_has_diff(vec![CelValue::List(vec![]), CelValue::Int(1)], vars()).is_err());
    let engine = JobEngine::new(&cfg);
    assert!(matches!(eval_expr(&engine, "scans.scan2.has_diff(1)"), Err(EngineError::Eval(_))));
    assert!(matches!(eval_expr(&engine, "name.is_available()"), Err(EngineError::Eval(_))));
    // The scan of this job is missing: an error once the target has a succeeded job.
    let lonely = test_config(NOW + 10, "scan9", vec![("scan2", vec![job(NOW, "succeeded", vec![])])]);
    let engine = JobEngine::new(&lonely);
    assert!(matches!(eval_expr(&engine, "scans.scan2.is_available()"), Err(EngineError::Eval(_))));
}

#[test]
fn engine_functions_read_job_records() {
    let target = CelValue::List(vec![job_value(NOW + 3, "succeeded", vec![("a", "x")])]);
    let vars = || {
        let own = vec![job_value(NOW + 4, "running", vec![]), job_value(NOW + 2, "succeeded", vec![])];
        runtime_vars(NOW + 4, "scan1", vec![("scan1", own)])
    };
    // The newest finished job of this scan is older than the target's success.
    assert_eq!(native_is_available(vec![target], vars()), Ok(true));
    // A target without a succeeded job is never available, whatever this scan holds.
    let pending = CelValue::List(vec![job_value(NOW + 3, "running", vec![])]);
    assert_eq!(native_is_available(vec![pending], vec![]), Ok(false));
    // A record without an id does not read.
    let broken = CelValue::List(vec![CelValue::Entries(vec![])]);
    assert!(native_is_available(vec![broken], vars()).is_err());
    // The id variable must hold a UUID.
    let target = CelValue::List(vec![job_value(NOW + 3, "succeeded", vec![("a", "x")])]);
    let mut bad = vars();
    bad[0].1 = text("not a uuid");
    assert!(native_has_diff(vec![target, text("a")], bad).is_err());
}

#[test]
fn newest_finished_own_job_decides_availability() {
    let cfg = test_config(NOW + 10, "scan1", vec![
        ("scan1", vec![job(NOW + 4, "running", vec![]), job(NOW + 2, "succeeded", vec![])]),
        ("scan2", vec![job(NOW + 3, "succeeded", vec![])]),
    ]);
    assert!(eval_available(&cfg, "scan2"));
    assert_eq!(is_available(target(&cfg, "scan2"), target(&cfg, "scan1")), true);
}

#[test]
fn templates_render_values_as_text() {
    let cfg = test_config(NOW, "scan1", vec![("scan1", vec![])]);
    let engine = JobEngine::new(&cfg);
    assert_eq!(eval_templ(&engine, "${{ 1 + 1 }}-${{ -3 }}-${{ ok }}-${{ null }}!").unwrap(), "2--3-true-!");
    assert_eq!(eval_templ(&engine, "${{ 7u }}").unwrap(), "7");
    assert_eq!(eval_templ(&engine, "${{ [1] }}"), Err(EngineError::Unsupported));
    assert!(matches!(eval_templ(&engine, "${{ ok"), Err(EngineError::Template(_))));
    assert!(matches!(eval_templ(&engine, "${{ nothing }}"), Err(EngineError::Eval(_))));
}

#[test]
fn value_text_of_each_kind() {
    assert_eq!(value_text(&CelValue::Int(-42)), Some("-42".to_string()));
    assert_eq!(value_text(&CelValue::Uint(18446744073709551615)), Some("18446744073709551615".to_string()));
    assert_eq!(value_text(&CelValue::Bool(false)), Some("false".to_string()));
    assert_eq!(value_text(&CelValue::Null), Some(String::new()));
    assert_eq!(value_text(&CelValue::Double("1.5".to_string())), Some("1.5".to_string()));
    assert_eq!(value_text(&CelValue::Bytes(vec![1])), None);
    assert_eq!(value_text(&CelValue::List(vec![])), None);
}
