//! The job engine: the variables a job's expressions are evaluated against,
//! the engine's own functions, the values the evaluator gives back and the
//! rendering of templates from them. Parsing and evaluating the expressions
//! themselves is the work of the `cellang` crate, which the program calls.
use vstd::prelude::*;
use crate::jobengine::{Config, config_keyed, InputValue, JobMeta, ArtifactMeta, JobView, ArtifactView};
use crate::jobengine::{jobs_view, first_succeeded, available, diff, is_available, has_diff, expr_count, rendered};
use crate::templ::{Template, TemplateError, Token, TokenView, parse_spec, open_at, law_plain_text};
use crate::streamlog::{decimal, push_decimal};
use crate::text::same_text;
use crate::worker::{uuid_string, uuid_text};

verus! {

broadcast use vstd::string::group_string_axioms;

/// A value the engine hands to the evaluator. Variables of a job are made
/// of texts, booleans, lists and maps keyed by text.
#[derive(Debug, PartialEq, Eq)]
pub enum CelInput {
    Bool(bool),
    String(String),
    List(Vec<CelInput>),
    /// Entries in key order, each key once.
    Entries(Vec<(String, CelInput)>),
}

/// `v` is the text `s`.
pub open spec fn is_text(v: CelInput, s: Seq<char>) -> bool {
    v matches CelInput::String(x) && x@ == s
}

/// `v` is the record `{ id: <uuid text of id> }`.
pub open spec fn id_record(v: CelInput, id: u128) -> bool {
    v matches CelInput::Entries(es) && es@.len() == 1 && es@[0].0@ == "id"@ && is_text(es@[0].1, uuid_text(id))
}

/// `v` is a map from the given keys to the given texts.
pub open spec fn text_map(v: CelInput, entries: Seq<(String, String)>) -> bool {
    v matches CelInput::Entries(es) && es@.len() == entries.len() && forall|i: int|
        0 <= i < entries.len() ==> (#[trigger] es@[i]).0@ == entries[i].0@ && is_text(es@[i].1, entries[i].1@)
}

/// The checksum of an artifact as the evaluator sees it: empty where none is known.
pub open spec fn checksum_text(a: ArtifactView) -> Seq<char> {
    match a.checksum {
        Some(c) => c,
        None => Seq::empty(),
    }
}

/// `v` is the record `{ checksum: <text> }` of an artifact.
pub open spec fn artifact_record(v: CelInput, a: ArtifactView) -> bool {
    v matches CelInput::Entries(es) && es@.len() == 1 && es@[0].0@ == "checksum"@ && is_text(es@[0].1, checksum_text(a))
}

/// `v` is the map from artifact names to artifact records.
pub open spec fn artifacts_record(v: CelInput, arts: Seq<ArtifactView>) -> bool {
    v matches CelInput::Entries(es) && es@.len() == arts.len() && forall|i: int|
        0 <= i < arts.len() ==> (#[trigger] es@[i]).0@ == arts[i].name && artifact_record(es@[i].1, arts[i])
}

/// `v` is the record `{ id, state, artifacts }` of a job.
pub open spec fn job_record(v: CelInput, j: JobView) -> bool {
    v matches CelInput::Entries(es) && es@.len() == 3
        && es@[0].0@ == "id"@ && is_text(es@[0].1, uuid_text(j.id))
        && es@[1].0@ == "state"@ && is_text(es@[1].1, j.state)
        && es@[2].0@ == "artifacts"@ && artifacts_record(es@[2].1, j.artifacts)
}

/// `v` is the list of the records of the jobs, in order.
pub open spec fn jobs_record(v: CelInput, jobs: Seq<JobMeta>) -> bool {
    v matches CelInput::List(items) && items@.len() == jobs.len() && forall|i: int|
        0 <= i < jobs.len() ==> job_record(#[trigger] items@[i], jobs[i]@)
}

/// `v` is the map from scan names to the lists of their jobs.
pub open spec fn scans_record(v: CelInput, scans: Seq<(String, Vec<JobMeta>)>) -> bool {
    v matches CelInput::Entries(es) && es@.len() == scans.len() && forall|i: int|
        0 <= i < scans.len() ==> (#[trigger] es@[i]).0@ == scans[i].0@ && jobs_record(es@[i].1, scans[i].1@)
}

/// `v` is the value of a custom input.
pub open spec fn input_value(v: CelInput, i: InputValue) -> bool {
    match i {
        InputValue::String(s) => is_text(v, s@),
        InputValue::Bool(b) => v == CelInput::Bool(b),
    }
}

/// `v` is the map of the custom inputs; an empty map where there are none.
pub open spec fn inputs_record(v: CelInput, inputs: Option<Vec<(String, InputValue)>>) -> bool {
    match inputs {
        None => v matches CelInput::Entries(es) && es@.len() == 0,
        Some(ins) => v matches CelInput::Entries(es) && es@.len() == ins@.len() && forall|i: int|
            0 <= i < ins@.len() ==> (#[trigger] es@[i]).0@ == ins@[i].0@ && input_value(es@[i].1, ins@[i].1),
    }
}

/// The variables a job's expressions see, in the order they are set:
/// `id`, `name`, `project`, `workflow`, `revision`, `scans`, `vars`,
/// `secrets`, `inputs`, `ok` and `always`.
pub open spec fn job_variables(vars: Seq<(Seq<char>, CelInput)>, cfg: Config, ok: bool) -> bool {
    &&& vars.len() == 11
    &&& vars[0].0 == "id"@ && is_text(vars[0].1, uuid_text(cfg.id))
    &&& vars[1].0 == "name"@ && is_text(vars[1].1, cfg.name@)
    &&& record_variables(vars.subrange(2, 9), cfg)
    &&& vars[9] == ("ok"@, CelInput::Bool(ok))
    &&& vars[10] == ("always"@, CelInput::Bool(true))
}

/// The variables `project`, `workflow`, `revision`, `scans`, `vars`,
/// `secrets` and `inputs` of a job, in this order.
pub open spec fn record_variables(vars: Seq<(Seq<char>, CelInput)>, cfg: Config) -> bool {
    &&& vars.len() == 7
    &&& vars[0].0 == "project"@ && id_record(vars[0].1, cfg.project.id)
    &&& vars[1].0 == "workflow"@ && id_record(vars[1].1, cfg.workflow.id)
    &&& vars[2].0 == "revision"@ && id_record(vars[2].1, cfg.revision.id)
    &&& vars[3].0 == "scans"@ && scans_record(vars[3].1, cfg.scans@)
    &&& vars[4].0 == "vars"@ && text_map(vars[4].1, cfg.vars@)
    &&& vars[5].0 == "secrets"@ && text_map(vars[5].1, cfg.secrets@)
    &&& vars[6].0 == "inputs"@ && inputs_record(vars[6].1, cfg.inputs)
}

/// Entries with their keys as character sequences.
pub open spec fn keyed(es: Seq<(String, CelInput)>) -> Seq<(Seq<char>, CelInput)> {
    es.map_values(|e: (String, CelInput)| (e.0@, e.1))
}

fn text(s: &String) -> (r: CelInput)
    ensures
        is_text(r, s@),
{
    CelInput::String(s.clone())
}

fn id_input(id: u128) -> (r: CelInput)
    ensures
        id_record(r, id),
{
    let mut es: Vec<(String, CelInput)> = Vec::new();
    es.push((String::from_str("id"), CelInput::String(uuid_string(id))));
    CelInput::Entries(es)
}

fn text_map_input(entries: &Vec<(String, String)>) -> (r: CelInput)
    ensures
        text_map(r, entries@),
{
    let mut es: Vec<(String, CelInput)> = Vec::new();
    let mut i: usize = 0;
    while i < entries.len()
        invariant
            i <= entries@.len(),
            es@.len() == i,
            forall|k: int| 0 <= k < i ==> (#[trigger] es@[k]).0@ == entries@[k].0@ && is_text(es@[k].1, entries@[k].1@),
        decreases entries@.len() - i,
    {
        es.push((entries[i].0.clone(), text(&entries[i].1)));
        i = i + 1;
    }
    CelInput::Entries(es)
}

fn artifacts_input(arts: &Vec<(String, ArtifactMeta)>) -> (r: CelInput)
    ensures
        artifacts_record(r, arts@.map_values(|a: (String, ArtifactMeta)| ArtifactView {
            name: a.0@,
            checksum: match a.1.checksum {
                Some(c) => Some(c@),
                None => None,
            },
        })),
{
    let ghost views = arts@.map_values(|a: (String, ArtifactMeta)| ArtifactView {
        name: a.0@,
        checksum: match a.1.checksum {
            Some(c) => Some(c@),
            None => None,
        },
    });
    let mut es: Vec<(String, CelInput)> = Vec::new();
    let mut i: usize = 0;
    while i < arts.len()
        invariant
            i <= arts@.len(),
            views.len() == arts@.len(),
            views == arts@.map_values(|a: (String, ArtifactMeta)| ArtifactView {
                name: a.0@,
                checksum: match a.1.checksum {
                    Some(c) => Some(c@),
                    None => None,
                },
            }),
            es@.len() == i,
            forall|k: int| 0 <= k < i ==> (#[trigger] es@[k]).0@ == views[k].name && artifact_record(es@[k].1, views[k]),
        decreases arts@.len() - i,
    {
        let sum = match &arts[i].1.checksum {
            Some(c) => c.clone(),
            None => String::new(),
        };
        let mut rec: Vec<(String, CelInput)> = Vec::new();
        rec.push((String::from_str("checksum"), CelInput::String(sum)));
        proof {
            reveal_strlit("checksum");
        }
        es.push((arts[i].0.clone(), CelInput::Entries(rec)));
        i = i + 1;
    }
    CelInput::Entries(es)
}

fn job_input(j: &JobMeta) -> (r: CelInput)
    ensures
        job_record(r, j@),
{
    let mut es: Vec<(String, CelInput)> = Vec::new();
    es.push((String::from_str("id"), CelInput::String(uuid_string(j.id))));
    es.push((String::from_str("state"), text(&j.state)));
    es.push((String::from_str("artifacts"), artifacts_input(&j.artifacts)));
    CelInput::Entries(es)
}

fn jobs_input(jobs: &Vec<JobMeta>) -> (r: CelInput)
    ensures
        jobs_record(r, jobs@),
{
    let mut items: Vec<CelInput> = Vec::new();
    let mut i: usize = 0;
    while i < jobs.len()
        invariant
            i <= jobs@.len(),
            items@.len() == i,
            forall|k: int| 0 <= k < i ==> job_record(#[trigger] items@[k], jobs@[k]@),
        decreases jobs@.len() - i,
    {
        items.push(job_input(&jobs[i]));
        i = i + 1;
    }
    CelInput::List(items)
}

fn scans_input(scans: &Vec<(String, Vec<JobMeta>)>) -> (r: CelInput)
    ensures
        scans_record(r, scans@),
{
    let mut es: Vec<(String, CelInput)> = Vec::new();
    let mut i: usize = 0;
    while i < scans.len()
        invariant
            i <= scans@.len(),
            es@.len() == i,
            forall|k: int| 0 <= k < i ==> (#[trigger] es@[k]).0@ == scans@[k].0@ && jobs_record(es@[k].1, scans@[k].1@),
        decreases scans@.len() - i,
    {
        es.push((scans[i].0.clone(), jobs_input(&scans[i].1)));
        i = i + 1;
    }
    CelInput::Entries(es)
}

fn inputs_input(inputs: &Option<Vec<(String, InputValue)>>) -> (r: CelInput)
    ensures
        inputs_record(r, *inputs),
{
    match inputs {
        None => CelInput::Entries(Vec::new()),
        Some(ins) => {
            let mut es: Vec<(String, CelInput)> = Vec::new();
            let mut i: usize = 0;
            while i < ins.len()
                invariant
                    i <= ins@.len(),
                    es@.len() == i,
                    forall|k: int| 0 <= k < i ==> (#[trigger] es@[k]).0@ == ins@[k].0@ && input_value(es@[k].1, ins@[k].1),
                decreases ins@.len() - i,
            {
                let v = match &ins[i].1 {
                    InputValue::String(s) => text(s),
                    InputValue::Bool(b) => CelInput::Bool(*b),
                };
                es.push((ins[i].0.clone(), v));
                i = i + 1;
            }
            CelInput::Entries(es)
        },
    }
}

/// The variables of a job from `project` to `inputs`, as
/// `record_variables` lists them.
pub fn records_of(cfg: &Config) -> (r: Vec<(String, CelInput)>)
    ensures
        record_variables(keyed(r@), *cfg),
{
    let mut vars: Vec<(String, CelInput)> = Vec::new();
    vars.push((String::from_str("project"), id_input(cfg.project.id)));
    vars.push((String::from_str("workflow"), id_input(cfg.workflow.id)));
    vars.push((String::from_str("revision"), id_input(cfg.revision.id)));
    vars.push((String::from_str("scans"), scans_input(&cfg.scans)));
    vars.push((String::from_str("vars"), text_map_input(&cfg.vars)));
    vars.push((String::from_str("secrets"), text_map_input(&cfg.secrets)));
    vars.push((String::from_str("inputs"), inputs_input(&cfg.inputs)));
    proof {
        reveal_strlit("project");
        reveal_strlit("workflow");
        reveal_strlit("revision");
        reveal_strlit("scans");
        reveal_strlit("vars");
        reveal_strlit("secrets");
        reveal_strlit("inputs");
    }
    vars
}

/// A key of a map the evaluator gave back.
#[derive(Debug, Clone, PartialEq, Eq)]
pub enum CelKey {
    Bool(bool),
    Int(i64),
    Uint(u64),
    String(String),
    Bytes(Vec<u8>),
}

/// A value the evaluator gave back.
#[derive(Debug, PartialEq, Eq)]
pub enum CelValue {
    Null,
    Bool(bool),
    Int(i64),
    Uint(u64),
    /// A double, by the text Rust writes for it.
    Double(String),
    String(String),
    Bytes(Vec<u8>),
    /// A timestamp, by the text the `time` crate writes for it.
    Timestamp(String),
    /// A duration, by the text the `time` crate writes for it.
    Duration(String),
    List(Vec<CelValue>),
    /// The entries of a map, in the evaluator's key order.
    Entries(Vec<(CelKey, CelValue)>),
    /// A struct value; the library reads nothing of its fields.
    Struct,
}

fn message(s: &str) -> (r: String)
    ensures
        r@ == s@,
{
    String::from_str(s)
}

/// What `uuid::Uuid::parse_str` makes of a text: the 128-bit value of the
/// UUID it reads, or `None` where the text is no UUID.
pub uninterp spec fn uuid_parsed(s: Seq<char>) -> Option<u128>;

/// `uuid::Uuid::parse_str`, taken to the UUID's 128-bit value.
#[verifier::external_body]
fn parse_uuid(s: &str) -> (r: Option<u128>)
    ensures
        r == uuid_parsed(s@),
{
    uuid::Uuid::parse_str(s).ok().map(|u| u.as_u128())
}

/// The value of the first entry of a map whose key is the text `name`.
pub open spec fn field(es: Seq<(CelKey, CelValue)>, name: Seq<char>) -> Option<CelValue>
    decreases es.len(),
{
    if es.len() == 0 {
        None
    } else if es[0].0 matches CelKey::String(k) && k@ == name {
        Some(es[0].1)
    } else {
        field(es.drop_first(), name)
    }
}

/// The value of the first variable with the given name.
pub open spec fn var_of(vars: Seq<(String, CelValue)>, name: Seq<char>) -> Option<CelValue>
    decreases vars.len(),
{
    if vars.len() == 0 {
        None
    } else if vars[0].0@ == name {
        Some(vars[0].1)
    } else {
        var_of(vars.drop_first(), name)
    }
}

/// The checksum an artifact record gives: its `checksum` text; none where
/// the field is null or absent. `None` where the record is no map or the
/// checksum neither text nor null.
pub open spec fn decode_checksum(rec: CelValue) -> Option<Option<Seq<char>>> {
    match rec {
        CelValue::Entries(fs) => match field(fs@, "checksum"@) {
            None => Some(None),
            Some(CelValue::Null) => Some(None),
            Some(CelValue::String(c)) => Some(Some(c@)),
            _ => None,
        },
        _ => None,
    }
}

/// The artifacts of a map from artifact names to artifact records, in
/// order; `None` where a key is no text or a record does not read.
pub open spec fn decode_artifact_entries(es: Seq<(CelKey, CelValue)>) -> Option<Seq<ArtifactView>>
    decreases es.len(),
{
    if es.len() == 0 {
        Some(Seq::empty())
    } else {
        match (decode_artifact_entries(es.drop_last()), es.last().0, decode_checksum(es.last().1)) {
            (Some(prev), CelKey::String(n), Some(c)) => Some(prev.push(ArtifactView { name: n@, checksum: c })),
            _ => None,
        }
    }
}

/// A job record `{ id, state, artifacts }` read back: its id is the UUID
/// its `id` text holds. Other fields are ignored.
pub open spec fn decode_job(v: CelValue) -> Option<JobView> {
    match v {
        CelValue::Entries(es) => match (field(es@, "id"@), field(es@, "state"@), field(es@, "artifacts"@)) {
            (Some(CelValue::String(i)), Some(CelValue::String(s)), Some(CelValue::Entries(arts))) =>
                match (uuid_parsed(i@), decode_artifact_entries(arts@)) {
                    (Some(id), Some(a)) => Some(JobView { id, state: s@, artifacts: a }),
                    _ => None,
                },
            _ => None,
        },
        _ => None,
    }
}

/// Job records read back, in order; `None` where one does not read.
pub open spec fn decode_job_list(items: Seq<CelValue>) -> Option<Seq<JobView>>
    decreases items.len(),
{
    if items.len() == 0 {
        Some(Seq::empty())
    } else {
        match (decode_job_list(items.drop_last()), decode_job(items.last())) {
            (Some(prev), Some(j)) => Some(prev.push(j)),
            _ => None,
        }
    }
}

/// A list of job records read back.
pub open spec fn decode_jobs(v: CelValue) -> Option<Seq<JobView>> {
    match v {
        CelValue::List(items) => decode_job_list(items@),
        _ => None,
    }
}

/// The jobs of this job's own scan: the entry of the `scans` variable
/// named by the `name` variable.
pub open spec fn own_jobs(vars: Seq<(String, CelValue)>) -> Option<Seq<JobView>> {
    match (var_of(vars, "name"@), var_of(vars, "scans"@)) {
        (Some(CelValue::String(n)), Some(CelValue::Entries(es))) => match field(es@, n@) {
            Some(j) => decode_jobs(j),
            None => None,
        },
        _ => None,
    }
}

/// The id of this job: the UUID the `id` variable holds.
pub open spec fn this_id(vars: Seq<(String, CelValue)>) -> Option<u128> {
    match var_of(vars, "id"@) {
        Some(CelValue::String(t)) => uuid_parsed(t@),
        _ => None,
    }
}

/// What `target.is_available()` gives: `None` for an error. This job's own
/// scan is read only once the target is known to have a succeeded job.
pub open spec fn available_result(target: CelValue, vars: Seq<(String, CelValue)>) -> Option<bool> {
    match decode_jobs(target) {
        None => None,
        Some(t) => if first_succeeded(t) is None {
            Some(false)
        } else {
            match own_jobs(vars) {
                None => None,
                Some(o) => Some(available(t, o)),
            }
        },
    }
}

/// What `target.has_diff(artifact)` gives, its arguments being the target
/// and the artifact name: `None` for an error. This job's own scan is read
/// only once the target has a succeeded job with the artifact.
pub open spec fn diff_result(target: CelValue, artifact: CelValue, vars: Seq<(String, CelValue)>) -> Option<bool> {
    match (this_id(vars), artifact, decode_jobs(target)) {
        (Some(id), CelValue::String(a), Some(t)) => if !diff(id, a@, t, Seq::empty()) {
            Some(false)
        } else {
            match own_jobs(vars) {
                None => None,
                Some(o) => Some(diff(id, a@, t, o)),
            }
        },
        _ => None,
    }
}

/// The message of a call with the wrong number of arguments.
pub open spec fn arity_text(want: int, got: int) -> Seq<char> {
    "expected "@ + decimal(want) + (if want == 1 { " argument, got "@ } else { " arguments, got "@ }) + decimal(got)
}

/// `expected <want> argument(s), got <got>`.
fn arity_message(want: usize, got: usize) -> (r: String)
    ensures
        r@ == arity_text(want as int, got as int),
{
    proof {
        reveal_strlit("expected ");
        reveal_strlit(" argument, got ");
        reveal_strlit(" arguments, got ");
    }
    let mut s = message("expected ");
    push_decimal(&mut s, want as i128);
    if want == 1 {
        s.append(" argument, got ");
    } else {
        s.append(" arguments, got ");
    }
    push_decimal(&mut s, got as i128);
    s
}

/// The artifacts of a job as the engine reads them.
pub open spec fn arts_view(a: Seq<(String, ArtifactMeta)>) -> Seq<ArtifactView> {
    a.map_values(|x: (String, ArtifactMeta)| ArtifactView {
        name: x.0@,
        checksum: match x.1.checksum {
            Some(c) => Some(c@),
            None => None,
        },
    })
}

/// Looks up the first entry of a map keyed by the text `name`.
fn find_field<'a>(es: &'a Vec<(CelKey, CelValue)>, name: &str) -> (r: Option<&'a CelValue>)
    ensures
        match r {
            Some(x) => field(es@, name@) == Some(*x),
            None => field(es@, name@) is None,
        },
{
    let ghost s = es@;
    let mut i: usize = 0;
    assert(s.subrange(0, s.len() as int) =~= s);
    while i < es.len()
        invariant
            s == es@,
            i <= s.len(),
            field(s, name@) == field(s.subrange(i as int, s.len() as int), name@),
        decreases s.len() - i,
    {
        assert(s.subrange(i as int, s.len() as int)[0] == s[i as int]);
        if let CelKey::String(k) = &es[i].0 {
            if same_text(k.as_str(), name) {
                return Some(&es[i].1);
            }
        }
        assert(s.subrange(i as int, s.len() as int).drop_first() =~= s.subrange(i + 1, s.len() as int));
        i = i + 1;
    }
    None
}

/// Looks up the first variable with the given name.
fn find_var<'a>(vars: &'a Vec<(String, CelValue)>, name: &str) -> (r: Option<&'a CelValue>)
    ensures
        match r {
            Some(x) => var_of(vars@, name@) == Some(*x),
            None => var_of(vars@, name@) is None,
        },
{
    let ghost s = vars@;
    let mut i: usize = 0;
    assert(s.subrange(0, s.len() as int) =~= s);
    while i < vars.len()
        invariant
            s == vars@,
            i <= s.len(),
            var_of(s, name@) == var_of(s.subrange(i as int, s.len() as int), name@),
        decreases s.len() - i,
    {
        assert(s.subrange(i as int, s.len() as int)[0] == s[i as int]);
        if same_text(vars[i].0.as_str(), name) {
            return Some(&vars[i].1);
        }
        assert(s.subrange(i as int, s.len() as int).drop_first() =~= s.subrange(i + 1, s.len() as int));
        i = i + 1;
    }
    None
}

/// Reads the checksum of an artifact record, as `decode_checksum` says.
fn read_checksum(rec: &CelValue) -> (r: Option<Option<String>>)
    ensures
        match r {
            Some(Some(c)) => decode_checksum(*rec) == Some(Some(c@)),
            Some(None) => decode_checksum(*rec) == Some(None::<Seq<char>>),
            None => decode_checksum(*rec) is None,
        },
{
    proof {
        reveal_strlit("checksum");
    }
    match rec {
        CelValue::Entries(fs) => match find_field(fs, "checksum") {
            None => Some(None),
            Some(CelValue::Null) => Some(None),
            Some(CelValue::String(c)) => Some(Some(c.clone())),
            Some(_) => None,
        },
        _ => None,
    }
}

proof fn lemma_artifact_entries_prefix(es: Seq<(CelKey, CelValue)>, k: int)
    requires
        0 <= k <= es.len(),
        decode_artifact_entries(es.take(k)) is None,
    ensures
        decode_artifact_entries(es) is None,
    decreases es.len(),
{
    if k < es.len() {
        assert(es.drop_last().take(k) =~= es.take(k));
        lemma_artifact_entries_prefix(es.drop_last(), k);
    } else {
        assert(es.take(k) =~= es);
    }
}

/// Reads a map from artifact names to artifact records, as
/// `decode_artifact_entries` says.
fn read_artifacts(es: &Vec<(CelKey, CelValue)>) -> (r: Option<Vec<(String, ArtifactMeta)>>)
    ensures
        match r {
            Some(a) => decode_artifact_entries(es@) == Some(arts_view(a@)),
            None => decode_artifact_entries(es@) is None,
        },
{
    let ghost s = es@;
    let mut out: Vec<(String, ArtifactMeta)> = Vec::new();
    let mut i: usize = 0;
    assert(s.take(0) =~= Seq::<(CelKey, CelValue)>::empty());
    assert(arts_view(out@) =~= Seq::<ArtifactView>::empty());
    while i < es.len()
        invariant
            s == es@,
            i <= s.len(),
            decode_artifact_entries(s.take(i as int)) == Some(arts_view(out@)),
        decreases s.len() - i,
    {
        assert(s.take(i + 1).drop_last() =~= s.take(i as int));
        assert(s.take(i + 1).last() == s[i as int]);
        let name = match &es[i].0 {
            CelKey::String(n) => n.clone(),
            _ => {
                proof {
                    lemma_artifact_entries_prefix(s, i + 1);
                }
                return None;
            },
        };
        let checksum = match read_checksum(&es[i].1) {
            Some(c) => c,
            None => {
                proof {
                    lemma_artifact_entries_prefix(s, i + 1);
                }
                return None;
            },
        };
        let ghost prev = out@;
        out.push((name, ArtifactMeta { checksum }));
        assert(arts_view(out@) =~= arts_view(prev).push(arts_view(out@).last()));
        i = i + 1;
    }
    assert(s.take(s.len() as int) =~= s);
    Some(out)
}

/// Reads a job record, as `decode_job` says.
fn read_job(v: &CelValue) -> (r: Option<JobMeta>)
    ensures
        match r {
            Some(j) => decode_job(*v) == Some(j@),
            None => decode_job(*v) is None,
        },
{
    proof {
        reveal_strlit("id");
        reveal_strlit("state");
        reveal_strlit("artifacts");
    }
    let es = match v {
        CelValue::Entries(es) => es,
        _ => return None,
    };
    let id_text = match find_field(es, "id") {
        Some(CelValue::String(t)) => t,
        _ => return None,
    };
    let state = match find_field(es, "state") {
        Some(CelValue::String(t)) => t.clone(),
        _ => return None,
    };
    let arts = match find_field(es, "artifacts") {
        Some(CelValue::Entries(a)) => a,
        _ => return None,
    };
    let id = match parse_uuid(id_text.as_str()) {
        Some(id) => id,
        None => return None,
    };
    let artifacts = match read_artifacts(arts) {
        Some(a) => a,
        None => return None,
    };
    let j = JobMeta { id, state, artifacts };
    assert(j@.artifacts =~= arts_view(j.artifacts@));
    Some(j)
}

proof fn lemma_job_list_prefix(items: Seq<CelValue>, k: int)
    requires
        0 <= k <= items.len(),
        decode_job_list(items.take(k)) is None,
    ensures
        decode_job_list(items) is None,
    decreases items.len(),
{
    if k < items.len() {
        assert(items.drop_last().take(k) =~= items.take(k));
        lemma_job_list_prefix(items.drop_last(), k);
    } else {
        assert(items.take(k) =~= items);
    }
}

/// Reads a list of job records, as `decode_jobs` says.
fn read_jobs(v: &CelValue) -> (r: Option<Vec<JobMeta>>)
    ensures
        match r {
            Some(js) => decode_jobs(*v) == Some(jobs_view(js@)),
            None => decode_jobs(*v) is None,
        },
{
    let items = match v {
        CelValue::List(items) => items,
        _ => return None,
    };
    let ghost s = items@;
    let mut out: Vec<JobMeta> = Vec::new();
    let mut i: usize = 0;
    assert(s.take(0) =~= Seq::<CelValue>::empty());
    assert(jobs_view(out@) =~= Seq::<JobView>::empty());
    while i < items.len()
        invariant
            s == items@,
            *v == CelValue::List(*items),
            i <= s.len(),
            decode_job_list(s.take(i as int)) == Some(jobs_view(out@)),
        decreases s.len() - i,
    {
        assert(s.take(i + 1).drop_last() =~= s.take(i as int));
        assert(s.take(i + 1).last() == s[i as int]);
        match read_job(&items[i]) {
            Some(j) => {
                let ghost prev = out@;
                out.push(j);
                assert(jobs_view(out@) =~= jobs_view(prev).push(j@));
            },
            None => {
                proof {
                    lemma_job_list_prefix(s, i + 1);
                }
                return None;
            },
        }
        i = i + 1;
    }
    assert(s.take(s.len() as int) =~= s);
    Some(out)
}

/// Reads the jobs of this job's own scan, as `own_jobs` says.
fn read_own_jobs(vars: &Vec<(String, CelValue)>) -> (r: Option<Vec<JobMeta>>)
    ensures
        match r {
            Some(js) => own_jobs(vars@) == Some(jobs_view(js@)),
            None => own_jobs(vars@) is None,
        },
{
    proof {
        reveal_strlit("name");
        reveal_strlit("scans");
    }
    let name = match find_var(vars, "name") {
        Some(CelValue::String(n)) => n,
        _ => return None,
    };
    let scans = match find_var(vars, "scans") {
        Some(CelValue::Entries(es)) => es,
        _ => return None,
    };
    match find_field(scans, name.as_str()) {
        Some(j) => read_jobs(j),
        None => None,
    }
}

/// Reads the id of this job, as `this_id` says.
fn read_this_id(vars: &Vec<(String, CelValue)>) -> (r: Option<u128>)
    ensures
        r == this_id(vars@),
{
    proof {
        reveal_strlit("id");
    }
    match find_var(vars, "id") {
        Some(CelValue::String(t)) => parse_uuid(t.as_str()),
        _ => None,
    }
}

/// The engine's `is_available`, called as `scans.<target>.is_available()`:
/// its one argument is the target scan's list of jobs; the variables are
/// those of the evaluation, where this job's scan is found.
pub fn native_is_available(args: Vec<CelValue>, vars: Vec<(String, CelValue)>) -> (r: Result<bool, String>)
    ensures
        args@.len() != 1 ==> (r matches Err(m) && m@ == arity_text(1, args@.len() as int)),
        args@.len() == 1 ==> match available_result(args@[0], vars@) {
            Some(b) => r == Ok::<bool, String>(b),
            None => r is Err,
        },
{
    if args.len() != 1 {
        return Err(arity_message(1, args.len()));
    }
    let target = match read_jobs(&args[0]) {
        Some(t) => t,
        None => return Err(message("expected a list of jobs")),
    };
    let none: Vec<JobMeta> = Vec::new();
    assert(jobs_view(none@) =~= Seq::<JobView>::empty());
    if !is_available(&target, &none) {
        return Ok(false);
    }
    match read_own_jobs(&vars) {
        Some(own) => Ok(is_available(&target, &own)),
        None => Err(message("the jobs of this scan are missing")),
    }
}

/// The engine's `has_diff`, called as `scans.<target>.has_diff(<artifact>)`:
/// its arguments are the target scan's list of jobs and the artifact name;
/// the variables are those of the evaluation, where this job's id and scan
/// are found.
pub fn native_has_diff(args: Vec<CelValue>, vars: Vec<(String, CelValue)>) -> (r: Result<bool, String>)
    ensures
        args@.len() != 2 ==> (r matches Err(m) && m@ == arity_text(2, args@.len() as int)),
        args@.len() == 2 ==> match diff_result(args@[0], args@[1], vars@) {
            Some(b) => r == Ok::<bool, String>(b),
            None => r is Err,
        },
{
    if args.len() != 2 {
        return Err(arity_message(2, args.len()));
    }
    let id = match read_this_id(&vars) {
        Some(id) => id,
        None => return Err(message("failed to parse this id")),
    };
    let name = match &args[1] {
        CelValue::String(n) => n,
        _ => return Err(message("expected a string as artifact name")),
    };
    let target = match read_jobs(&args[0]) {
        Some(t) => t,
        None => return Err(message("expected a list of jobs")),
    };
    let none: Vec<JobMeta> = Vec::new();
    assert(jobs_view(none@) =~= Seq::<JobView>::empty());
    if !has_diff(id, name, &target, &none) {
        return Ok(false);
    }
    match read_own_jobs(&vars) {
        Some(own) => Ok(has_diff(id, name, &target, &own)),
        None => Err(message("the jobs of this scan are missing")),
    }
}

/// Failures of evaluating a job's expressions.
#[derive(Debug, Clone, PartialEq, Eq)]
pub enum EngineError {
    /// The template has an expression that is not closed.
    Template(TemplateError),
    /// The evaluator refused the expression or failed on it; its message.
    Eval(String),
    /// An expression of a template gave a value that has no text form.
    Unsupported,
}

impl EngineError {
    pub fn to_string(&self) -> (r: String)
        ensures
            r@ == match self {
                EngineError::Template(_) => "Missing closing template delimiter"@,
                EngineError::Eval(m) => m@,
                EngineError::Unsupported => "unsupported value type"@,
            },
    {
        match self {
            EngineError::Template(e) => e.to_string(),
            EngineError::Eval(m) => m.clone(),
            EngineError::Unsupported => message("unsupported value type"),
        }
    }
}

/// The text a template shows for a value: integers in decimal, texts as
/// they are, booleans as `true` and `false`, doubles, timestamps and
/// durations as Rust writes them, null as nothing. Lists, maps, bytes and
/// structs have none.
pub open spec fn shown_text(v: CelValue) -> Option<Seq<char>> {
    match v {
        CelValue::Null => Some(Seq::empty()),
        CelValue::Bool(b) => Some(if b { "true"@ } else { "false"@ }),
        CelValue::Int(i) => Some(decimal(i as int)),
        CelValue::Uint(u) => Some(decimal(u as int)),
        CelValue::Double(t) => Some(t@),
        CelValue::String(t) => Some(t@),
        CelValue::Timestamp(t) => Some(t@),
        CelValue::Duration(t) => Some(t@),
        _ => None,
    }
}

/// The text of a value, as `shown_text` says.
pub fn value_text(v: &CelValue) -> (r: Option<String>)
    ensures
        match r {
            Some(t) => shown_text(*v) == Some(t@),
            None => shown_text(*v) is None,
        },
{
    proof {
        reveal_strlit("true");
        reveal_strlit("false");
    }
    match v {
        CelValue::Null => Some(String::new()),
        CelValue::Bool(b) => Some(if *b { message("true") } else { message("false") }),
        CelValue::Int(i) => {
            let mut t = String::new();
            push_decimal(&mut t, *i as i128);
            Some(t)
        },
        CelValue::Uint(u) => {
            let mut t = String::new();
            push_decimal(&mut t, *u as i128);
            Some(t)
        },
        CelValue::Double(t) => Some(t.clone()),
        CelValue::String(t) => Some(t.clone()),
        CelValue::Timestamp(t) => Some(t.clone()),
        CelValue::Duration(t) => Some(t.clone()),
        _ => None,
    }
}

/// Why rendering a template failed.
pub enum TemplFail {
    /// An expression failed to evaluate; the evaluator's message.
    Eval(Seq<char>),
    /// An expression gave a value without a text form.
    Unsupported,
}

/// How far a template renders with the outcomes of its first expressions:
/// the whole text, the failure that stops it, or the next expression that
/// has to be evaluated.
pub enum Walk {
    Text(Seq<char>),
    Fail(TemplFail),
    Need(Seq<char>),
}

/// Renders the tokens of a template left to right: a literal is kept; the
/// `k`-th expression is replaced by the text of the value `outs[k]` holds.
/// The first expression whose outcome is an error, or a value without a
/// text form, decides the failure; the first one without an outcome yet is
/// the one to evaluate next.
pub open spec fn templ_walk(ts: Seq<TokenView>, outs: Seq<Result<CelValue, String>>) -> Walk
    decreases ts.len(),
{
    if ts.len() == 0 {
        Walk::Text(Seq::empty())
    } else {
        match templ_walk(ts.drop_last(), outs) {
            Walk::Text(out) => match ts.last() {
                TokenView::Lit(l) => Walk::Text(out + l),
                TokenView::Expr(e) => {
                    let n = expr_count(ts.drop_last()) as int;
                    if n < outs.len() {
                        match outs[n] {
                            Err(m) => Walk::Fail(TemplFail::Eval(m@)),
                            Ok(v) => match shown_text(v) {
                                Some(t) => Walk::Text(out + t),
                                None => Walk::Fail(TemplFail::Unsupported),
                            },
                        }
                    } else {
                        Walk::Need(e)
                    }
                },
            },
            other => other,
        }
    }
}

/// What a rendering step gives: the next expression to evaluate, or the
/// end of the rendering.
pub enum TemplStep {
    Eval(String),
    Done(Result<String, EngineError>),
}

/// The step `r` is what the template text `s` gives with the outcomes
/// `outs` of its first expressions.
pub open spec fn templ_step(r: TemplStep, s: Seq<char>, outs: Seq<Result<CelValue, String>>) -> bool {
    match parse_spec(s) {
        None => r matches TemplStep::Done(Err(EngineError::Template(_))),
        Some(ts) => match templ_walk(ts, outs) {
            Walk::Text(out) => r matches TemplStep::Done(Ok(o)) && o@ == out,
            Walk::Fail(TemplFail::Eval(m)) => r matches TemplStep::Done(Err(EngineError::Eval(x))) && x@ == m,
            Walk::Fail(TemplFail::Unsupported) => r matches TemplStep::Done(Err(EngineError::Unsupported)),
            Walk::Need(e) => r matches TemplStep::Eval(x) && x@ == e,
        },
    }
}

proof fn lemma_walk_prefix_stops(ts: Seq<TokenView>, k: int, outs: Seq<Result<CelValue, String>>)
    requires
        0 <= k <= ts.len(),
        !(templ_walk(ts.take(k), outs) is Text),
    ensures
        templ_walk(ts, outs) == templ_walk(ts.take(k), outs),
    decreases ts.len(),
{
    if k < ts.len() {
        assert(ts.drop_last().take(k) =~= ts.take(k));
        lemma_walk_prefix_stops(ts.drop_last(), k, outs);
    } else {
        assert(ts.take(k) =~= ts);
    }
}

/// Law: a template without an opening delimiter renders to its own text,
/// whatever the outcomes.
pub proof fn law_plain_template_renders_itself(s: Seq<char>, outs: Seq<Result<CelValue, String>>)
    requires
        forall|k: int| !open_at(s, k),
    ensures
        parse_spec(s) matches Some(ts) && templ_walk(ts, outs) == Walk::Text(s),
{
    law_plain_text(s);
    let ts = parse_spec(s).unwrap();
    if s.len() > 0 {
        assert(ts.drop_last() =~= Seq::<TokenView>::empty());
        assert(templ_walk(ts.drop_last(), outs) == Walk::Text(Seq::empty()));
        assert(ts.last() == TokenView::Lit(s));
        assert(Seq::<char>::empty() + s =~= s);
    } else {
        assert(s =~= Seq::<char>::empty());
    }
}

/// The expressions of a template, in order.
pub open spec fn exprs_of(ts: Seq<TokenView>) -> Seq<Seq<char>>
    decreases ts.len(),
{
    if ts.len() == 0 {
        Seq::empty()
    } else {
        exprs_of(ts.drop_last()) + match ts.last() {
            TokenView::Expr(e) => seq![e],
            TokenView::Lit(_) => Seq::<Seq<char>>::empty(),
        }
    }
}

proof fn lemma_exprs_count(ts: Seq<TokenView>)
    ensures
        exprs_of(ts).len() == expr_count(ts),
    decreases ts.len(),
{
    if ts.len() > 0 {
        lemma_exprs_count(ts.drop_last());
    }
}

/// Law: where the outcome of every expression of a template is a value
/// with a text form, the template renders to its literals with each
/// expression replaced by the text of its value.
pub proof fn law_templ_renders(ts: Seq<TokenView>, outs: Seq<Result<CelValue, String>>, texts: Seq<Seq<char>>)
    requires
        outs.len() >= exprs_of(ts).len(),
        texts.len() >= exprs_of(ts).len(),
        forall|k: int| 0 <= k < exprs_of(ts).len() ==> (#[trigger] outs[k] matches Ok(v) && shown_text(v) == Some(texts[k])),
    ensures
        templ_walk(ts, outs) == Walk::Text(rendered(ts, texts)),
    decreases ts.len(),
{
    if ts.len() > 0 {
        let d = ts.drop_last();
        lemma_exprs_count(d);
        lemma_exprs_count(ts);
        law_templ_renders(d, outs, texts);
    }
}

/// The first position of a variable with the given name; the number of
/// variables where there is none.
pub open spec fn key_index(vars: Seq<(Seq<char>, CelInput)>, name: Seq<char>) -> int
    decreases vars.len(),
{
    if vars.len() == 0 {
        0
    } else if vars[0].0 == name {
        0
    } else {
        1 + key_index(vars.drop_first(), name)
    }
}

/// The variables after setting `name` to `v`: the variable of that name
/// takes the value, or it is added at the end where there is none.
pub open spec fn with_var(vars: Seq<(Seq<char>, CelInput)>, name: Seq<char>, v: CelInput) -> Seq<(Seq<char>, CelInput)> {
    let k = key_index(vars, name);
    if k < vars.len() {
        vars.update(k, (name, v))
    } else {
        vars.push((name, v))
    }
}

proof fn lemma_key_index(vars: Seq<(Seq<char>, CelInput)>, name: Seq<char>, i: int)
    requires
        0 <= i <= vars.len(),
        forall|j: int| 0 <= j < i ==> vars[j].0 != name,
        i < vars.len() ==> vars[i].0 == name,
    ensures
        key_index(vars, name) == i,
    decreases i,
{
    if i > 0 {
        assert(vars[0].0 != name);
        let rest = vars.drop_first();
        assert forall|j: int| 0 <= j < i - 1 implies rest[j].0 != name by {
            assert(rest[j] == vars[j + 1]);
        }
        lemma_key_index(rest, name, i - 1);
    }
}

/// Sets a variable, as `with_var` says.
fn set_var(vars: &mut Vec<(String, CelInput)>, name: &str, v: CelInput)
    ensures
        keyed(final(vars)@) == with_var(keyed(old(vars)@), name@, v),
{
    let ghost before = keyed(vars@);
    let mut i: usize = 0;
    while i < vars.len()
        invariant
            i <= vars@.len(),
            before == keyed(vars@),
            before == keyed(old(vars)@),
            forall|j: int| 0 <= j < i ==> before[j].0 != name@,
        decreases vars@.len() - i,
    {
        if same_text(vars[i].0.as_str(), name) {
            proof {
                lemma_key_index(before, name@, i as int);
            }
            vars.set(i, (String::from_str(name), v));
            assert(keyed(vars@) =~= before.update(i as int, (name@, v)));
            return;
        }
        i = i + 1;
    }
    proof {
        lemma_key_index(before, name@, i as int);
    }
    vars.push((String::from_str(name), v));
    assert(keyed(vars@) =~= before.push((name@, v)));
}

/// The `id` and `name` variables were set: `id` to the text of the UUID,
/// `name` to the text given.
pub open spec fn job_ctx_set(before: Seq<(Seq<char>, CelInput)>, after: Seq<(Seq<char>, CelInput)>, id: u128, name: Seq<char>) -> bool {
    exists|a: CelInput, b: CelInput|
        #![trigger is_text(a, uuid_text(id)), is_text(b, name)]
        is_text(a, uuid_text(id)) && is_text(b, name) && after == with_var(with_var(before, "id"@, a), "name"@, b)
}

/// Where the variables are those of a job, the first nine are not `ok`,
/// and `id` and `name` come first.
proof fn lemma_job_keys(vars: Seq<(Seq<char>, CelInput)>, cfg: Config, ok: bool)
    requires
        job_variables(vars, cfg, ok),
    ensures
        key_index(vars, "ok"@) == 9,
        key_index(vars, "id"@) == 0,
        key_index(vars, "name"@) == 1,
{
    reveal_strlit("id");
    reveal_strlit("name");
    reveal_strlit("project");
    reveal_strlit("workflow");
    reveal_strlit("revision");
    reveal_strlit("scans");
    reveal_strlit("vars");
    reveal_strlit("secrets");
    reveal_strlit("inputs");
    reveal_strlit("ok");
    let r = vars.subrange(2, 9);
    assert(r[0] == vars[2] && r[1] == vars[3] && r[2] == vars[4] && r[3] == vars[5]);
    assert(r[4] == vars[6] && r[5] == vars[7] && r[6] == vars[8]);
    assert("id"@[0] != "ok"@[0]);
    assert("ok"@.len() == 2);
    assert forall|j: int| 0 <= j < 9 implies vars[j].0 != "ok"@ by {
        if j == 0 {
            assert(vars[0].0[0] != "ok"@[0]);
        }
    }
    lemma_key_index(vars, "ok"@, 9);
    lemma_key_index(vars, "id"@, 0);
    lemma_key_index(vars, "name"@, 1);
}

/// The engine a job's expressions are evaluated with: the variables of the
/// job, in the order they were set.
#[derive(Debug)]
pub struct JobEngine {
    vars: Vec<(String, CelInput)>,
}

impl JobEngine {
    /// The variables, in the order they were set.
    pub closed spec fn variables(&self) -> Seq<(Seq<char>, CelInput)> {
        keyed(self.vars@)
    }

    /// An engine for the job: its variables are those of the job, with `ok`
    /// set. The configuration's maps are kept in key order.
    pub fn new(config: &Config) -> (r: JobEngine)
        requires
            config_keyed(*config),
        ensures
            job_variables(r.variables(), *config, true),
    {
        let mut vars: Vec<(String, CelInput)> = Vec::new();
        vars.push((String::from_str("id"), CelInput::String(uuid_string(config.id))));
        vars.push((String::from_str("name"), text(&config.name)));
        let mut records = records_of(config);
        let ghost rec = records@;
        vars.append(&mut records);
        vars.push((String::from_str("ok"), CelInput::Bool(true)));
        vars.push((String::from_str("always"), CelInput::Bool(true)));
        proof {
            reveal_strlit("id");
            reveal_strlit("name");
            reveal_strlit("ok");
            reveal_strlit("always");
            assert(keyed(vars@).subrange(2, 9) =~= keyed(rec));
        }
        JobEngine { vars }
    }

    /// Sets the `ok` variable.
    pub fn set_ok(&mut self, ok: bool)
        ensures
            final(self).variables() == with_var(old(self).variables(), "ok"@, CelInput::Bool(ok)),
            forall|cfg: Config, was: bool|
                job_variables(old(self).variables(), cfg, was) ==> job_variables(final(self).variables(), cfg, ok),
    {
        let ghost before = self.variables();
        set_var(&mut self.vars, "ok", CelInput::Bool(ok));
        assert forall|cfg: Config, was: bool|
            job_variables(before, cfg, was) implies job_variables(self.variables(), cfg, ok) by {
            lemma_job_keys(before, cfg, was);
            assert(self.variables() == before.update(9, ("ok"@, CelInput::Bool(ok))));
            assert(self.variables().subrange(2, 9) =~= before.subrange(2, 9));
        }
    }

    /// Sets the `id` and `name` variables: the job the expressions are
    /// evaluated for. Where the variables are those of a job, the two
    /// first ones take the new values and the others stay.
    pub fn set_job_ctx(&mut self, id: u128, name: &str)
        ensures
            job_ctx_set(old(self).variables(), final(self).variables(), id, name@),
            forall|cfg: Config, ok: bool| job_variables(old(self).variables(), cfg, ok) ==> {
                &&& final(self).variables().len() == 11
                &&& final(self).variables()[0].0 == "id"@ && is_text(final(self).variables()[0].1, uuid_text(id))
                &&& final(self).variables()[1].0 == "name"@ && is_text(final(self).variables()[1].1, name@)
                &&& final(self).variables().subrange(2, 11) == old(self).variables().subrange(2, 11)
            },
    {
        let ghost before = self.variables();
        let a = CelInput::String(uuid_string(id));
        let b = CelInput::String(String::from_str(name));
        let ghost ga = a;
        let ghost gb = b;
        set_var(&mut self.vars, "id", a);
        let ghost mid = self.variables();
        set_var(&mut self.vars, "name", b);
        assert(is_text(ga, uuid_text(id)) && is_text(gb, name@));
        assert forall|cfg: Config, ok: bool| job_variables(before, cfg, ok) implies {
            &&& self.variables().len() == 11
            &&& self.variables()[0].0 == "id"@ && is_text(self.variables()[0].1, uuid_text(id))
            &&& self.variables()[1].0 == "name"@ && is_text(self.variables()[1].1, name@)
            &&& self.variables().subrange(2, 11) == before.subrange(2, 11)
        } by {
            lemma_job_keys(before, cfg, ok);
            assert(mid == before.update(0, ("id"@, ga)));
            assert(mid[1] == before[1]);
            assert forall|j: int| 0 <= j < 1 implies mid[j].0 != "name"@ by {
                reveal_strlit("id");
                reveal_strlit("name");
            }
            lemma_key_index(mid, "name"@, 1);
            assert(self.variables() == mid.update(1, ("name"@, gb)));
            assert(self.variables().subrange(2, 11) =~= before.subrange(2, 11));
        }
    }

    /// The variables, for the evaluator.
    pub fn vars(&self) -> (r: &Vec<(String, CelInput)>)
        ensures
            keyed(r@) == self.variables(),
    {
        &self.vars
    }

    /// One step of rendering a template: with the outcomes of its first
    /// expressions evaluated against the variables, in order, either the
    /// next expression to evaluate or the rendered text. Each `${{ expr }}`
    /// is replaced by the text of its value, literals are kept.
    pub fn eval_templ(&self, s: &str, outcomes: &Vec<Result<CelValue, String>>) -> (r: TemplStep)
        ensures
            templ_step(r, s@, outcomes@),
    {
        let t = match Template::parse(s) {
            Ok(t) => t,
            Err(e) => return TemplStep::Done(Err(EngineError::Template(e))),
        };
        let ghost outs = outcomes@;
        let mut out = String::new();
        let mut n: usize = 0;
        let mut i: usize = 0;
        assert(t@.take(0) =~= Seq::<TokenView>::empty());
        while i < t.tokens.len()
            invariant
                i <= t.tokens@.len(),
                t@.len() == t.tokens@.len(),
                parse_spec(s@) == Some(t@),
                outs == outcomes@,
                n == expr_count(t@.take(i as int)),
                templ_walk(t@.take(i as int), outs) == Walk::Text(out@),
            decreases t.tokens@.len() - i,
        {
            assert(t@.take(i + 1).drop_last() =~= t@.take(i as int));
            assert(t@.take(i + 1).last() == t@[i as int]);
            assert(t@[i as int] == t.tokens@[i as int]@);
            match &t.tokens[i] {
                Token::Lit(l) => {
                    out.append(l.as_str());
                },
                Token::Expr(e) => {
                    if n < outcomes.len() {
                        match &outcomes[n] {
                            Ok(v) => match value_text(v) {
                                Some(x) => {
                                    out.append(x.as_str());
                                },
                                None => {
                                    proof {
                                        lemma_walk_prefix_stops(t@, i + 1, outs);
                                    }
                                    return TemplStep::Done(Err(EngineError::Unsupported));
                                },
                            },
                            Err(m) => {
                                proof {
                                    lemma_walk_prefix_stops(t@, i + 1, outs);
                                }
                                return TemplStep::Done(Err(EngineError::Eval(m.clone())));
                            },
                        }
                        n = n + 1;
                    } else {
                        proof {
                            lemma_walk_prefix_stops(t@, i + 1, outs);
                        }
                        return TemplStep::Eval(e.clone());
                    }
                },
            }
            i = i + 1;
        }
        assert(t@.take(t@.len() as int) =~= t@);
        TemplStep::Done(Ok(out))
    }
}

} // verus!
