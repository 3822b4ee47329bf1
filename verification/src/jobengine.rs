//! Data the job engine evaluates expressions against, and the decisions of
//! the engine's own functions `is_available` and `has_diff`.
use vstd::prelude::*;
use crate::text::{same_text, chars_of};
use crate::templ::{Template, Token, TokenView};

verus! {

broadcast use vstd::string::group_string_axioms;

/// A custom input of a job.
#[derive(Debug, Clone, PartialEq, Eq)]
pub enum InputValue {
    String(String),
    Bool(bool),
}

/// Metadata of an artifact a job produced.
#[derive(Debug, Clone, PartialEq, Eq)]
pub struct ArtifactMeta {
    pub checksum: Option<String>,
}

/// A job of a scan. Ids are time-ordered UUIDs, held as their 128-bit value,
/// which orders them as the UUIDs order.
#[derive(Debug, Clone, PartialEq, Eq)]
pub struct JobMeta {
    pub id: u128,
    pub state: String,
    /// Artifacts by name, in name order, each name once.
    pub artifacts: Vec<(String, ArtifactMeta)>,
}

#[derive(Debug, Clone, Copy, PartialEq, Eq, Structural)]
pub struct ProjectMeta {
    pub id: u128,
}

#[derive(Debug, Clone, Copy, PartialEq, Eq, Structural)]
pub struct WorkflowMeta {
    pub id: u128,
}

#[derive(Debug, Clone, Copy, PartialEq, Eq, Structural)]
pub struct WorkflowRevisionMeta {
    pub id: u128,
}

/// Everything a job's expressions can refer to. Maps are held as lists of
/// entries in key order, each key once.
#[derive(Debug, Clone, PartialEq, Eq)]
pub struct Config {
    /// Id of the job the evaluation is done for.
    pub id: u128,
    /// Name of the scan the job belongs to.
    pub name: String,
    pub vars: Vec<(String, String)>,
    pub secrets: Vec<(String, String)>,
    /// Workflow environment variables, as templates.
    pub env: Vec<(String, String)>,
    pub inputs: Option<Vec<(String, InputValue)>>,
    /// Jobs of each scan of the workflow, newest first.
    pub scans: Vec<(String, Vec<JobMeta>)>,
    pub project: ProjectMeta,
    pub workflow: WorkflowMeta,
    pub revision: WorkflowRevisionMeta,
}

/// Text order as `String` compares: character by character (UTF-8 keeps
/// the order of the characters), a proper prefix first.
pub open spec fn text_lt(a: Seq<char>, b: Seq<char>) -> bool
    decreases a.len(),
{
    if a.len() == 0 {
        b.len() > 0
    } else if b.len() == 0 {
        false
    } else if a[0] != b[0] {
        a[0] < b[0]
    } else {
        text_lt(a.drop_first(), b.drop_first())
    }
}

/// The entries of a map keyed by text: keys in strictly increasing order.
pub open spec fn keyed_in_order<V>(es: Seq<(String, V)>) -> bool {
    forall|i: int| 0 <= i < es.len() - 1 ==> text_lt(#[trigger] es[i].0@, es[i + 1].0@)
}

/// Every map of the configuration is a map: its keys in order, each once.
pub open spec fn config_keyed(c: Config) -> bool {
    &&& keyed_in_order(c.vars@)
    &&& keyed_in_order(c.secrets@)
    &&& keyed_in_order(c.env@)
    &&& (c.inputs matches Some(ins) ==> keyed_in_order(ins@))
    &&& keyed_in_order(c.scans@)
    &&& forall|i: int, j: int| 0 <= i < c.scans@.len() && 0 <= j < c.scans@[i].1@.len()
        ==> keyed_in_order(#[trigger] c.scans@[i].1@[j].artifacts@)
}

proof fn lemma_text_lt_irreflexive(a: Seq<char>)
    ensures
        !text_lt(a, a),
    decreases a.len(),
{
    if a.len() > 0 {
        lemma_text_lt_irreflexive(a.drop_first());
    }
}

proof fn lemma_text_lt_transitive(a: Seq<char>, b: Seq<char>, c: Seq<char>)
    requires
        text_lt(a, b),
        text_lt(b, c),
    ensures
        text_lt(a, c),
    decreases a.len(),
{
    if a.len() > 0 && b.len() > 0 && c.len() > 0 && a[0] == b[0] && b[0] == c[0] {
        lemma_text_lt_transitive(a.drop_first(), b.drop_first(), c.drop_first());
    }
}

proof fn lemma_keyed_lt<V>(es: Seq<(String, V)>, i: int, j: int)
    requires
        keyed_in_order(es),
        0 <= i < j < es.len(),
    ensures
        text_lt(es[i].0@, es[j].0@),
    decreases j - i,
{
    if j > i + 1 {
        lemma_keyed_lt(es, i, j - 1);
        assert(text_lt(es[j - 1].0@, es[j].0@));
        lemma_text_lt_transitive(es[i].0@, es[j - 1].0@, es[j].0@);
    }
}

/// Law: in entries kept in key order no key occurs twice.
pub proof fn law_keyed_unique<V>(es: Seq<(String, V)>, i: int, j: int)
    requires
        keyed_in_order(es),
        0 <= i < j < es.len(),
    ensures
        es[i].0@ != es[j].0@,
{
    lemma_keyed_lt(es, i, j);
    lemma_text_lt_irreflexive(es[i].0@);
}

/// Compares two texts, as `text_lt` orders them.
pub fn text_less(a: &str, b: &str) -> (r: bool)
    ensures
        r == text_lt(a@, b@),
{
    let x = chars_of(a);
    let y = chars_of(b);
    let mut i: usize = 0;
    assert(a@.skip(0) =~= a@);
    assert(b@.skip(0) =~= b@);
    while i < x.len() && i < y.len() && x[i] == y[i]
        invariant
            x@ == a@,
            y@ == b@,
            i <= x@.len(),
            i <= y@.len(),
            text_lt(a@, b@) == text_lt(a@.skip(i as int), b@.skip(i as int)),
        decreases x@.len() - i,
    {
        assert(a@.skip(i as int).drop_first() =~= a@.skip(i + 1));
        assert(b@.skip(i as int).drop_first() =~= b@.skip(i + 1));
        i = i + 1;
    }
    if i == x.len() {
        i < y.len()
    } else if i == y.len() {
        false
    } else {
        assert(a@.skip(i as int)[0] == x@[i as int]);
        assert(b@.skip(i as int)[0] == y@[i as int]);
        x[i] < y[i]
    }
}

/// Checks that entries are kept in key order.
pub fn entries_in_order<V>(es: &Vec<(String, V)>) -> (r: bool)
    ensures
        r == keyed_in_order(es@),
{
    let mut i: usize = 0;
    while i < es.len() && es.len() - i > 1
        invariant
            i <= es@.len() || es@.len() == 0,
            forall|k: int| 0 <= k < i ==> text_lt(#[trigger] es@[k].0@, es@[k + 1].0@),
        decreases es@.len() - i,
    {
        if !text_less(es[i].0.as_str(), es[i + 1].0.as_str()) {
            return false;
        }
        i = i + 1;
    }
    true
}

impl Config {
    /// Whether every map of the configuration is kept in key order, as
    /// `config_keyed` says.
    pub fn keyed(&self) -> (r: bool)
        ensures
            r == config_keyed(*self),
    {
        if !entries_in_order(&self.vars) || !entries_in_order(&self.secrets) || !entries_in_order(&self.env)
            || !entries_in_order(&self.scans) {
            return false;
        }
        if let Some(ins) = &self.inputs {
            if !entries_in_order(ins) {
                return false;
            }
        }
        let mut i: usize = 0;
        while i < self.scans.len()
            invariant
                i <= self.scans@.len(),
                forall|p: int, q: int| 0 <= p < i && 0 <= q < self.scans@[p].1@.len()
                    ==> keyed_in_order(#[trigger] self.scans@[p].1@[q].artifacts@),
            decreases self.scans@.len() - i,
        {
            let jobs = &self.scans[i].1;
            let mut j: usize = 0;
            while j < jobs.len()
                invariant
                    i < self.scans@.len(),
                    *jobs == self.scans@[i as int].1,
                    j <= jobs@.len(),
                    forall|p: int, q: int| 0 <= p < i && 0 <= q < self.scans@[p].1@.len()
                        ==> keyed_in_order(#[trigger] self.scans@[p].1@[q].artifacts@),
                    forall|q: int| 0 <= q < j ==> keyed_in_order(#[trigger] jobs@[q].artifacts@),
                decreases jobs@.len() - j,
            {
                if !entries_in_order(&jobs[j].artifacts) {
                    return false;
                }
                j = j + 1;
            }
            i = i + 1;
        }
        true
    }
}

/// Abstract artifact entry: name and checksum.
pub struct ArtifactView {
    pub name: Seq<char>,
    pub checksum: Option<Seq<char>>,
}

/// Abstract job.
pub struct JobView {
    pub id: u128,
    pub state: Seq<char>,
    pub artifacts: Seq<ArtifactView>,
}

impl View for JobMeta {
    type V = JobView;

    open spec fn view(&self) -> JobView {
        JobView {
            id: self.id,
            state: self.state@,
            artifacts: self.artifacts@.map_values(
                |a: (String, ArtifactMeta)|
                    ArtifactView {
                        name: a.0@,
                        checksum: match a.1.checksum {
                            Some(c) => Some(c@),
                            None => None,
                        },
                    },
            ),
        }
    }
}

/// Abstract list of jobs.
pub open spec fn jobs_view(jobs: Seq<JobMeta>) -> Seq<JobView> {
    jobs.map_values(|j: JobMeta| j@)
}

/// The job succeeded.
pub open spec fn succeeded(j: JobView) -> bool {
    j.state == "succeeded"@
}

/// First succeeded job, by position.
pub open spec fn first_succeeded(jobs: Seq<JobView>) -> Option<JobView>
    decreases jobs.len(),
{
    if jobs.len() == 0 {
        None
    } else if succeeded(jobs[0]) {
        Some(jobs[0])
    } else {
        first_succeeded(jobs.drop_first())
    }
}

/// The job has finished: it succeeded, failed, was cancelled or skipped.
pub open spec fn finished(j: JobView) -> bool {
    j.state == "succeeded"@ || j.state == "failed"@ || j.state == "cancelled"@ || j.state == "skipped"@
}

/// First finished job, by position.
pub open spec fn first_finished(jobs: Seq<JobView>) -> Option<JobView>
    decreases jobs.len(),
{
    if jobs.len() == 0 {
        None
    } else if finished(jobs[0]) {
        Some(jobs[0])
    } else {
        first_finished(jobs.drop_first())
    }
}

/// Whether the target scan is available to this job: the target scan has a
/// succeeded job, and this scan has no finished job yet or its newest
/// finished job is older than the newest succeeded job of the target.
pub open spec fn available(target: Seq<JobView>, this_jobs: Seq<JobView>) -> bool {
    match first_succeeded(target) {
        None => false,
        Some(t) => match first_finished(this_jobs) {
            None => true,
            Some(o) => o.id < t.id,
        },
    }
}

fn is_finished(j: &JobMeta) -> (r: bool)
    ensures
        r == finished(j@),
{
    proof {
        reveal_strlit("succeeded");
        reveal_strlit("failed");
        reveal_strlit("cancelled");
        reveal_strlit("skipped");
    }
    let s = j.state.as_str();
    same_text(s, "succeeded") || same_text(s, "failed") || same_text(s, "cancelled") || same_text(s, "skipped")
}

proof fn lemma_first_finished_step(jobs: Seq<JobView>, i: int)
    requires
        0 <= i < jobs.len(),
        !finished(jobs[i]),
    ensures
        first_finished(jobs.subrange(i, jobs.len() as int)) == first_finished(jobs.subrange(i + 1, jobs.len() as int)),
{
    assert(jobs.subrange(i, jobs.len() as int).drop_first() =~= jobs.subrange(i + 1, jobs.len() as int));
}

/// The id of this scan's newest finished job, if any.
fn newest_finished(jobs: &Vec<JobMeta>) -> (r: Option<u128>)
    ensures
        r == match first_finished(jobs_view(jobs@)) {
            Some(j) => Some(j.id),
            None => None::<u128>,
        },
{
    let ghost v = jobs_view(jobs@);
    let mut i: usize = 0;
    assert(v.subrange(0, v.len() as int) =~= v);
    while i < jobs.len()
        invariant
            v == jobs_view(jobs@),
            i <= jobs@.len(),
            first_finished(v) == first_finished(v.subrange(i as int, v.len() as int)),
        decreases jobs@.len() - i,
    {
        if is_finished(&jobs[i]) {
            assert(v.subrange(i as int, v.len() as int)[0] == v[i as int]);
            return Some(jobs[i].id);
        }
        proof {
            lemma_first_finished_step(v, i as int);
        }
        i = i + 1;
    }
    assert(v.subrange(jobs@.len() as int, v.len() as int) =~= Seq::<JobView>::empty());
    None
}

fn is_succeeded(j: &JobMeta) -> (r: bool)
    ensures
        r == succeeded(j@),
{
    same_text(j.state.as_str(), "succeeded")
}

proof fn lemma_first_succeeded_step(jobs: Seq<JobView>, i: int)
    requires
        0 <= i < jobs.len(),
        !succeeded(jobs[i]),
    ensures
        first_succeeded(jobs.subrange(i, jobs.len() as int)) == first_succeeded(jobs.subrange(i + 1, jobs.len() as int)),
{
    assert(jobs.subrange(i, jobs.len() as int).drop_first() =~= jobs.subrange(i + 1, jobs.len() as int));
}

/// Decides `is_available` for the jobs of the target scan and the jobs of
/// this job's scan (both newest first).
pub fn is_available(target: &Vec<JobMeta>, this_jobs: &Vec<JobMeta>) -> (r: bool)
    ensures
        r == available(jobs_view(target@), jobs_view(this_jobs@)),
{
    let ghost tv = jobs_view(target@);
    let mut i: usize = 0;
    assert(tv.subrange(0, tv.len() as int) =~= tv);
    while i < target.len()
        invariant
            tv == jobs_view(target@),
            i <= target@.len(),
            first_succeeded(tv) == first_succeeded(tv.subrange(i as int, tv.len() as int)),
        decreases target@.len() - i,
    {
        if is_succeeded(&target[i]) {
            assert(tv.subrange(i as int, tv.len() as int)[0] == tv[i as int]);
            return match newest_finished(this_jobs) {
                None => true,
                Some(o) => o < target[i].id,
            };
        }
        proof {
            lemma_first_succeeded_step(tv, i as int);
        }
        i = i + 1;
    }
    false
}

/// Checksum of the named artifact of a job: the first entry with that name,
/// and the empty text when there is none or it has no checksum.
pub open spec fn checksum_of(arts: Seq<ArtifactView>, name: Seq<char>) -> Seq<char>
    decreases arts.len(),
{
    if arts.len() == 0 {
        Seq::empty()
    } else if arts[0].name == name {
        match arts[0].checksum {
            Some(c) => c,
            None => Seq::empty(),
        }
    } else {
        checksum_of(arts.drop_first(), name)
    }
}

/// The job has an artifact of that name.
pub open spec fn has_artifact(j: JobView, name: Seq<char>) -> bool {
    exists|k: int| 0 <= k < j.artifacts.len() && j.artifacts[k].name == name
}

/// Positions of the succeeded jobs among the first `n` that have the named
/// artifact.
pub open spec fn diff_targets(jobs: Seq<JobView>, name: Seq<char>, n: int) -> Seq<int>
    decreases n,
{
    if n <= 0 {
        Seq::empty()
    } else if succeeded(jobs[n - 1]) && has_artifact(jobs[n - 1], name) {
        diff_targets(jobs, name, n - 1).push(n - 1)
    } else {
        diff_targets(jobs, name, n - 1)
    }
}

/// Position of the first job that is not `this_id`.
pub open spec fn first_other(jobs: Seq<JobView>, this_id: u128) -> Option<int>
    decreases jobs.len(),
{
    if jobs.len() == 0 {
        None
    } else if jobs[0].id != this_id {
        Some(0)
    } else {
        match first_other(jobs.drop_first(), this_id) {
            Some(k) => Some(k + 1),
            None => None,
        }
    }
}

/// Whether the named artifact changed in the target scan since this scan
/// last ran: the two newest succeeded target jobs with the artifact have
/// different checksums (a missing one counts as empty), unless this scan
/// has already run after the newest of them. With no such target job it is
/// false; when this scan has no other job it is true.
pub open spec fn diff(this_id: u128, name: Seq<char>, target: Seq<JobView>, this_jobs: Seq<JobView>) -> bool {
    let t = diff_targets(target, name, target.len() as int);
    if t.len() == 0 {
        false
    } else if target[t[0]].artifacts.len() == 0 {
        false
    } else {
        match first_other(this_jobs, this_id) {
            None => true,
            Some(k) => if this_jobs[k].id > target[t[0]].id {
                false
            } else {
                let latest = checksum_of(target[t[0]].artifacts, name);
                let previous = if t.len() > 1 {
                    checksum_of(target[t[1]].artifacts, name)
                } else {
                    Seq::empty()
                };
                latest != previous
            },
        }
    }
}

fn job_has_artifact(j: &JobMeta, name: &String) -> (r: bool)
    ensures
        r == has_artifact(j@, name@),
{
    let mut k: usize = 0;
    while k < j.artifacts.len()
        invariant
            k <= j.artifacts@.len(),
            forall|m: int| 0 <= m < k ==> j@.artifacts[m].name != name@,
        decreases j.artifacts@.len() - k,
    {
        if j.artifacts[k].0 == *name {
            assert(j@.artifacts[k as int].name == name@);
            return true;
        }
        k = k + 1;
    }
    false
}

fn artifact_checksum(j: &JobMeta, name: &String) -> (r: String)
    ensures
        r@ == checksum_of(j@.artifacts, name@),
{
    let ghost arts = j@.artifacts;
    let mut k: usize = 0;
    assert(arts.subrange(0, arts.len() as int) =~= arts);
    while k < j.artifacts.len()
        invariant
            arts == j@.artifacts,
            k <= arts.len(),
            checksum_of(arts, name@) == checksum_of(arts.subrange(k as int, arts.len() as int), name@),
        decreases arts.len() - k,
    {
        assert(arts.subrange(k as int, arts.len() as int)[0] == arts[k as int]);
        if j.artifacts[k].0 == *name {
            return match &j.artifacts[k].1.checksum {
                Some(c) => c.clone(),
                None => String::new(),
            };
        }
        assert(arts.subrange(k as int, arts.len() as int).drop_first() =~= arts.subrange(k + 1, arts.len() as int));
        k = k + 1;
    }
    String::new()
}

proof fn lemma_first_other(jobs: Seq<JobView>, this_id: u128, i: int)
    requires
        0 <= i <= jobs.len(),
        forall|m: int| 0 <= m < i ==> jobs[m].id == this_id,
    ensures
        first_other(jobs, this_id) == match first_other(jobs.subrange(i, jobs.len() as int), this_id) {
            Some(k) => Some(k + i),
            None => None,
        },
    decreases i,
{
    if i > 0 {
        assert(jobs[0].id == this_id);
        lemma_first_other(jobs.drop_first(), this_id, i - 1);
        assert(jobs.drop_first().subrange(i - 1, jobs.len() - 1) =~= jobs.subrange(i, jobs.len() as int));
    } else {
        assert(jobs.subrange(0, jobs.len() as int) =~= jobs);
    }
}

/// Decides `has_diff` for this job's id, the artifact name, the jobs of the
/// target scan and the jobs of this job's scan (both newest first).
pub fn has_diff(this_id: u128, artifact_name: &String, target: &Vec<JobMeta>, this_jobs: &Vec<JobMeta>) -> (r: bool)
    ensures
        r == diff(this_id, artifact_name@, jobs_view(target@), jobs_view(this_jobs@)),
{
    let ghost tv = jobs_view(target@);
    let ghost name = artifact_name@;
    let mut found: Vec<usize> = Vec::new();
    let mut i: usize = 0;
    while i < target.len()
        invariant
            tv == jobs_view(target@),
            name == artifact_name@,
            i <= target@.len(),
            found@.len() == diff_targets(tv, name, i as int).len(),
            forall|m: int| 0 <= m < found@.len() ==> found@[m] as int == diff_targets(tv, name, i as int)[m],
        decreases target@.len() - i,
    {
        if is_succeeded(&target[i]) && job_has_artifact(&target[i], artifact_name) {
            found.push(i);
        }
        i = i + 1;
    }
    let ghost t = diff_targets(tv, name, tv.len() as int);
    if found.len() == 0 {
        return false;
    }
    let first = found[0];
    proof {
        lemma_diff_targets_bounds(tv, name, tv.len() as int);
    }
    if target[first].artifacts.len() == 0 {
        return false;
    }
    let mut k: usize = 0;
    while k < this_jobs.len() && this_jobs[k].id == this_id
        invariant
            k <= this_jobs@.len(),
            forall|m: int| 0 <= m < k ==> this_jobs@[m].id == this_id,
        decreases this_jobs@.len() - k,
    {
        k = k + 1;
    }
    proof {
        let jv = jobs_view(this_jobs@);
        lemma_first_other(jv, this_id, k as int);
        if k < this_jobs.len() {
            assert(jv.subrange(k as int, jv.len() as int)[0] == jv[k as int]);
        } else {
            assert(jv.subrange(k as int, jv.len() as int).len() == 0);
        }
    }
    if k == this_jobs.len() {
        return true;
    }
    if this_jobs[k].id > target[first].id {
        return false;
    }
    let latest = artifact_checksum(&target[first], artifact_name);
    let previous = if found.len() > 1 {
        artifact_checksum(&target[found[1]], artifact_name)
    } else {
        String::new()
    };
    !(latest == previous)
}

proof fn lemma_diff_targets_bounds(jobs: Seq<JobView>, name: Seq<char>, n: int)
    requires
        n <= jobs.len(),
    ensures
        forall|m: int| 0 <= m < diff_targets(jobs, name, n).len() ==> 0 <= #[trigger] diff_targets(jobs, name, n)[m] < n,
    decreases n,
{
    if n > 0 {
        lemma_diff_targets_bounds(jobs, name, n - 1);
        let prev = diff_targets(jobs, name, n - 1);
        assert forall|m: int| 0 <= m < diff_targets(jobs, name, n).len() implies 0 <= #[trigger] diff_targets(jobs, name, n)[m] < n by {
            if m < prev.len() {
                assert(prev[m] < n - 1);
            }
        }
    }
}

/// The jobs of the named scan: the first entry with that name.
pub open spec fn scan_of(scans: Seq<(String, Vec<JobMeta>)>, name: Seq<char>) -> Option<Seq<JobMeta>>
    decreases scans.len(),
{
    if scans.len() == 0 {
        None
    } else if scans[0].0@ == name {
        Some(scans[0].1@)
    } else {
        scan_of(scans.drop_first(), name)
    }
}

/// Looks up the jobs of the named scan.
pub fn scan_jobs<'a>(scans: &'a Vec<(String, Vec<JobMeta>)>, name: &String) -> (r: Option<&'a Vec<JobMeta>>)
    ensures
        match r {
            Some(v) => scan_of(scans@, name@) == Some(v@),
            None => scan_of(scans@, name@) is None,
        },
{
    let ghost s = scans@;
    let mut k: usize = 0;
    assert(s.subrange(0, s.len() as int) =~= s);
    while k < scans.len()
        invariant
            s == scans@,
            k <= s.len(),
            scan_of(s, name@) == scan_of(s.subrange(k as int, s.len() as int), name@),
        decreases s.len() - k,
    {
        assert(s.subrange(k as int, s.len() as int)[0] == s[k as int]);
        if scans[k].0 == *name {
            return Some(&scans[k].1);
        }
        assert(s.subrange(k as int, s.len() as int).drop_first() =~= s.subrange(k + 1, s.len() as int));
        k = k + 1;
    }
    None
}

/// Failures of the engine's own functions.
#[derive(Debug, Clone, Copy, PartialEq, Eq, Structural)]
pub enum EvalError {
    /// The scan of this job is missing from `scans`.
    MissingScan,
}

/// `scans.<target>.is_available()` as this job sees it.
pub open spec fn is_available_result(cfg_scans: Seq<(String, Vec<JobMeta>)>, name: Seq<char>, target: Seq<JobMeta>) -> Result<bool, EvalError> {
    match scan_of(cfg_scans, name) {
        None => if first_succeeded(jobs_view(target)) is None { Ok(false) } else { Err(EvalError::MissingScan) },
        Some(this) => Ok(available(jobs_view(target), jobs_view(this))),
    }
}

impl Config {
    /// The engine's `is_available` function: this job's own scan is looked
    /// up only once the target is known to have a succeeded job.
    pub fn is_available(&self, target: &Vec<JobMeta>) -> (r: Result<bool, EvalError>)
        ensures
            r == is_available_result(self.scans@, self.name@, target@),
    {
        let none: Vec<JobMeta> = Vec::new();
        if !is_available(target, &none) {
            return Ok(false);
        }
        match scan_jobs(&self.scans, &self.name) {
            Some(this) => Ok(is_available(target, this)),
            None => Err(EvalError::MissingScan),
        }
    }
}


/// `scans.<target>.has_diff(name)` as this job sees it.
pub open spec fn has_diff_result(
    id: u128,
    cfg_scans: Seq<(String, Vec<JobMeta>)>,
    name: Seq<char>,
    artifact: Seq<char>,
    target: Seq<JobMeta>,
) -> Result<bool, EvalError> {
    if !diff(id, artifact, jobs_view(target), Seq::empty()) {
        Ok(false)
    } else {
        match scan_of(cfg_scans, name) {
            None => Err(EvalError::MissingScan),
            Some(this) => Ok(diff(id, artifact, jobs_view(target), jobs_view(this))),
        }
    }
}

impl Config {
    /// The engine's `has_diff` function: this job's own scan is looked up
    /// only once the target has a succeeded job with the artifact.
    pub fn has_diff(&self, target: &Vec<JobMeta>, artifact_name: &String) -> (r: Result<bool, EvalError>)
        ensures
            r == has_diff_result(self.id, self.scans@, self.name@, artifact_name@, target@),
    {
        let none: Vec<JobMeta> = Vec::new();
        assert(jobs_view(none@) =~= Seq::<JobView>::empty());
        if !has_diff(self.id, artifact_name, target, &none) {
            return Ok(false);
        }
        match scan_jobs(&self.scans, &self.name) {
            Some(this) => Ok(has_diff(self.id, artifact_name, target, this)),
            None => Err(EvalError::MissingScan),
        }
    }
}

/// Number of expression tokens.
pub open spec fn expr_count(ts: Seq<TokenView>) -> nat
    decreases ts.len(),
{
    if ts.len() == 0 {
        0
    } else {
        expr_count(ts.drop_last()) + if ts.last() is Expr { 1nat } else { 0nat }
    }
}

/// The text of a template where the `k`-th expression is replaced by
/// `values[k]`.
pub open spec fn rendered(ts: Seq<TokenView>, values: Seq<Seq<char>>) -> Seq<char>
    decreases ts.len(),
{
    if ts.len() == 0 {
        Seq::empty()
    } else {
        let n = expr_count(ts.drop_last());
        rendered(ts.drop_last(), values) + match ts.last() {
            TokenView::Lit(l) => l,
            TokenView::Expr(_) => values[n as int],
        }
    }
}

/// Renders a template with the values its expressions evaluated to, in
/// order.
pub fn render(t: &Template, values: &Vec<String>) -> (r: String)
    requires
        values@.len() == expr_count(t@),
    ensures
        r@ == rendered(t@, values@.map_values(|v: String| v@)),
{
    let ghost vs = values@.map_values(|v: String| v@);
    let mut out = String::new();
    let mut n: usize = 0;
    let mut i: usize = 0;
    while i < t.tokens.len()
        invariant
            vs == values@.map_values(|v: String| v@),
            values@.len() == expr_count(t@),
            i <= t.tokens@.len(),
            t@.len() == t.tokens@.len(),
            n == expr_count(t@.take(i as int)),
            out@ == rendered(t@.take(i as int), vs),
        decreases t.tokens@.len() - i,
    {
        proof {
            assert(t@.take(i + 1).drop_last() =~= t@.take(i as int));
            lemma_expr_count_prefix(t@, i as int + 1);
        }
        match &t.tokens[i] {
            Token::Lit(l) => {
                out = out.concat(l.as_str());
            },
            Token::Expr(_) => {
                let vlen = values.len();
                assert(n < vlen);
                out = out.concat(values[n].as_str());
                n = n + 1;
            },
        }
        i = i + 1;
    }
    assert(t@.take(t@.len() as int) =~= t@);
    out
}

/// Expressions in a prefix of the tokens are at most those in all of them.
pub proof fn lemma_expr_count_prefix(ts: Seq<TokenView>, k: int)
    requires
        0 <= k <= ts.len(),
    ensures
        expr_count(ts.take(k)) <= expr_count(ts),
        k < ts.len() ==> expr_count(ts.take(k)) + (if ts[k] is Expr { 1nat } else { 0nat }) <= expr_count(ts),
    decreases ts.len(),
{
    if k < ts.len() {
        lemma_expr_count_prefix(ts.drop_last(), k);
        assert(ts.drop_last().take(k) =~= ts.take(k));
        if k < ts.len() - 1 {
            assert(ts.drop_last()[k] == ts[k]);
        } else {
            assert(ts.take(k) =~= ts.drop_last());
        }
    } else {
        assert(ts.take(k) =~= ts);
    }
}

/// A succeeded job whose one artifact is `name` with the checksum `c`.
pub open spec fn succeeded_with(j: JobView, name: Seq<char>, c: Seq<char>) -> bool {
    &&& j.state == "succeeded"@
    &&& j.artifacts == seq![ArtifactView { name, checksum: Some(c) }]
}

proof fn lemma_two_newest_targets(jobs: Seq<JobView>, name: Seq<char>, n: int)
    requires
        2 <= n <= jobs.len(),
        succeeded(jobs[0]) && has_artifact(jobs[0], name),
        succeeded(jobs[1]) && has_artifact(jobs[1], name),
    ensures
        diff_targets(jobs, name, n).len() >= 2,
        diff_targets(jobs, name, n)[0] == 0,
        diff_targets(jobs, name, n)[1] == 1,
    decreases n,
{
    if n > 2 {
        lemma_two_newest_targets(jobs, name, n - 1);
    } else {
        assert(diff_targets(jobs, name, 0) == Seq::<int>::empty());
        assert(diff_targets(jobs, name, 1) == Seq::<int>::empty().push(0));
        assert(diff_targets(jobs, name, 2) == Seq::<int>::empty().push(0).push(1));
    }
}

/// Law: once `has_diff` compares checksums (this scan's newest other job
/// ran no later than the target's newest success), it compares the two
/// newest succeeded target jobs with the artifact, and older target jobs
/// never matter.
pub proof fn law_has_diff_two_newest(
    this_id: u128,
    name: Seq<char>,
    j1: JobView,
    j2: JobView,
    c1: Seq<char>,
    c2: Seq<char>,
    older: Seq<JobView>,
    other: JobView,
)
    requires
        succeeded_with(j1, name, c1),
        succeeded_with(j2, name, c2),
        other.id != this_id,
        other.id <= j1.id,
    ensures
        diff(this_id, name, seq![j1, j2] + older, seq![other]) == (c1 != c2),
{
    let target = seq![j1, j2] + older;
    assert(target[0] == j1 && target[1] == j2);
    assert(has_artifact(target[0], name)) by {
        assert(target[0].artifacts[0].name == name);
    }
    assert(has_artifact(target[1], name)) by {
        assert(target[1].artifacts[0].name == name);
    }
    lemma_two_newest_targets(target, name, target.len() as int);
    assert(first_other(seq![other], this_id) == Some(0int));
    assert(checksum_of(j1.artifacts, name) == c1);
    assert(checksum_of(j2.artifacts, name) == c2);
}

/// Law: the newest job of this scan, once it has finished (succeeded,
/// failed, was cancelled or skipped), decides availability: the target is
/// available exactly when it has a succeeded job and this job ran before
/// the target's newest success.
pub proof fn law_available_newest_finished(target: Seq<JobView>, this_jobs: Seq<JobView>)
    requires
        this_jobs.len() > 0,
        this_jobs[0].state == "succeeded"@ || this_jobs[0].state == "failed"@ || this_jobs[0].state == "cancelled"@
            || this_jobs[0].state == "skipped"@,
    ensures
        available(target, this_jobs) == (first_succeeded(target) matches Some(t) && this_jobs[0].id < t.id),
{
}

proof fn lemma_newest_target(jobs: Seq<JobView>, name: Seq<char>, n: int)
    requires
        1 <= n <= jobs.len(),
        succeeded(jobs[0]) && has_artifact(jobs[0], name),
    ensures
        diff_targets(jobs, name, n).len() >= 1,
        diff_targets(jobs, name, n)[0] == 0,
    decreases n,
{
    if n > 1 {
        lemma_newest_target(jobs, name, n - 1);
    } else {
        assert(diff_targets(jobs, name, 0) == Seq::<int>::empty());
        assert(diff_targets(jobs, name, 1) == Seq::<int>::empty().push(0));
    }
}

/// Law: where this scan has no job other than this one, an artifact the
/// target's newest succeeded job holds counts as changed.
pub proof fn law_has_diff_first_run(this_id: u128, name: Seq<char>, j1: JobView, c1: Seq<char>, older: Seq<JobView>)
    requires
        succeeded_with(j1, name, c1),
    ensures
        diff(this_id, name, seq![j1] + older, Seq::empty()),
{
    let target = seq![j1] + older;
    assert(target[0] == j1);
    assert(has_artifact(target[0], name)) by {
        assert(target[0].artifacts[0].name == name);
    }
    lemma_newest_target(target, name, target.len() as int);
}

/// Law: where this scan's newest other job ran after the target's newest
/// success, nothing counts as changed, whatever the checksums.
pub proof fn law_has_diff_ran_after(
    this_id: u128,
    name: Seq<char>,
    j1: JobView,
    c1: Seq<char>,
    older: Seq<JobView>,
    other: JobView,
    earlier: Seq<JobView>,
)
    requires
        succeeded_with(j1, name, c1),
        other.id != this_id,
        other.id > j1.id,
    ensures
        !diff(this_id, name, seq![j1] + older, seq![other] + earlier),
{
    let target = seq![j1] + older;
    assert(target[0] == j1);
    assert(has_artifact(target[0], name)) by {
        assert(target[0].artifacts[0].name == name);
    }
    lemma_newest_target(target, name, target.len() as int);
    assert((seq![other] + earlier)[0] == other);
}

} // verus!
