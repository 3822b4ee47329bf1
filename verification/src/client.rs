//! Messages exchanged with the BountyHub services, and the classification
//! of their failures.
use vstd::prelude::*;
use crate::text::{chars_of, push_char};
use crate::recoil::{State, Error as RetryError};

verus! {

broadcast use vstd::string::group_string_axioms;

/// Final outcome of a step that failed: whether the job goes on as if the
/// step had succeeded.
#[derive(Debug, Clone, Copy, PartialEq, Eq, Structural)]
pub enum TimelineRequestStepOutcome {
    Succeeded,
    Failed,
    Skipped,
}

/// State of a step, as posted to the timeline.
#[derive(Debug, Clone, Copy, PartialEq, Eq, Structural)]
pub enum TimelineRequestStepState {
    Running,
    Succeeded,
    Failed { outcome: TimelineRequestStepOutcome },
    Cancelled,
    Skipped,
}

impl TimelineRequestStepOutcome {
    /// Text form: `succeeded`, `failed` or `skipped`.
    pub fn to_string(&self) -> (r: String)
        ensures
            r@ == match self {
                TimelineRequestStepOutcome::Succeeded => "succeeded"@,
                TimelineRequestStepOutcome::Failed => "failed"@,
                TimelineRequestStepOutcome::Skipped => "skipped"@,
            },
    {
        match self {
            TimelineRequestStepOutcome::Succeeded => String::from_str("succeeded"),
            TimelineRequestStepOutcome::Failed => String::from_str("failed"),
            TimelineRequestStepOutcome::Skipped => String::from_str("skipped"),
        }
    }
}

impl TimelineRequestStepState {
    /// A step is done once it left the running state.
    pub fn is_done(&self) -> (r: bool)
        ensures
            r == !(self is Running),
    {
        match self {
            TimelineRequestStepState::Running => false,
            _ => true,
        }
    }

    /// Text form: `running`, `succeeded`, `failed (outcome = ...)`,
    /// `cancelled` or `skipped`.
    pub fn to_string(&self) -> (r: String)
        ensures
            r@ == match self {
                TimelineRequestStepState::Running => "running"@,
                TimelineRequestStepState::Succeeded => "succeeded"@,
                TimelineRequestStepState::Failed { outcome } => "failed (outcome = "@ + match outcome {
                    TimelineRequestStepOutcome::Succeeded => "succeeded"@,
                    TimelineRequestStepOutcome::Failed => "failed"@,
                    TimelineRequestStepOutcome::Skipped => "skipped"@,
                } + ")"@,
                TimelineRequestStepState::Cancelled => "cancelled"@,
                TimelineRequestStepState::Skipped => "skipped"@,
            },
    {
        match self {
            TimelineRequestStepState::Running => String::from_str("running"),
            TimelineRequestStepState::Succeeded => String::from_str("succeeded"),
            TimelineRequestStepState::Failed { outcome } => {
                let s = String::from_str("failed (outcome = ");
                let o = outcome.to_string();
                let s = s.concat(o.as_str());
                s.concat(")")
            },
            TimelineRequestStepState::Cancelled => String::from_str("cancelled"),
            TimelineRequestStepState::Skipped => String::from_str("skipped"),
        }
    }
}

/// A timeline update for the step at `index`.
#[derive(Debug, Clone, Copy, PartialEq, Eq, Structural)]
pub struct TimelineRequest {
    pub index: u32,
    pub state: TimelineRequestStepState,
}

/// Size of an artifact about to be uploaded.
#[derive(Debug, Clone, Copy, PartialEq, Eq, Structural)]
pub struct JobUploadRequest {
    pub size: u64,
}

/// Stream a log line was written to.
#[derive(Debug, Clone, Copy, PartialEq, Eq, Structural)]
pub enum LogDestination {
    Stdout,
    Stderr,
}

impl LogDestination {
    /// Wire code of the stream: 1 for stdout, 2 for stderr.
    pub open spec fn code_spec(&self) -> u8 {
        match self {
            LogDestination::Stdout => 1u8,
            LogDestination::Stderr => 2u8,
        }
    }

    /// Wire code of the stream: 1 for stdout, 2 for stderr.
    pub fn code(&self) -> (r: u8)
        ensures
            r == self.code_spec(),
    {
        match self {
            LogDestination::Stdout => 1,
            LogDestination::Stderr => 2,
        }
    }
}

/// One line of a step's log.
#[derive(Debug, Clone, PartialEq, Eq)]
pub struct LogLine {
    pub dst: LogDestination,
    pub step_index: u32,
    /// When the line was produced, in nanoseconds since the Unix epoch.
    pub timestamp: i128,
    pub line: String,
}

/// The lowercase hexadecimal digit for `d < 16`.
pub open spec fn hex_char(d: nat) -> char {
    if d < 10 {
        ('0' as nat + d) as char
    } else {
        ('a' as nat + (d - 10)) as char
    }
}

/// Lowercase hexadecimal digits of `n`, without leading zeros.
pub open spec fn hex_digits(n: nat) -> Seq<char>
    decreases n,
{
    if n < 16 {
        seq![hex_char(n)]
    } else {
        hex_digits(n / 16) + seq![hex_char(n % 16)]
    }
}

/// `char::escape_default`: the escapes `\t`, `\r`, `\n`, `\\`, `\'`, `\"`;
/// printable ASCII as it is; anything else as `\u{...}`.
pub open spec fn escape_char(c: char) -> Seq<char> {
    if c == '\t' {
        seq!['\\', 't']
    } else if c == '\r' {
        seq!['\\', 'r']
    } else if c == '\n' {
        seq!['\\', 'n']
    } else if c == '\\' || c == '\'' || c == '"' {
        seq!['\\', c]
    } else if ' ' <= c && c <= '~' {
        seq![c]
    } else {
        seq!['\\', 'u', '{'] + hex_digits(c as nat) + seq!['}']
    }
}

/// `str::escape_default`: every character escaped in turn.
pub open spec fn escape_text(s: Seq<char>) -> Seq<char>
    decreases s.len(),
{
    if s.len() == 0 {
        Seq::empty()
    } else {
        escape_text(s.drop_last()) + escape_char(s.last())
    }
}

fn push_hex(out: &mut String, n: u32)
    ensures
        final(out)@ == old(out)@ + hex_digits(n as nat),
    decreases n,
{
    if n >= 16 {
        push_hex(out, n / 16);
    }
    let d = n % 16;
    let c = if d < 10 {
        ('0' as u8 + d as u8) as char
    } else {
        ('a' as u8 + (d - 10) as u8) as char
    };
    assert(c == hex_char(d as nat));
    push_char(out, c);
    assert(final(out)@ =~= old(out)@ + hex_digits(n as nat));
}

fn push_escaped(out: &mut String, c: char)
    ensures
        final(out)@ == old(out)@ + escape_char(c),
{
    let ghost start = out@;
    if c == '\t' {
        push_char(out, '\\');
        push_char(out, 't');
    } else if c == '\r' {
        push_char(out, '\\');
        push_char(out, 'r');
    } else if c == '\n' {
        push_char(out, '\\');
        push_char(out, 'n');
    } else if c == '\\' || c == '\'' || c == '"' {
        push_char(out, '\\');
        push_char(out, c);
    } else if ' ' <= c && c <= '~' {
        push_char(out, c);
    } else {
        push_char(out, '\\');
        push_char(out, 'u');
        push_char(out, '{');
        push_hex(out, c as u32);
        push_char(out, '}');
    }
    assert(out@ =~= start + escape_char(c));
}

/// Escapes a text as `str::escape_default` does.
pub fn escape_default(s: &str) -> (r: String)
    ensures
        r@ == escape_text(s@),
{
    let cs = chars_of(s);
    let mut out = String::new();
    let mut i: usize = 0;
    while i < cs.len()
        invariant
            cs@ == s@,
            i <= cs@.len(),
            out@ == escape_text(cs@.take(i as int)),
        decreases cs@.len() - i,
    {
        push_escaped(&mut out, cs[i]);
        assert(cs@.take(i + 1).drop_last() =~= cs@.take(i as int));
        i = i + 1;
    }
    assert(cs@.take(cs@.len() as int) =~= cs@);
    out
}

/// Nanoseconds since the Unix epoch now, from `time::OffsetDateTime::now_utc`.
/// Nothing is promised of the value: it is the clock's.
#[verifier::external_body]
fn now_unix_nanos() -> i128 {
    time::OffsetDateTime::now_utc().unix_timestamp_nanos()
}

impl LogLine {
    /// A log line written to `dst` at `timestamp`; the text is escaped.
    pub fn at(dst: LogDestination, step_index: u32, line: &str, timestamp: i128) -> (r: LogLine)
        ensures
            r.dst == dst,
            r.step_index == step_index,
            r.timestamp == timestamp,
            r.line@ == escape_text(line@),
    {
        LogLine { dst, step_index, timestamp, line: escape_default(line) }
    }

    /// A stdout line of the step, stamped with the current time.
    pub fn stdout(step_index: u32, line: &str) -> (r: LogLine)
        ensures
            r.dst == LogDestination::Stdout,
            r.step_index == step_index,
            r.line@ == escape_text(line@),
    {
        LogLine::at(LogDestination::Stdout, step_index, line, now_unix_nanos())
    }

    /// A stderr line of the step, stamped with the current time.
    pub fn stderr(step_index: u32, line: &str) -> (r: LogLine)
        ensures
            r.dst == LogDestination::Stderr,
            r.step_index == step_index,
            r.line@ == escape_text(line@),
    {
        LogLine::at(LogDestination::Stderr, step_index, line, now_unix_nanos())
    }
}

/// Why a request to a service failed.
#[derive(Debug, Clone, Copy, PartialEq, Eq, Structural)]
pub enum ConnectionError {
    MaxRetriesError,
    TimeoutError,
}

/// Failure of a request to a service.
#[derive(Debug, Clone, Copy, PartialEq, Eq, Structural)]
pub enum ClientError {
    /// The service answered with a 5xx status.
    ServerError(u16),
    /// The service answered 401 or 403.
    UnauthorizedError,
    /// The service answered 409.
    ConflictError,
    /// The service answered with another status.
    ResponseError(u16),
    ConnectionError(ConnectionError),
    /// The transport failed in another way.
    ClientError,
    CancellationError,
    IoError,
}

/// Classification of an HTTP status that is not a success.
pub open spec fn status_error(code: u16) -> ClientError {
    if code >= 500 {
        ClientError::ServerError(code)
    } else if code == 401 || code == 403 {
        ClientError::UnauthorizedError
    } else if code == 409 {
        ClientError::ConflictError
    } else {
        ClientError::ResponseError(code)
    }
}

impl ClientError {
    /// The error for an HTTP status the service answered with.
    pub fn from_status(code: u16) -> (r: ClientError)
        ensures
            r == status_error(code),
    {
        if code >= 500 {
            ClientError::ServerError(code)
        } else if code == 401 || code == 403 {
            ClientError::UnauthorizedError
        } else if code == 409 {
            ClientError::ConflictError
        } else {
            ClientError::ResponseError(code)
        }
    }

    /// Connection failures and server errors are worth retrying; nothing
    /// else is.
    pub fn is_retryable(&self) -> (r: bool)
        ensures
            r == (self is ConnectionError || self is ServerError),
    {
        match self {
            ClientError::ConnectionError(_) | ClientError::ServerError(_) => true,
            _ => false,
        }
    }

    /// Text form of the error.
    pub fn to_string(&self) -> (r: String)
        ensures
            r@ == match self {
                ClientError::ServerError(_) => "Server error"@,
                ClientError::UnauthorizedError => "Unauthorized"@,
                ClientError::ConflictError => "Conflict"@,
                ClientError::ResponseError(_) => "Response error"@,
                ClientError::ConnectionError(_) => "Connection error"@,
                ClientError::ClientError => "Client error"@,
                ClientError::CancellationError => "Operation cancelled"@,
                ClientError::IoError => "IO error"@,
            },
    {
        match self {
            ClientError::ServerError(_) => String::from_str("Server error"),
            ClientError::UnauthorizedError => String::from_str("Unauthorized"),
            ClientError::ConflictError => String::from_str("Conflict"),
            ClientError::ResponseError(_) => String::from_str("Response error"),
            ClientError::ConnectionError(_) => String::from_str("Connection error"),
            ClientError::ClientError => String::from_str("Client error"),
            ClientError::CancellationError => String::from_str("Operation cancelled"),
            ClientError::IoError => String::from_str("IO error"),
        }
    }
}


/// Registration of a runner with the hub.
#[derive(Debug, Clone, PartialEq, Eq)]
pub struct RegistrationRequest {
    pub token: String,
    pub name: String,
    pub workdir: String,
}

/// The hub's answer to a registration.
#[derive(Debug, Clone, PartialEq, Eq)]
pub struct RegistrationResponse {
    pub token: String,
    pub invoker_url: String,
    pub fluxy_url: String,
}

/// Requests a runner sends over its event connection.
#[derive(Debug, Clone, Copy, PartialEq, Eq, Structural)]
pub enum RunnerRequestEvent {
    AcquireJobs { capacity: u32 },
}

/// Long-poll request for jobs, with the runner's capacity.
#[derive(Debug, Clone, Copy, PartialEq, Eq, Structural)]
pub struct PollRequest {
    pub capacity: u32,
}

/// A job handed to this runner, with the token its worker uses.
#[derive(Debug, Clone, PartialEq, Eq)]
pub struct JobAcquiredResponse {
    pub id: u128,
    pub token: String,
}

/// Completion of a job.
#[derive(Debug, Clone, Copy, PartialEq, Eq, Structural)]
pub struct CompleteRequest {
    pub job_id: u128,
}

/// Answer that carries an upload location.
#[derive(Debug, Clone, PartialEq, Eq)]
pub struct UrlResponse {
    pub url: String,
}

/// An artifact to upload after a scan.
#[derive(Debug, Clone, PartialEq, Eq)]
pub struct WorkflowArtifact {
    pub name: String,
    /// Glob patterns of the files of the artifact.
    pub paths: Vec<String>,
    /// Condition checked before uploading.
    pub cond: Option<String>,
    /// Seconds after which the artifact expires.
    pub expires_in: Option<u64>,
    /// Not tracked by the notification system.
    pub untracked: bool,
}

/// A step of a job, as the service describes it.
#[derive(Debug, Clone, PartialEq, Eq)]
pub enum Step {
    Setup,
    Teardown,
    Upload { uploads: Vec<String> },
    Command { cond: String, run: String, shell: String, allow_failed: bool },
}

/// A resolved job: its steps and what its expressions can refer to.
#[derive(Debug, Clone, PartialEq, Eq)]
pub struct JobResolvedResponse {
    pub steps: Vec<Step>,
    pub cfg: crate::jobengine::Config,
}

/// Reference to one step of one job.
#[derive(Debug, Clone, Copy, PartialEq, Eq, Structural)]
pub struct StepRef {
    pub project_id: u128,
    pub workflow_id: u128,
    pub revision_id: u128,
    pub job_id: u128,
    pub step_index: u32,
}

/// User agent of the HTTP clients.
#[derive(Debug, Clone, PartialEq, Eq)]
pub struct HttpClientBuilderConfig {
    pub user_agent: String,
}

/// Timeouts (in seconds) and user agent of one HTTP client.
#[derive(Debug, Clone, PartialEq, Eq)]
pub struct ClientConfig {
    pub user_agent: String,
    pub timeout_connect: u64,
    pub timeout_read: u64,
    pub timeout_write: u64,
}

/// The HTTP clients of the runner: default, long-poll, assets and log
/// stream.
#[derive(Debug, Clone, PartialEq, Eq)]
pub struct PoolConfig {
    pub default_client: ClientConfig,
    pub long_poll_client: ClientConfig,
    pub assets_client: ClientConfig,
    pub stream_client: ClientConfig,
}

fn client_config(user_agent: &String, connect: u64, read: u64, write: u64) -> (r: ClientConfig)
    ensures
        r.user_agent == user_agent,
        r.timeout_connect == connect,
        r.timeout_read == read,
        r.timeout_write == write,
{
    ClientConfig { user_agent: user_agent.clone(), timeout_connect: connect, timeout_read: read, timeout_write: write }
}

impl PoolConfig {
    /// The runner's clients: every one connects within 10 s; the default one
    /// reads and writes within 30 s, the long-poll one reads within 2 min and
    /// writes within 10 s, the assets one reads and writes within 2 min, and
    /// the log stream one within 45 min.
    pub fn standard(user_agent: &String) -> (r: PoolConfig)
        ensures
            r.default_client == (ClientConfig { user_agent: *user_agent, timeout_connect: 10, timeout_read: 30, timeout_write: 30 }),
            r.long_poll_client == (ClientConfig { user_agent: *user_agent, timeout_connect: 10, timeout_read: 120, timeout_write: 10 }),
            r.assets_client == (ClientConfig { user_agent: *user_agent, timeout_connect: 10, timeout_read: 120, timeout_write: 120 }),
            r.stream_client == (ClientConfig { user_agent: *user_agent, timeout_connect: 10, timeout_read: 2700, timeout_write: 2700 }),
    {
        PoolConfig {
            default_client: client_config(user_agent, 10, 30, 30),
            long_poll_client: client_config(user_agent, 10, 120, 10),
            assets_client: client_config(user_agent, 10, 120, 120),
            stream_client: client_config(user_agent, 10, 2700, 2700),
        }
    }
}

impl PoolConfig {
    /// The clients as the runner sets them up to talk to the services: as
    /// `standard`, but the long-poll client also writes within 2 min.
    pub fn in_use(user_agent: &String) -> (r: PoolConfig)
        ensures
            r.default_client == (ClientConfig { user_agent: *user_agent, timeout_connect: 10, timeout_read: 30, timeout_write: 30 }),
            r.long_poll_client == (ClientConfig { user_agent: *user_agent, timeout_connect: 10, timeout_read: 120, timeout_write: 120 }),
            r.assets_client == (ClientConfig { user_agent: *user_agent, timeout_connect: 10, timeout_read: 120, timeout_write: 120 }),
            r.stream_client == (ClientConfig { user_agent: *user_agent, timeout_connect: 10, timeout_read: 2700, timeout_write: 2700 }),
    {
        let mut p = PoolConfig::standard(user_agent);
        p.long_poll_client = client_config(user_agent, 10, 120, 120);
        p
    }
}

/// Law: a status is retried exactly when it is a server error (5xx).
pub proof fn law_status_retry(code: u16)
    ensures
        (status_error(code) is ServerError || status_error(code) is ConnectionError) == (code >= 500),
{
}

/// What one attempt of a request decides. `None` is an attempt the
/// cancelled context stopped before it was made: it fails as cancelled. A
/// value is handed back; a connection or server failure is tried again;
/// any other failure is final.
pub fn attempt_state<T>(attempt: Option<Result<T, ClientError>>) -> (r: State<T, (), ClientError>)
    ensures
        match attempt {
            None => r == State::<T, (), ClientError>::Fail(ClientError::CancellationError),
            Some(Ok(t)) => r == State::<T, (), ClientError>::Done(t),
            Some(Err(e)) => if e is ConnectionError || e is ServerError {
                r == State::<T, (), ClientError>::Retry(())
            } else {
                r == State::<T, (), ClientError>::Fail(e)
            },
        },
{
    match attempt {
        None => State::Fail(ClientError::CancellationError),
        Some(Ok(t)) => State::Done(t),
        Some(Err(e)) => if e.is_retryable() {
            State::Retry(())
        } else {
            State::Fail(e)
        },
    }
}

/// The error a request that gave up reports: running out of retries is a
/// connection error of its own; otherwise the attempt's error.
pub fn gave_up(e: RetryError<ClientError>) -> (r: ClientError)
    ensures
        r == match e {
            RetryError::MaxRetriesReached => ClientError::ConnectionError(ConnectionError::MaxRetriesError),
            RetryError::Custom(c) => c,
        },
{
    match e {
        RetryError::MaxRetriesReached => ClientError::ConnectionError(ConnectionError::MaxRetriesError),
        RetryError::Custom(c) => c,
    }
}

/// Printable ASCII, from the space to `~`.
pub open spec fn printable(c: char) -> bool {
    ' ' <= c && c <= '~'
}

proof fn lemma_hex_digits_printable(n: nat)
    ensures
        forall|i: int| 0 <= i < hex_digits(n).len() ==> printable(#[trigger] hex_digits(n)[i]),
    decreases n,
{
    if n < 16 {
        assert(hex_digits(n)[0] == hex_char(n));
    } else {
        lemma_hex_digits_printable(n / 16);
        let d = hex_digits(n);
        assert forall|i: int| 0 <= i < d.len() implies printable(#[trigger] d[i]) by {
            if i < hex_digits(n / 16).len() {
                assert(d[i] == hex_digits(n / 16)[i]);
            } else {
                assert(d[i] == hex_char(n % 16));
            }
        }
    }
}

proof fn lemma_escape_char_printable(c: char)
    ensures
        forall|i: int| 0 <= i < escape_char(c).len() ==> printable(#[trigger] escape_char(c)[i]),
{
    lemma_hex_digits_printable(c as nat);
    if !(c == '\t' || c == '\r' || c == '\n' || c == '\\' || c == '\'' || c == '"' || (' ' <= c && c <= '~')) {
        let h = hex_digits(c as nat);
        let e = seq!['\\', 'u', '{'] + h + seq!['}'];
        assert forall|i: int| 0 <= i < e.len() implies printable(#[trigger] e[i]) by {
            if 3 <= i < 3 + h.len() {
                assert(e[i] == h[i - 3]);
            }
        }
    }
}

/// Law: escaped text holds printable ASCII only: every control character,
/// and every character beyond ASCII, is written with an escape.
pub proof fn law_escaped_is_printable(s: Seq<char>)
    ensures
        forall|i: int| 0 <= i < escape_text(s).len() ==> ' ' <= #[trigger] escape_text(s)[i] && escape_text(s)[i] <= '~',
    decreases s.len(),
{
    if s.len() > 0 {
        law_escaped_is_printable(s.drop_last());
        lemma_escape_char_printable(s.last());
        let a = escape_text(s.drop_last());
        let b = escape_char(s.last());
        assert forall|i: int| 0 <= i < escape_text(s).len() implies ' ' <= #[trigger] escape_text(s)[i] && escape_text(s)[i] <= '~' by {
            if i < a.len() {
                assert(escape_text(s)[i] == a[i]);
            } else {
                assert(escape_text(s)[i] == b[i - a.len()]);
                assert(printable(b[i - a.len()]));
            }
        }
    }
}

} // verus!
