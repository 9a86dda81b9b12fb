//! Reports of background jobs: their status codes, their errors, and the
//! conversion of a stored job record into a report.
use vstd::prelude::*;
use vstd::string::StringExecFns;

verus! {

/// A progress update sent by a running job.
#[derive(Debug)]
pub enum JobReportUpdate {
    TaskCount(usize),
    CompletedTaskCount(usize),
    Message(String),
}

/// Lifecycle status of a job; each has a stable integer code.
#[derive(Clone, Copy, PartialEq, Eq, Structural, Debug)]
pub enum JobStatus {
    Queued,
    Running,
    Completed,
    Canceled,
    Failed,
    Paused,
    CompletedWithErrors,
}

/// The stored integer code of a status.
pub open spec fn status_code(s: JobStatus) -> i32 {
    match s {
        JobStatus::Queued => 0,
        JobStatus::Running => 1,
        JobStatus::Completed => 2,
        JobStatus::Canceled => 3,
        JobStatus::Failed => 4,
        JobStatus::Paused => 5,
        JobStatus::CompletedWithErrors => 6,
    }
}

/// Errors of the job system.
#[derive(Debug)]
pub enum JobError {
    DatabaseError(String),
    JoinTaskError(String),
    StateEncode(String),
    StateDecode(String),
    MetadataSerialization(String),
    UnknownJobName(u128, String),
    MissingJobDataState(u128, String),
    MissingReport { id: u128, name: String },
    MissingData { value: String },
    OsStr,
    Path,
    InvalidJobStatusInt(i32),
    InvalidJobId(usize),
    FileIO(String),
    PauseFailed(String),
    WorkerCommandSendFailed,
    IndexerError(String),
    ThumbnailError(String),
    IdentifierError(String),
    CryptoError(String),
    MatchingSrcDest(String),
    WouldOverwrite(String),
    MissingFromDb(String, String),
    MissingCasId,
    StepCompletedWithErrors(Vec<String>),
    EarlyFinish { name: String, reason: String },
    JobDataNotFound(String),
    Paused(Vec<u8>),
}

impl JobStatus {
    /// The status stored under `value`; any other code is an error.
    pub fn try_from(value: i32) -> (r: Result<JobStatus, JobError>)
        ensures
            match r {
                Ok(s) => 0 <= value <= 6 && status_code(s) == value,
                Err(e) => (value < 0 || value > 6) && e == JobError::InvalidJobStatusInt(value),
            },
    {
        match value {
            0 => Ok(JobStatus::Queued),
            1 => Ok(JobStatus::Running),
            2 => Ok(JobStatus::Completed),
            3 => Ok(JobStatus::Canceled),
            4 => Ok(JobStatus::Failed),
            5 => Ok(JobStatus::Paused),
            6 => Ok(JobStatus::CompletedWithErrors),
            _ => Err(JobError::InvalidJobStatusInt(value)),
        }
    }

    /// The integer code under which this status is stored.
    pub fn code(&self) -> (r: i32)
        ensures
            r == status_code(*self),
    {
        match self {
            JobStatus::Queued => 0,
            JobStatus::Running => 1,
            JobStatus::Completed => 2,
            JobStatus::Canceled => 3,
            JobStatus::Failed => 4,
            JobStatus::Paused => 5,
            JobStatus::CompletedWithErrors => 6,
        }
    }
}

/// The pieces of `s` between blank lines ("\n\n"), taken leftmost first;
/// there is always at least one piece.
pub open spec fn paragraphs_of(s: Seq<char>) -> Seq<Seq<char>>
    decreases s.len(),
{
    if s.len() == 0 {
        seq![Seq::empty()]
    } else if s.len() >= 2 && s[0] == '\n' && s[1] == '\n' {
        seq![Seq::empty()] + paragraphs_of(s.skip(2))
    } else {
        let rest = paragraphs_of(s.skip(1));
        rest.update(0, seq![s[0]] + rest[0])
    }
}

/// The texts of `v` with a blank line between each two.
pub open spec fn joined_paragraphs(v: Seq<Seq<char>>) -> Seq<char>
    decreases v.len(),
{
    if v.len() == 0 {
        Seq::empty()
    } else if v.len() == 1 {
        v[0]
    } else {
        v[0] + "\n\n"@ + joined_paragraphs(v.skip(1))
    }
}

/// The lower-case hexadecimal digit of `n`.
pub open spec fn hex_digit(n: int) -> char {
    if n < 10 {
        ((n + 48) as u8) as char
    } else {
        ((n + 87) as u8) as char
    }
}

/// The 32 hexadecimal digits of `id`, most significant first.
pub open spec fn hex_digits(id: u128) -> Seq<char> {
    Seq::new(32, |k: int| hex_digit((id as int / vstd::arithmetic::power::pow(16, (31 - k) as nat)) % 16))
}

/// The hyphenated lower-case text of a UUID: its digits in groups of
/// 8, 4, 4, 4 and 12.
pub open spec fn hyphenated_uuid(id: u128) -> Seq<char> {
    let h = hex_digits(id);
    h.subrange(0, 8) + "-"@ + h.subrange(8, 12) + "-"@ + h.subrange(12, 16) + "-"@ + h.subrange(
        16,
        20,
    ) + "-"@ + h.subrange(20, 32)
}

/// Whether `b` parses as one JSON document that is not `null`.
pub uninterp spec fn json_non_null(b: Seq<u8>) -> bool;

/// The name of a status as it is shown.
pub open spec fn status_name(s: JobStatus) -> Seq<char> {
    match s {
        JobStatus::Queued => "Queued"@,
        JobStatus::Running => "Running"@,
        JobStatus::Completed => "Completed"@,
        JobStatus::Canceled => "Canceled"@,
        JobStatus::Failed => "Failed"@,
        JobStatus::Paused => "Paused"@,
        JobStatus::CompletedWithErrors => "CompletedWithErrors"@,
    }
}

/// The unsigned number whose big-endian bytes are `b`.
pub open spec fn be_value(b: Seq<u8>) -> nat
    decreases b.len(),
{
    if b.len() == 0 {
        0
    } else {
        be_value(b.drop_last()) * 256 + b.last() as nat
    }
}

/// Opaque JSON value of serde_json, carried through job reports.
#[verifier::external_type_specification]
#[verifier::external_body]
pub struct ExJsonValue(serde_json::Value);

/// Relies on uuid::Uuid::from_slice, which accepts exactly 16 bytes, and
/// on Uuid::as_u128, which reads those bytes as a big-endian number.
#[verifier::external_body]
fn uuid_from_slice(b: &[u8]) -> (r: Option<u128>)
    ensures
        r is Some <==> b@.len() == 16,
        r matches Some(v) ==> v as nat == be_value(b@),
{
    match uuid::Uuid::from_slice(b) {
        Ok(u) => Some(u.as_u128()),
        Err(_) => None,
    }
}

/// Relies on uuid::Uuid::from_u128 and the Display impl of Uuid: the
/// 36-character hyphenated lower-case text of the identifier.
#[verifier::external_body]
fn uuid_text(id: u128) -> (r: String)
    ensures
        r@ == hyphenated_uuid(id),
{
    uuid::Uuid::from_u128(id).to_string()
}

/// Relies on chrono's conversion from std::time::SystemTime into
/// DateTime<Utc> (which accepts instants before 1970) and on
/// DateTime::timestamp_millis: the current time in milliseconds since the
/// Unix epoch; nothing is known of its value.
#[verifier::external_body]
fn now_millis() -> (r: i64) {
    chrono::DateTime::<chrono::Utc>::from(std::time::SystemTime::now()).timestamp_millis()
}

/// Relies on serde_json::from_slice: the JSON document in `b`, if it parses
/// and is not `null`.
#[verifier::external_body]
fn parse_metadata(b: &[u8]) -> (r: Option<serde_json::Value>)
    ensures
        r is Some <==> json_non_null(b@),
{
    match serde_json::from_slice::<Option<serde_json::Value>>(b) {
        Ok(v) => v,
        Err(_) => None,
    }
}

/// Relies on str::split with the separator "\n\n": the pieces of `s`
/// between blank lines, of which there is always at least one.
#[verifier::external_body]
fn split_paragraphs(s: &str) -> (r: Vec<String>)
    ensures
        r@.map_values(|p: String| p@) == paragraphs_of(s@),
{
    s.split("\n\n").map(str::to_string).collect()
}

/// Relies on slice::join with the separator "\n\n".
#[verifier::external_body]
fn join_paragraphs(v: &Vec<String>) -> (r: String)
    ensures
        r@ == joined_paragraphs(v@.map_values(|p: String| p@)),
{
    v.join("\n\n")
}

/// A job record as stored: identifiers as raw bytes, instants as
/// milliseconds since the Unix epoch, the status as its integer code.
#[derive(Debug)]
pub struct JobRecord {
    pub id: Vec<u8>,
    pub name: String,
    pub action: Option<String>,
    pub data: Option<Vec<u8>>,
    pub metadata: Option<Vec<u8>>,
    pub errors_text: Option<String>,
    pub date_created: i64,
    pub date_started: Option<i64>,
    pub date_completed: Option<i64>,
    pub date_estimated_completion: Option<i64>,
    pub parent_id: Option<Vec<u8>>,
    pub status: i32,
    pub task_count: i32,
    pub completed_task_count: i32,
}

/// The report of one job; instants are milliseconds since the Unix epoch.
#[derive(Debug)]
pub struct JobReport {
    pub id: u128,
    pub name: String,
    pub action: Option<String>,
    pub data: Option<Vec<u8>>,
    pub metadata: Option<serde_json::Value>,
    pub is_background: bool,
    pub errors_text: Vec<String>,
    pub created_at: Option<i64>,
    pub started_at: Option<i64>,
    pub completed_at: Option<i64>,
    pub parent_id: Option<u128>,
    pub status: JobStatus,
    pub task_count: i32,
    pub completed_task_count: i32,
    pub message: String,
    pub estimated_completion: i64,
}

/// Why a stored record cannot become a report, if it cannot.
pub open spec fn record_error(r: JobRecord) -> Option<JobError> {
    if r.id@.len() != 16 {
        Some(JobError::InvalidJobId(r.id@.len() as usize))
    } else if r.parent_id is Some && r.parent_id->0@.len() != 16 {
        Some(JobError::InvalidJobId(r.parent_id->0@.len() as usize))
    } else if r.status < 0 || r.status > 6 {
        Some(JobError::InvalidJobStatusInt(r.status))
    } else {
        None
    }
}

/// A report as `JobReport::new` makes it, whatever its action and parent:
/// queued, with no tasks, data, metadata, errors, timestamps or message.
pub open spec fn is_new_report(r: JobReport, uuid: u128, name: String) -> bool {
    &&& r.id == uuid
    &&& r.name == name
    &&& r.data is None
    &&& r.metadata is None
    &&& !r.is_background
    &&& r.errors_text@.len() == 0
    &&& r.created_at is None
    &&& r.started_at is None
    &&& r.completed_at is None
    &&& r.status == JobStatus::Queued
    &&& r.task_count == 0
    &&& r.completed_task_count == 0
    &&& r.message@.len() == 0
}

/// The columns under which a report is stored; the metadata is stored
/// apart, in its serialised form.
#[derive(Debug)]
pub struct JobColumns {
    pub id: u128,
    pub name: String,
    pub action: Option<String>,
    pub data: Option<Vec<u8>>,
    pub errors_text: Option<String>,
    pub created_at: Option<i64>,
    pub started_at: Option<i64>,
    pub completed_at: Option<i64>,
    pub parent_id: Option<u128>,
    pub status: i32,
    pub task_count: i32,
    pub completed_task_count: i32,
}

impl JobReport {
    /// A queued report with no tasks, no timestamps and no parent.
    pub fn new(uuid: u128, name: String) -> (r: JobReport)
        ensures
            is_new_report(r, uuid, name),
            r.action is None,
            r.parent_id is None,
    {
        JobReport {
            id: uuid,
            name,
            action: None,
            data: None,
            metadata: None,
            is_background: false,
            errors_text: Vec::new(),
            created_at: None,
            started_at: None,
            completed_at: None,
            parent_id: None,
            status: JobStatus::Queued,
            task_count: 0,
            completed_task_count: 0,
            message: String::new(),
            estimated_completion: now_millis(),
        }
    }

    /// A new report that records the action that started the job.
    pub fn new_with_action(uuid: u128, name: String, action: &str) -> (r: JobReport)
        ensures
            is_new_report(r, uuid, name),
            r.action matches Some(a) && a@ == action@,
            r.parent_id is None,
    {
        let mut report = JobReport::new(uuid, name);
        report.action = Some(action.to_string());
        report
    }

    /// A new report for a job spawned by the job `parent_id`.
    pub fn new_with_parent(uuid: u128, name: String, parent_id: u128, action: Option<String>) -> (r:
        JobReport)
        ensures
            is_new_report(r, uuid, name),
            r.action == action,
            r.parent_id == Some(parent_id),
    {
        let mut report = JobReport::new(uuid, name);
        report.parent_id = Some(parent_id);
        report.action = action;
        report
    }

    /// Reads a stored record. Identifiers must be 16 bytes and the status a
    /// known code; a corrupted record is an error rather than a panic. The
    /// stored errors are split at blank lines.
    pub fn from_record(rec: JobRecord) -> (r: Result<JobReport, JobError>)
        ensures
            match r {
                Err(e) => record_error(rec) == Some(e),
                Ok(rep) => {
                    &&& record_error(rec) is None
                    &&& rep.id as nat == be_value(rec.id@)
                    &&& rep.name == rec.name
                    &&& rep.action == rec.action
                    &&& rep.data == rec.data
                    &&& !rep.is_background
                    &&& (rec.metadata is None ==> rep.metadata is None)
                    &&& match rec.errors_text {
                        None => rep.errors_text@.len() == 0,
                        Some(t) => rep.errors_text@.map_values(|p: String| p@) == paragraphs_of(
                            t@,
                        ),
                    }
                    &&& rep.created_at == Some(rec.date_created)
                    &&& rep.started_at == rec.date_started
                    &&& rep.completed_at == rec.date_completed
                    &&& match rec.parent_id {
                        None => rep.parent_id is None,
                        Some(p) => rep.parent_id matches Some(q) && q as nat == be_value(p@),
                    }
                    &&& status_code(rep.status) == rec.status
                    &&& rep.task_count == rec.task_count
                    &&& rep.completed_task_count == rec.completed_task_count
                    &&& rep.message@.len() == 0
                    &&& (rec.date_estimated_completion matches Some(d) ==> rep.estimated_completion
                        == d)
                }
            },
    {
        let id = match uuid_from_slice(rec.id.as_slice()) {
            Some(v) => v,
            None => {
                return Err(JobError::InvalidJobId(rec.id.len()));
            },
        };
        let parent_id = match &rec.parent_id {
            None => None,
            Some(p) => match uuid_from_slice(p.as_slice()) {
                Some(v) => Some(v),
                None => {
                    return Err(JobError::InvalidJobId(p.len()));
                },
            },
        };
        let status = match JobStatus::try_from(rec.status) {
            Ok(s) => s,
            Err(e) => {
                return Err(e);
            },
        };
        let metadata = match &rec.metadata {
            None => None,
            Some(m) => parse_metadata(m.as_slice()),
        };
        let errors_text = match &rec.errors_text {
            None => Vec::new(),
            Some(t) => split_paragraphs(t.as_str()),
        };
        let estimated_completion = match rec.date_estimated_completion {
            Some(d) => d,
            None => now_millis(),
        };
        Ok(
            JobReport {
                id,
                name: rec.name,
                action: rec.action,
                data: rec.data,
                metadata,
                is_background: false,
                errors_text,
                created_at: Some(rec.date_created),
                started_at: rec.date_started,
                completed_at: rec.date_completed,
                parent_id,
                status,
                task_count: rec.task_count,
                completed_task_count: rec.completed_task_count,
                message: String::new(),
                estimated_completion,
            },
        )
    }

    /// A one-line description of the job: its name, identifier and status.
    pub fn description(&self) -> (r: String)
        ensures
            r@ == "Job <name='"@ + self.name@ + "', uuid='"@ + hyphenated_uuid(self.id) + "'> "@
                + status_name(self.status),
    {
        let mut r = String::from_str("Job <name='");
        r.append(self.name.as_str());
        r.append("', uuid='");
        let id = uuid_text(self.id);
        r.append(id.as_str());
        r.append("'> ");
        let status = match self.status {
            JobStatus::Queued => "Queued",
            JobStatus::Running => "Running",
            JobStatus::Completed => "Completed",
            JobStatus::Canceled => "Canceled",
            JobStatus::Failed => "Failed",
            JobStatus::Paused => "Paused",
            JobStatus::CompletedWithErrors => "CompletedWithErrors",
        };
        r.append(status);
        r
    }

    /// Records that the job was created at `now`, leaving all else as it was.
    pub fn mark_created(&mut self, now: i64)
        ensures
            *final(self) == (JobReport { created_at: Some(now), ..*old(self) }),
    {
        self.created_at = Some(now);
    }

    /// The values stored for this report: its fields, the status as its
    /// code and the errors joined by blank lines (none when there are none).
    pub fn columns(&self) -> (c: JobColumns)
        ensures
            c.id == self.id,
            c.name@ == self.name@,
            c.action is Some <==> self.action is Some,
            c.action matches Some(a) ==> a@ == self.action->0@,
            c.data is Some <==> self.data is Some,
            c.data matches Some(d) ==> d@ == self.data->0@,
            self.errors_text@.len() == 0 <==> c.errors_text is None,
            c.errors_text matches Some(t) ==> t@ == joined_paragraphs(
                self.errors_text@.map_values(|p: String| p@),
            ),
            c.created_at == self.created_at,
            c.started_at == self.started_at,
            c.completed_at == self.completed_at,
            c.parent_id == self.parent_id,
            c.status == status_code(self.status),
            c.task_count == self.task_count,
            c.completed_task_count == self.completed_task_count,
    {
        let action = match &self.action {
            Some(a) => Some(a.clone()),
            None => None,
        };
        let data = match &self.data {
            Some(d) => {
                let mut copy: Vec<u8> = Vec::new();
                let mut i: usize = 0;
                while i < d.len()
                    invariant
                        i <= d@.len(),
                        copy@ == d@.take(i as int),
                    decreases d@.len() - i,
                {
                    copy.push(d[i]);
                    i = i + 1;
                    proof {
                        assert(copy@ =~= d@.take(i as int));
                    }
                }
                proof {
                    assert(d@.take(d@.len() as int) =~= d@);
                }
                Some(copy)
            },
            None => None,
        };
        JobColumns {
            id: self.id,
            name: self.name.clone(),
            action,
            data,
            errors_text: self.errors_text_for_storage(),
            created_at: self.created_at,
            started_at: self.started_at,
            completed_at: self.completed_at,
            parent_id: self.parent_id,
            status: self.status.code(),
            task_count: self.task_count,
            completed_task_count: self.completed_task_count,
        }
    }

    /// The stored form of the report's errors: none when there are none,
    /// else all of them joined by blank lines.
    pub fn errors_text_for_storage(&self) -> (r: Option<String>)
        ensures
            self.errors_text@.len() == 0 <==> r is None,
            r matches Some(t) ==> t@ == joined_paragraphs(
                self.errors_text@.map_values(|p: String| p@),
            ),
    {
        if self.errors_text.len() == 0 {
            None
        } else {
            Some(join_paragraphs(&self.errors_text))
        }
    }
}

/// Errors of the job manager.
#[derive(Debug)]
pub enum JobManagerError {
    AlreadyRunningJob { name: String, hash: u64 },
    Database(String),
    NotFound(u128),
    Job(JobError),
}

/// Class of an error reported to a remote caller.
#[derive(Clone, Copy, PartialEq, Eq, Structural, Debug)]
pub enum RpcErrorCode {
    BadRequest,
    NotFound,
    InternalServerError,
}

/// The class under which a job manager error is reported.
pub open spec fn rpc_code_of(e: JobManagerError) -> RpcErrorCode {
    match e {
        JobManagerError::AlreadyRunningJob { .. } => RpcErrorCode::BadRequest,
        JobManagerError::Database(_) => RpcErrorCode::InternalServerError,
        JobManagerError::NotFound(_) => RpcErrorCode::NotFound,
        JobManagerError::Job(_) => RpcErrorCode::InternalServerError,
    }
}

/// The message under which a job manager error is reported.
pub open spec fn rpc_message_of(e: JobManagerError) -> Seq<char> {
    match e {
        JobManagerError::AlreadyRunningJob { .. } => "Tried to spawn a job that is already running!"@,
        JobManagerError::Database(_) => "Error accessing the database"@,
        JobManagerError::NotFound(_) => "Job not found"@,
        JobManagerError::Job(_) => "Job error"@,
    }
}

impl JobManagerError {
    /// The class under which this error is reported to a remote caller.
    pub fn rpc_code(&self) -> (r: RpcErrorCode)
        ensures
            r == rpc_code_of(*self),
    {
        match self {
            JobManagerError::AlreadyRunningJob { .. } => RpcErrorCode::BadRequest,
            JobManagerError::Database(_) => RpcErrorCode::InternalServerError,
            JobManagerError::NotFound(_) => RpcErrorCode::NotFound,
            JobManagerError::Job(_) => RpcErrorCode::InternalServerError,
        }
    }

    /// The message with which this error is reported to a remote caller.
    pub fn rpc_message(&self) -> (r: String)
        ensures
            r@ == rpc_message_of(*self),
    {
        match self {
            JobManagerError::AlreadyRunningJob { .. } => {
                "Tried to spawn a job that is already running!".to_string()
            },
            JobManagerError::Database(_) => "Error accessing the database".to_string(),
            JobManagerError::NotFound(_) => "Job not found".to_string(),
            JobManagerError::Job(_) => "Job error".to_string(),
        }
    }
}

} // verus!
