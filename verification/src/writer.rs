//! The writer: what it is asked to do, the calls to the cluster that this takes, and its errors.

use std::sync::Arc;

use fluss::metadata::TableDescriptor;
use vstd::prelude::*;

use crate::config::FlussSinkConfig;
use crate::connector::{ConnectorError, ConnectorFailure};
use crate::table_path::{path_text, TablePath};

verus! {

/// Why a task of the writer failed. The `source` is what the Fluss client said.
#[derive(Debug)]
pub enum WriterError {
    Connector(ConnectorError),
    ConnectionNotInitialized,
    Connect { source: String },
    InvalidWriterConfig { source: String },
    CloseConnection { source: String },
    GetAdminClient { source: String },
    CreateTable { table_path: TablePath, source: String },
    GetTable { table_path: TablePath, source: String },
    TableNotFound { table_path: TablePath },
    CreateAppender { table_path: TablePath, source: String },
    CreateWriter { table_path: TablePath, source: String },
    AppendArrowBatch { table_path: TablePath, source: String },
    FlushRows { table_path: TablePath, source: String },
}

/// What a [`WriterError`] says.
pub enum WriterFailure {
    Connector(ConnectorFailure),
    ConnectionNotInitialized,
    Connect(Seq<char>),
    InvalidWriterConfig(Seq<char>),
    CloseConnection(Seq<char>),
    GetAdminClient(Seq<char>),
    CreateTable((Seq<char>, Seq<char>), Seq<char>),
    GetTable((Seq<char>, Seq<char>), Seq<char>),
    TableNotFound((Seq<char>, Seq<char>)),
    CreateAppender((Seq<char>, Seq<char>), Seq<char>),
    CreateWriter((Seq<char>, Seq<char>), Seq<char>),
    AppendArrowBatch((Seq<char>, Seq<char>), Seq<char>),
    FlushRows((Seq<char>, Seq<char>), Seq<char>),
}

impl View for WriterError {
    type V = WriterFailure;

    open spec fn view(&self) -> WriterFailure {
        match self {
            WriterError::Connector(error) => WriterFailure::Connector(error@),
            WriterError::ConnectionNotInitialized => WriterFailure::ConnectionNotInitialized,
            WriterError::Connect { source } => WriterFailure::Connect(source@),
            WriterError::InvalidWriterConfig { source } => WriterFailure::InvalidWriterConfig(
                source@,
            ),
            WriterError::CloseConnection { source } => WriterFailure::CloseConnection(source@),
            WriterError::GetAdminClient { source } => WriterFailure::GetAdminClient(source@),
            WriterError::CreateTable { table_path, source } => WriterFailure::CreateTable(
                table_path@,
                source@,
            ),
            WriterError::GetTable { table_path, source } => WriterFailure::GetTable(
                table_path@,
                source@,
            ),
            WriterError::TableNotFound { table_path } => WriterFailure::TableNotFound(table_path@),
            WriterError::CreateAppender { table_path, source } => WriterFailure::CreateAppender(
                table_path@,
                source@,
            ),
            WriterError::CreateWriter { table_path, source } => WriterFailure::CreateWriter(
                table_path@,
                source@,
            ),
            WriterError::AppendArrowBatch {
                table_path,
                source,
            } => WriterFailure::AppendArrowBatch(table_path@, source@),
            WriterError::FlushRows { table_path, source } => WriterFailure::FlushRows(
                table_path@,
                source@,
            ),
        }
    }
}

/// A sentence about a table, followed by what the Fluss client said.
pub open spec fn table_sentence(
    before: Seq<char>,
    path: (Seq<char>, Seq<char>),
    source: Seq<char>,
) -> Seq<char> {
    before + path_text(path) + "': "@ + source
}

impl WriterFailure {
    /// The failure in words.
    pub open spec fn message(self) -> Seq<char> {
        match self {
            WriterFailure::Connector(failure) => failure.detail(),
            WriterFailure::ConnectionNotInitialized => "Fluss connection is not initialized"@,
            WriterFailure::Connect(source) => "Failed to connect to Fluss: "@ + source,
            WriterFailure::InvalidWriterConfig(source) =>
                "Invalid Fluss writer configuration: "@ + source,
            WriterFailure::CloseConnection(source) =>
                "Failed to close Fluss connection: "@ + source,
            WriterFailure::GetAdminClient(source) =>
                "Failed to get Fluss admin client: "@ + source,
            WriterFailure::CreateTable(path, source) => table_sentence(
                "Failed to create Fluss table '"@,
                path,
                source,
            ),
            WriterFailure::GetTable(path, source) => table_sentence(
                "Failed to get Fluss table '"@,
                path,
                source,
            ),
            WriterFailure::TableNotFound(path) =>
                "Fluss table '"@ + path_text(path) + "' was not found"@,
            WriterFailure::CreateAppender(path, source) => table_sentence(
                "Failed to create appender for Fluss table '"@,
                path,
                source,
            ),
            WriterFailure::CreateWriter(path, source) => table_sentence(
                "Failed to create writer for Fluss table '"@,
                path,
                source,
            ),
            WriterFailure::AppendArrowBatch(path, source) => table_sentence(
                "Failed to append Arrow batch to Fluss table '"@,
                path,
                source,
            ),
            WriterFailure::FlushRows(path, source) => table_sentence(
                "Failed to flush rows to Fluss table '"@,
                path,
                source,
            ),
        }
    }

    /// The failure as the connector runtime sees it. An error of the connector stays what it
    /// is; any other failure becomes an error that carries its message.
    pub open spec fn connector_failure(self) -> ConnectorFailure {
        match self {
            WriterFailure::Connector(failure) => failure,
            WriterFailure::ConnectionNotInitialized => ConnectorFailure::InitError(self.message()),
            WriterFailure::Connect(_) => ConnectorFailure::InitError(self.message()),
            WriterFailure::InvalidWriterConfig(_) => ConnectorFailure::InvalidConfigValue(
                self.message(),
            ),
            WriterFailure::CloseConnection(_) => ConnectorFailure::Connection(self.message()),
            _ => ConnectorFailure::CannotStoreData(self.message()),
        }
    }
}

/// Writes a sentence about a table, followed by what the Fluss client said.
fn write_table_sentence(before: &str, table_path: &TablePath, source: &String) -> (text: String)
    ensures
        text@ == table_sentence(before@, table_path@, source@),
{
    before.to_owned().concat(table_path.to_text().as_str()).concat("': ").concat(source.as_str())
}

impl WriterError {
    /// The error in words.
    pub fn message(&self) -> (text: String)
        ensures
            text@ == self@.message(),
    {
        match self {
            WriterError::Connector(error) => error.detail().to_owned(),
            WriterError::ConnectionNotInitialized => "Fluss connection is not initialized".to_owned(),
            WriterError::Connect { source } => "Failed to connect to Fluss: ".to_owned().concat(
                source.as_str(),
            ),
            WriterError::InvalidWriterConfig {
                source,
            } => "Invalid Fluss writer configuration: ".to_owned().concat(source.as_str()),
            WriterError::CloseConnection {
                source,
            } => "Failed to close Fluss connection: ".to_owned().concat(source.as_str()),
            WriterError::GetAdminClient {
                source,
            } => "Failed to get Fluss admin client: ".to_owned().concat(source.as_str()),
            WriterError::CreateTable { table_path, source } => write_table_sentence(
                "Failed to create Fluss table '",
                table_path,
                source,
            ),
            WriterError::GetTable { table_path, source } => write_table_sentence(
                "Failed to get Fluss table '",
                table_path,
                source,
            ),
            WriterError::TableNotFound { table_path } => "Fluss table '".to_owned().concat(
                table_path.to_text().as_str(),
            ).concat("' was not found"),
            WriterError::CreateAppender { table_path, source } => write_table_sentence(
                "Failed to create appender for Fluss table '",
                table_path,
                source,
            ),
            WriterError::CreateWriter { table_path, source } => write_table_sentence(
                "Failed to create writer for Fluss table '",
                table_path,
                source,
            ),
            WriterError::AppendArrowBatch { table_path, source } => write_table_sentence(
                "Failed to append Arrow batch to Fluss table '",
                table_path,
                source,
            ),
            WriterError::FlushRows { table_path, source } => write_table_sentence(
                "Failed to flush rows to Fluss table '",
                table_path,
                source,
            ),
        }
    }

    /// The error as the connector runtime sees it.
    pub fn into_connector_error(self) -> (error: ConnectorError)
        ensures
            error@ == self@.connector_failure(),
    {
        let message = self.message();
        match self {
            WriterError::Connector(error) => error,
            WriterError::ConnectionNotInitialized | WriterError::Connect {
                ..
            } => ConnectorError::InitError(message),
            WriterError::InvalidWriterConfig { .. } => ConnectorError::InvalidConfigValue(message),
            WriterError::CloseConnection { .. } => ConnectorError::Connection(message),
            WriterError::GetAdminClient { .. }
            | WriterError::CreateTable { .. }
            | WriterError::GetTable { .. }
            | WriterError::TableNotFound { .. }
            | WriterError::CreateAppender { .. }
            | WriterError::CreateWriter { .. }
            | WriterError::AppendArrowBatch { .. }
            | WriterError::FlushRows { .. } => ConnectorError::CannotStoreData(message),
        }
    }
}

/// How a batch is applied to its table.
#[derive(Debug, Clone, Copy, PartialEq, Eq, Structural)]
pub enum Op {
    Append,
}

/// What came of writing the messages of one invocation.
pub struct TableWriteResult {
    pub insertion_errors: u64,
    pub messages_processed: u64,
}

impl Default for TableWriteResult {
    fn default() -> (result: Self)
        ensures
            result.insertion_errors == 0,
            result.messages_processed == 0,
    {
        TableWriteResult { insertion_errors: 0, messages_processed: 0 }
    }
}

/// How many messages were appended to their tables, and how many were skipped as errors.
#[derive(Debug, Clone, Copy, PartialEq, Eq, Structural)]
pub struct Stat {
    pub appended: u64,
    pub errors: u64,
}

impl Default for Stat {
    fn default() -> (stat: Self)
        ensures
            stat.appended == 0,
            stat.errors == 0,
    {
        Stat { appended: 0, errors: 0 }
    }
}

impl Stat {
    /// The number of messages that are accounted for.
    pub open spec fn total(self) -> int {
        self.appended + self.errors
    }

    /// Counts one skipped message.
    pub fn inc_err(&mut self)
        requires
            old(self).errors < u64::MAX,
        ensures
            final(self).errors == old(self).errors + 1,
            final(self).appended == old(self).appended,
    {
        self.errors = self.errors + 1;
    }

    /// Counts `count` skipped messages.
    pub fn inc_err_by(&mut self, count: u64)
        requires
            old(self).errors + count <= u64::MAX,
        ensures
            final(self).errors == old(self).errors + count,
            final(self).appended == old(self).appended,
    {
        self.errors = self.errors + count;
    }

    /// Counts one appended message.
    pub fn inc_appended(&mut self)
        requires
            old(self).appended < u64::MAX,
        ensures
            final(self).appended == old(self).appended + 1,
            final(self).errors == old(self).errors,
    {
        self.appended = self.appended + 1;
    }

    /// The counts of both together.
    pub fn add(self, other: Stat) -> (sum: Stat)
        requires
            self.appended + other.appended <= u64::MAX,
            self.errors + other.errors <= u64::MAX,
        ensures
            sum.appended == self.appended + other.appended,
            sum.errors == self.errors + other.errors,
    {
        Stat { appended: self.appended + other.appended, errors: self.errors + other.errors }
    }
}

/// What the writer can be asked to do.
pub enum WriterTask {
    /// Connect to the cluster.
    Connect,
    /// Drain what is still buffered and close.
    Close,
    /// Look up a table.
    LookUpTable { table_path: TablePath },
    /// Create a table as it is described, unless it exists.
    CreateTable { table_path: TablePath, table_descriptor: Arc<TableDescriptor> },
    /// Apply a batch to a table.
    Write { table_path: TablePath, op: Op },
}

/// What the call that creates a table is handed.
#[derive(Debug)]
pub struct CreateRequest<'a> {
    pub table_path: &'a TablePath,
    pub table_descriptor: &'a TableDescriptor,
    pub ignore_if_exists: bool,
}

/// Whether a request is the one for a task: that for its path and its descriptor where it creates a
/// table, which succeeds where the table exists, and none in all other cases.
pub open spec fn requests_creation(task: WriterTask, request: Option<CreateRequest<'_>>) -> bool {
    match task {
        WriterTask::CreateTable { table_path, table_descriptor } => {
            &&& request matches Some(request)
            &&& *request.table_path == table_path
            &&& *request.table_descriptor == *table_descriptor
            &&& request.ignore_if_exists
        },
        _ => request is None,
    }
}

impl WriterTask {
    /// What the call that creates a table is handed: the path and the descriptor of the task. It
    /// succeeds where the table exists. Only the task of creating a table has such a call.
    pub fn create_request(&self) -> (request: Option<CreateRequest<'_>>)
        ensures
            requests_creation(*self, request),
    {
        match self {
            WriterTask::CreateTable { table_path, table_descriptor } => Some(
                CreateRequest { table_path, table_descriptor, ignore_if_exists: true },
            ),
            _ => None,
        }
    }
}

/// What the call that closes the client is handed.
#[derive(Debug, Clone, Copy, PartialEq, Eq, Structural)]
pub struct CloseRequest {
    pub timeout_seconds: u64,
}

/// The request that a task closes the client with; `None` where it does not close it.
pub open spec fn close_request_of(task: WriterTask) -> Option<CloseRequest> {
    if task is Close {
        Some(CloseRequest { timeout_seconds: 30 })
    } else {
        None
    }
}

impl WriterTask {
    /// What the call that closes the client is handed: it has half a minute to send what is still
    /// buffered. Only the task of closing has such a call.
    pub fn close_request(&self) -> (request: Option<CloseRequest>)
        ensures
            request == close_request_of(*self),
    {
        match self {
            WriterTask::Close => Some(CloseRequest { timeout_seconds: 30 }),
            _ => None,
        }
    }
}

/// A call of the writer: to the Fluss client, or to turn the configuration into that of the
/// client.
#[derive(Debug, Clone, Copy, PartialEq, Eq, Structural)]
pub enum WriterCall {
    ConvertConfig,
    Connect,
    GetWriterClient,
    CloseWriterClient,
    GetAdmin,
    CreateTable,
    GetTable,
    NewAppend,
    CreateWriter,
    AppendArrowBatch,
    Flush,
}

/// Why a call failed: what the Fluss client said, or an error of the connector.
#[derive(Debug)]
pub enum CallError {
    Client(String),
    Connector(ConnectorError),
}

/// Whether a call can fail with an error. No client takes part in turning the configuration into
/// that of the client.
pub open spec fn can_fail_with(call: WriterCall, error: CallError) -> bool {
    call is ConvertConfig ==> error is Connector
}

/// The calls that a task takes, in their order.
pub open spec fn task_calls(task: WriterTask) -> Seq<WriterCall> {
    match task {
        WriterTask::Connect => seq![
            WriterCall::ConvertConfig,
            WriterCall::Connect,
            WriterCall::GetWriterClient,
        ],
        WriterTask::Close => seq![WriterCall::GetWriterClient, WriterCall::CloseWriterClient],
        WriterTask::LookUpTable { .. } => seq![WriterCall::GetTable],
        WriterTask::CreateTable { .. } => seq![WriterCall::GetAdmin, WriterCall::CreateTable],
        WriterTask::Write { op: Op::Append, .. } => seq![
            WriterCall::GetTable,
            WriterCall::NewAppend,
            WriterCall::CreateWriter,
            WriterCall::AppendArrowBatch,
            WriterCall::Flush,
        ],
    }
}

/// The table that a task is about.
pub open spec fn task_table(task: WriterTask) -> (Seq<char>, Seq<char>) {
    match task {
        WriterTask::LookUpTable { table_path } => table_path@,
        WriterTask::CreateTable { table_path, .. } => table_path@,
        WriterTask::Write { table_path, .. } => table_path@,
        _ => arbitrary(),
    }
}

/// The failure of a task when the Fluss client fails in one of its calls.
pub open spec fn client_failure(
    task: WriterTask,
    call: WriterCall,
    source: Seq<char>,
) -> WriterFailure {
    let path = task_table(task);
    match call {
        WriterCall::ConvertConfig => arbitrary(),
        WriterCall::Connect => WriterFailure::Connect(source),
        WriterCall::GetWriterClient => WriterFailure::InvalidWriterConfig(source),
        WriterCall::CloseWriterClient => WriterFailure::CloseConnection(source),
        WriterCall::GetAdmin => WriterFailure::GetAdminClient(source),
        WriterCall::CreateTable => WriterFailure::CreateTable(path, source),
        WriterCall::GetTable => WriterFailure::GetTable(path, source),
        WriterCall::NewAppend => WriterFailure::CreateAppender(path, source),
        WriterCall::CreateWriter => WriterFailure::CreateWriter(path, source),
        WriterCall::AppendArrowBatch => WriterFailure::AppendArrowBatch(path, source),
        WriterCall::Flush => WriterFailure::FlushRows(path, source),
    }
}

/// The failure of a task when one of its calls fails. An error of the connector stays what it is.
pub open spec fn call_failure(
    task: WriterTask,
    call: WriterCall,
    error: CallError,
) -> WriterFailure {
    match error {
        CallError::Connector(error) => WriterFailure::Connector(error@),
        CallError::Client(source) => client_failure(task, call, source@),
    }
}

/// Whether `next` is the call that follows `call` in a task; `None` follows the last one.
pub open spec fn follows(task: WriterTask, call: WriterCall, next: Option<WriterCall>) -> bool {
    let calls = task_calls(task);
    match next {
        Some(following) => {
            &&& calls.last() != call
            &&& forall|i: int, j: int|
                0 <= i && i + 1 == j && j < calls.len() && #[trigger] calls[i] == call
                    ==> #[trigger] calls[j] == following
        },
        None => calls.last() == call,
    }
}

/// The call that follows `call` in a task; `None` where it is the last one.
fn following_call(task: &WriterTask, call: WriterCall) -> (next: Option<WriterCall>)
    requires
        task_calls(*task).contains(call),
    ensures
        follows(*task, call, next),
{
    match task {
        WriterTask::Connect => match call {
            WriterCall::ConvertConfig => Some(WriterCall::Connect),
            WriterCall::Connect => Some(WriterCall::GetWriterClient),
            _ => None,
        },
        WriterTask::Close => match call {
            WriterCall::GetWriterClient => Some(WriterCall::CloseWriterClient),
            _ => None,
        },
        WriterTask::LookUpTable { .. } => None,
        WriterTask::CreateTable { .. } => match call {
            WriterCall::GetAdmin => Some(WriterCall::CreateTable),
            _ => None,
        },
        WriterTask::Write { op: Op::Append, .. } => match call {
            WriterCall::GetTable => Some(WriterCall::NewAppend),
            WriterCall::NewAppend => Some(WriterCall::CreateWriter),
            WriterCall::CreateWriter => Some(WriterCall::AppendArrowBatch),
            WriterCall::AppendArrowBatch => Some(WriterCall::Flush),
            _ => None,
        },
    }
}

/// The error of a task when one of its calls fails.
fn call_error(task: &WriterTask, call: WriterCall, error: CallError) -> (failure: WriterError)
    requires
        task_calls(*task).contains(call),
        can_fail_with(call, error),
    ensures
        failure@ == call_failure(*task, call, error),
{
    let source = match error {
        CallError::Connector(error) => {
            return WriterError::Connector(error);
        },
        CallError::Client(source) => source,
    };
    match task {
        WriterTask::Connect => match call {
            WriterCall::Connect => WriterError::Connect { source },
            _ => WriterError::InvalidWriterConfig { source },
        },
        WriterTask::Close => match call {
            WriterCall::GetWriterClient => WriterError::InvalidWriterConfig { source },
            _ => WriterError::CloseConnection { source },
        },
        WriterTask::LookUpTable { table_path } => WriterError::GetTable {
            table_path: table_path.copy(),
            source,
        },
        WriterTask::CreateTable { table_path, .. } => match call {
            WriterCall::GetAdmin => WriterError::GetAdminClient { source },
            _ => WriterError::CreateTable { table_path: table_path.copy(), source },
        },
        WriterTask::Write { table_path, op: Op::Append } => {
            let table_path = table_path.copy();
            match call {
                WriterCall::GetTable => WriterError::GetTable { table_path, source },
                WriterCall::NewAppend => WriterError::CreateAppender { table_path, source },
                WriterCall::CreateWriter => WriterError::CreateWriter { table_path, source },
                WriterCall::AppendArrowBatch => WriterError::AppendArrowBatch {
                    table_path,
                    source,
                },
                _ => WriterError::FlushRows { table_path, source },
            }
        },
    }
}

/// The failure to look up a table: it does not exist, or the client said why not.
pub open spec fn lookup_failure(
    path: (Seq<char>, Seq<char>),
    missing: bool,
    source: Seq<char>,
) -> WriterFailure {
    if missing {
        WriterFailure::TableNotFound(path)
    } else {
        WriterFailure::GetTable(path, source)
    }
}

/// The error of a table that could not be looked up: it does not exist, or the client said why not.
pub fn lookup_error(table_path: &TablePath, missing: bool, source: String) -> (error: WriterError)
    ensures
        error@ == lookup_failure(table_path@, missing, source@),
{
    if missing {
        WriterError::TableNotFound { table_path: table_path.copy() }
    } else {
        WriterError::GetTable { table_path: table_path.copy(), source }
    }
}

/// Whether a call is the first one of a task. Every task but connecting needs the connection.
pub open spec fn starts(
    task: WriterTask,
    connected: bool,
    call: Result<WriterCall, WriterError>,
) -> bool {
    if task is Connect || connected {
        call == Ok::<WriterCall, WriterError>(task_calls(task)[0])
    } else {
        call == Err::<WriterCall, WriterError>(WriterError::ConnectionNotInitialized)
    }
}

/// Whether `next` is what comes after a call of a task: the next call, nothing where the task is
/// done, or the error of the task where the call failed. The writer is connected once all the calls
/// of connecting have succeeded.
pub open spec fn proceeds(
    task: WriterTask,
    call: WriterCall,
    outcome: Result<(), CallError>,
    before: bool,
    after: bool,
    next: Result<Option<WriterCall>, WriterError>,
) -> bool {
    match outcome {
        Err(error) => {
            &&& next matches Err(failure)
            &&& failure@ == call_failure(task, call, error)
            &&& after == before
        },
        Ok(()) => {
            &&& next is Ok
            &&& follows(task, call, next->Ok_0)
            &&& after == (before || (task is Connect && next->Ok_0 is None))
        },
    }
}

/// The writer. It decides which call to the Fluss client comes next; the calls themselves are
/// made by whoever runs it.
#[derive(Debug)]
pub struct FlussWriter {
    connected: bool,
    config: FlussSinkConfig,
}

impl FlussWriter {
    /// Whether the writer has a connection.
    pub closed spec fn connected(self) -> bool {
        self.connected
    }

    /// The configuration of the writer.
    pub closed spec fn config(self) -> FlussSinkConfig {
        self.config
    }

    /// A writer that is not connected yet.
    pub fn new(config: FlussSinkConfig) -> (writer: Self)
        ensures
            !writer.connected(),
            writer.config() == config,
    {
        FlussWriter { connected: false, config }
    }

    /// The writer as text.
    pub fn to_text(&self) -> (text: String)
        ensures
            text@ == "FlussWriter"@,
    {
        "FlussWriter".to_owned()
    }

    /// Whether the writer has a connection.
    pub fn is_connected(&self) -> (connected: bool)
        ensures
            connected == self.connected(),
    {
        self.connected
    }

    /// The first call of a task. Every task but connecting needs the connection.
    pub fn start(&self, task: &WriterTask) -> (call: Result<WriterCall, WriterError>)
        ensures
            starts(*task, self.connected(), call),
    {
        match task {
            WriterTask::Connect => Ok(WriterCall::ConvertConfig),
            _ => {
                if !self.connected {
                    return Err(WriterError::ConnectionNotInitialized);
                }
                match task {
                    WriterTask::Connect => Ok(WriterCall::ConvertConfig),
                    WriterTask::Close => Ok(WriterCall::GetWriterClient),
                    WriterTask::LookUpTable { .. } => Ok(WriterCall::GetTable),
                    WriterTask::CreateTable { .. } => Ok(WriterCall::GetAdmin),
                    WriterTask::Write { op: Op::Append, .. } => Ok(WriterCall::GetTable),
                }
            },
        }
    }

    /// What follows a call of a task: the next call, nothing where the task is done, or the
    /// error of the task where the call failed. The writer is connected once all the calls of
    /// connecting have succeeded.
    pub fn proceed(
        &mut self,
        task: &WriterTask,
        call: WriterCall,
        outcome: Result<(), CallError>,
    ) -> (next: Result<Option<WriterCall>, WriterError>)
        requires
            task_calls(*task).contains(call),
            outcome matches Err(error) ==> can_fail_with(call, error),
        ensures
            final(self).config() == old(self).config(),
            proceeds(
                *task,
                call,
                outcome,
                old(self).connected(),
                final(self).connected(),
                next,
            ),
    {
        match outcome {
            Err(error) => Err(call_error(task, call, error)),
            Ok(()) => {
                let next = following_call(task, call);
                if next.is_none() {
                    match task {
                        WriterTask::Connect => {
                            self.connected = true;
                        },
                        _ => {},
                    }
                }
                Ok(next)
            },
        }
    }
}

/// Whatever becomes of a failure on its way to the connector runtime, what it says is kept.
pub proof fn lemma_message_kept(failure: WriterFailure)
    ensures
        failure.connector_failure().detail() == failure.message(),
{
}

/// The call that follows one of the calls of a task is the next in their order, and the last call
/// is followed by none.
pub proof fn lemma_calls_in_order(task: WriterTask, index: int, next: Option<WriterCall>)
    requires
        0 <= index < task_calls(task).len(),
        follows(task, task_calls(task)[index], next),
    ensures
        index + 1 < task_calls(task).len() ==> next == Some(task_calls(task)[index + 1]),
        index + 1 == task_calls(task).len() ==> next is None,
{
}

/// Creating a table takes one call that creates it, which comes last; no other task has such a
/// call.
pub proof fn lemma_created_once(task: WriterTask, index: int)
    requires
        0 <= index < task_calls(task).len(),
    ensures
        task_calls(task)[index] == WriterCall::CreateTable <==> task is CreateTable && index
            == task_calls(task).len() - 1,
{
}

} // verus!
