//! Laws of errors and of the writer: what errors say, what becomes of them, and which calls are
//! made.

use vstd::prelude::*;

use crate::connector::{ConnectorError, ConnectorFailure};
use crate::laws::rows::{lemma_number_reads_back, writes_number};
use crate::router::single_table::overflow_reason;
use crate::router::{RouterError, RouterFailure};
use crate::schema_catalog::{CatalogFailure, SchemaCatalogError};
use crate::sink::not_open;
use crate::table_path::path_text;
use crate::text::decimal_digits;
use crate::writer::{
    call_failure, can_fail_with, client_failure, close_request_of, follows, lookup_failure,
    proceeds, requests_creation, starts, task_calls, CallError, CreateRequest, WriterCall,
    WriterError, WriterFailure, WriterTask,
};

verus! {

/// An error of the connector says its detail, as the kind of error that it is.
pub proof fn lemma_connector_error_says(error: ConnectorError)
    ensures
        match error {
            ConnectorError::InvalidConfigValue(text) => {
                error@ == ConnectorFailure::InvalidConfigValue(text@) && error@.detail() == text@
            },
            ConnectorError::InitError(text) => {
                error@ == ConnectorFailure::InitError(text@) && error@.detail() == text@
            },
            ConnectorError::Connection(text) => {
                error@ == ConnectorFailure::Connection(text@) && error@.detail() == text@
            },
            ConnectorError::CannotStoreData(text) => {
                error@ == ConnectorFailure::CannotStoreData(text@) && error@.detail() == text@
            },
            ConnectorError::InvalidRecordValue(text) => {
                error@ == ConnectorFailure::InvalidRecordValue(text@) && error@.detail() == text@
            },
            ConnectorError::Serialization(text) => {
                error@ == ConnectorFailure::Serialization(text@) && error@.detail() == text@
            },
        },
{
}

/// An error of the router says what it holds, as the kind of error that it is.
pub proof fn lemma_router_error_says(error: RouterError)
    ensures
        match error {
            RouterError::WriterError(inner) => error@ == RouterFailure::WriterError(inner@),
            RouterError::ExtractStringField {
                id,
                key,
                reason,
            } => error@ == RouterFailure::ExtractStringField(id, key@, reason@),
            RouterError::SchemaCatalog(inner) => error@ == RouterFailure::SchemaCatalog(inner@),
            RouterError::FailedToExtractTablePath {
                reason,
            } => error@ == RouterFailure::FailedToExtractTablePath(reason@),
            RouterError::FailedToCreateRecordBatch {
                reason,
            } => error@ == RouterFailure::FailedToCreateRecordBatch(reason@),
        },
{
}

/// An error of the catalog says what it holds, as the kind of error that it is.
pub proof fn lemma_catalog_error_says(error: SchemaCatalogError)
    ensures
        match error {
            SchemaCatalogError::Writer(inner) => error@ == CatalogFailure::Writer(inner@),
            SchemaCatalogError::SampleFailed { reason } => error@ == CatalogFailure::SampleFailed(
                reason@,
            ),
            SchemaCatalogError::BuildTableDescriptor {
                table_path,
                reason,
            } => error@ == CatalogFailure::BuildTableDescriptor(
                (table_path.database@, table_path.table@),
                reason@,
            ),
            SchemaCatalogError::ArrowSchemaToFlussRowType {
                table_path,
                reason,
            } => error@ == CatalogFailure::ArrowSchemaToFlussRowType(
                (table_path.database@, table_path.table@),
                reason@,
            ),
            SchemaCatalogError::FlussToArrowSchemaFailed {
                reason,
            } => error@ == CatalogFailure::FlussToArrowSchemaFailed(reason@),
        },
{
}

/// An error of the writer says what it holds, as the kind of error that it is.
pub proof fn lemma_writer_error_says(error: WriterError)
    ensures
        match error {
            WriterError::Connector(inner) => error@ == WriterFailure::Connector(inner@),
            WriterError::ConnectionNotInitialized => error@
                == WriterFailure::ConnectionNotInitialized,
            WriterError::Connect { source } => error@ == WriterFailure::Connect(source@),
            WriterError::InvalidWriterConfig { source } => error@
                == WriterFailure::InvalidWriterConfig(source@),
            WriterError::CloseConnection { source } => error@ == WriterFailure::CloseConnection(
                source@,
            ),
            WriterError::GetAdminClient { source } => error@ == WriterFailure::GetAdminClient(
                source@,
            ),
            WriterError::CreateTable { table_path, source } => error@ == WriterFailure::CreateTable(
                (table_path.database@, table_path.table@),
                source@,
            ),
            WriterError::GetTable { table_path, source } => error@ == WriterFailure::GetTable(
                (table_path.database@, table_path.table@),
                source@,
            ),
            WriterError::TableNotFound { table_path } => error@ == WriterFailure::TableNotFound(
                (table_path.database@, table_path.table@),
            ),
            WriterError::CreateAppender {
                table_path,
                source,
            } => error@ == WriterFailure::CreateAppender(
                (table_path.database@, table_path.table@),
                source@,
            ),
            WriterError::CreateWriter {
                table_path,
                source,
            } => error@ == WriterFailure::CreateWriter(
                (table_path.database@, table_path.table@),
                source@,
            ),
            WriterError::AppendArrowBatch {
                table_path,
                source,
            } => error@ == WriterFailure::AppendArrowBatch(
                (table_path.database@, table_path.table@),
                source@,
            ),
            WriterError::FlushRows { table_path, source } => error@ == WriterFailure::FlushRows(
                (table_path.database@, table_path.table@),
                source@,
            ),
        },
{
}

/// Whether a text tells of a table: it begins as it is to, goes on with the path of the table, and
/// ends with what the client said.
pub open spec fn tells_of_table(
    text: Seq<char>,
    opening: Seq<char>,
    path: (Seq<char>, Seq<char>),
    middle: Seq<char>,
    source: Seq<char>,
) -> bool {
    text == opening + (path.0 + seq!['.'] + path.1) + middle + source
}

/// A sentence about a table tells of it.
proof fn lemma_table_sentence(
    opening: Seq<char>,
    path: (Seq<char>, Seq<char>),
    middle: Seq<char>,
    source: Seq<char>,
)
    ensures
        tells_of_table(opening + path_text(path) + middle + source, opening, path, middle, source),
{
    reveal_strlit(".");
    assert(path_text(path) =~= path.0 + seq!['.'] + path.1);
}

/// The message of a failure of the writer holds the path of the table that it is about, and ends
/// with what the client said. Each failure begins in its own way.
pub proof fn lemma_writer_message(failure: WriterFailure)
    ensures
        match failure {
            WriterFailure::Connector(inner) => failure.message() == inner.detail(),
            WriterFailure::ConnectionNotInitialized => failure.message()
                == "Fluss connection is not initialized"@,
            WriterFailure::Connect(source) => failure.message()
                == "Failed to connect to Fluss: "@ + source,
            WriterFailure::InvalidWriterConfig(source) => failure.message()
                == "Invalid Fluss writer configuration: "@ + source,
            WriterFailure::CloseConnection(source) => failure.message()
                == "Failed to close Fluss connection: "@ + source,
            WriterFailure::GetAdminClient(source) => failure.message()
                == "Failed to get Fluss admin client: "@ + source,
            WriterFailure::CreateTable(path, source) => tells_of_table(
                failure.message(),
                "Failed to create Fluss table '"@,
                path,
                "': "@,
                source,
            ),
            WriterFailure::GetTable(path, source) => tells_of_table(
                failure.message(),
                "Failed to get Fluss table '"@,
                path,
                "': "@,
                source,
            ),
            WriterFailure::TableNotFound(path) => tells_of_table(
                failure.message(),
                "Fluss table '"@,
                path,
                "' was not found"@,
                Seq::empty(),
            ),
            WriterFailure::CreateAppender(path, source) => tells_of_table(
                failure.message(),
                "Failed to create appender for Fluss table '"@,
                path,
                "': "@,
                source,
            ),
            WriterFailure::CreateWriter(path, source) => tells_of_table(
                failure.message(),
                "Failed to create writer for Fluss table '"@,
                path,
                "': "@,
                source,
            ),
            WriterFailure::AppendArrowBatch(path, source) => tells_of_table(
                failure.message(),
                "Failed to append Arrow batch to Fluss table '"@,
                path,
                "': "@,
                source,
            ),
            WriterFailure::FlushRows(path, source) => tells_of_table(
                failure.message(),
                "Failed to flush rows to Fluss table '"@,
                path,
                "': "@,
                source,
            ),
        },
{
    match failure {
        WriterFailure::CreateTable(path, source) => {
            lemma_table_sentence("Failed to create Fluss table '"@, path, "': "@, source);
        },
        WriterFailure::GetTable(path, source) => {
            lemma_table_sentence("Failed to get Fluss table '"@, path, "': "@, source);
        },
        WriterFailure::TableNotFound(path) => {
            lemma_table_sentence("Fluss table '"@, path, "' was not found"@, Seq::empty());
            assert(failure.message() + Seq::empty() =~= failure.message());
        },
        WriterFailure::CreateAppender(path, source) => {
            lemma_table_sentence(
                "Failed to create appender for Fluss table '"@,
                path,
                "': "@,
                source,
            );
        },
        WriterFailure::CreateWriter(path, source) => {
            lemma_table_sentence(
                "Failed to create writer for Fluss table '"@,
                path,
                "': "@,
                source,
            );
        },
        WriterFailure::AppendArrowBatch(path, source) => {
            lemma_table_sentence(
                "Failed to append Arrow batch to Fluss table '"@,
                path,
                "': "@,
                source,
            );
        },
        WriterFailure::FlushRows(path, source) => {
            lemma_table_sentence("Failed to flush rows to Fluss table '"@, path, "': "@, source);
        },
        _ => {},
    }
}

/// The message of a failure of the catalog holds the path of the table that it is about and the
/// reason. A failure of the writer keeps its own message.
pub proof fn lemma_catalog_message(failure: CatalogFailure)
    ensures
        match failure {
            CatalogFailure::Writer(inner) => failure.message() == inner.message(),
            CatalogFailure::SampleFailed(reason) => failure.message()
                == "Sampling has failed for messages. Can not create arrow schema because of ["@
                + reason + "]"@,
            CatalogFailure::BuildTableDescriptor(path, reason) => tells_of_table(
                failure.message(),
                "Failed to build Fluss table descriptor for table "@,
                path,
                ": "@,
                reason,
            ),
            CatalogFailure::ArrowSchemaToFlussRowType(path, reason) => tells_of_table(
                failure.message(),
                "Failed to convert arrow Schema to fluss RowType for table "@,
                path,
                " because of: "@,
                reason,
            ),
            CatalogFailure::FlussToArrowSchemaFailed(reason) => failure.message()
                == "Failed to convert Fluss schema to Arrow schema because: "@ + reason,
        },
{
    match failure {
        CatalogFailure::BuildTableDescriptor(path, reason) => {
            lemma_table_sentence(
                "Failed to build Fluss table descriptor for table "@,
                path,
                ": "@,
                reason,
            );
        },
        CatalogFailure::ArrowSchemaToFlussRowType(path, reason) => {
            lemma_table_sentence(
                "Failed to convert arrow Schema to fluss RowType for table "@,
                path,
                " because of: "@,
                reason,
            );
        },
        _ => {},
    }
}

/// The message of a failure of the router holds its reason and, for a member that was not
/// extracted, the key and the id of the message. Failures from elsewhere keep their own messages.
pub proof fn lemma_router_message(failure: RouterFailure)
    ensures
        match failure {
            RouterFailure::WriterError(inner) => failure.message() == inner.message(),
            RouterFailure::SchemaCatalog(inner) => failure.message() == inner.message(),
            RouterFailure::ExtractStringField(id, key, reason) => exists|digits: Seq<char>|
                #[trigger] writes_number(digits, id as nat) && failure.message()
                    == "Failed to extract string value for ["@ + key + "] for message: ["@ + digits
                    + "] because: ["@ + reason + "]"@,
            RouterFailure::FailedToExtractTablePath(reason) => failure.message()
                == "Failed to create table path: ["@ + reason + "]"@,
            RouterFailure::FailedToCreateRecordBatch(reason) => failure.message()
                == "Failed to create table path: ["@ + reason + "]"@,
        },
{
    if let RouterFailure::ExtractStringField(id, key, reason) = failure {
        lemma_number_reads_back(id as nat);
        assert(writes_number(decimal_digits(id as nat), id as nat));
    }
}

/// The connector sees a failure of the writer as an error of initialization, whether the router
/// met it itself or through the catalog, and any other failure of the router as an invalid record.
/// It sees the whole message.
pub proof fn lemma_router_failure_reported(failure: RouterFailure)
    ensures
        match failure {
            RouterFailure::WriterError(inner) => failure.connector_failure()
                == ConnectorFailure::InitError(inner.message()),
            RouterFailure::SchemaCatalog(CatalogFailure::Writer(inner)) => {
                failure.connector_failure() == ConnectorFailure::InitError(inner.message())
            },
            _ => failure.connector_failure() == ConnectorFailure::InvalidRecordValue(
                failure.message(),
            ),
        },
{
}

/// The connector sees its own errors as they are, a missing or failed connection as an error of
/// initialization, a configuration that was refused as an invalid one, a failed close as a failed
/// connection, and all else as data that could not be stored.
pub proof fn lemma_writer_failure_reported(failure: WriterFailure)
    ensures
        match failure {
            WriterFailure::Connector(inner) => failure.connector_failure() == inner,
            WriterFailure::ConnectionNotInitialized | WriterFailure::Connect(_) => {
                failure.connector_failure() == ConnectorFailure::InitError(failure.message())
            },
            WriterFailure::InvalidWriterConfig(_) => failure.connector_failure()
                == ConnectorFailure::InvalidConfigValue(failure.message()),
            WriterFailure::CloseConnection(_) => failure.connector_failure()
                == ConnectorFailure::Connection(failure.message()),
            WriterFailure::GetAdminClient(_)
            | WriterFailure::CreateTable(_, _)
            | WriterFailure::GetTable(_, _)
            | WriterFailure::TableNotFound(_)
            | WriterFailure::CreateAppender(_, _)
            | WriterFailure::CreateWriter(_, _)
            | WriterFailure::AppendArrowBatch(_, _)
            | WriterFailure::FlushRows(_, _) => {
                failure.connector_failure() == ConnectorFailure::CannotStoreData(failure.message())
            },
        },
{
}

/// Rows that are too long are reported as such, and messages that come too early as an error of
/// initialization.
pub proof fn lemma_reasons_told()
    ensures
        overflow_reason() == "byte array offset overflow"@,
        not_open() == ConnectorFailure::InitError("Fluss table layout is not initialized"@),
{
}

/// The number of calls that a task takes.
pub open spec fn call_count(task: WriterTask) -> int {
    match task {
        WriterTask::Connect => 3,
        WriterTask::Close => 2,
        WriterTask::LookUpTable { .. } => 1,
        WriterTask::CreateTable { .. } => 2,
        WriterTask::Write { .. } => 5,
    }
}

/// Each task takes its calls, whatever table it is about: connecting turns the configuration into
/// that of the client before it connects; closing and creating first get what they need; a batch
/// is appended and then flushed, once the table, the appender and the writer are there.
pub proof fn lemma_calls_of_tasks(task: WriterTask)
    ensures
        task_calls(task).len() == call_count(task),
        match task {
            WriterTask::Connect => {
                &&& task_calls(task)[0] == WriterCall::ConvertConfig
                &&& task_calls(task)[1] == WriterCall::Connect
                &&& task_calls(task)[2] == WriterCall::GetWriterClient
            },
            WriterTask::Close => {
                &&& task_calls(task)[0] == WriterCall::GetWriterClient
                &&& task_calls(task)[1] == WriterCall::CloseWriterClient
            },
            WriterTask::LookUpTable { .. } => task_calls(task)[0] == WriterCall::GetTable,
            WriterTask::CreateTable { .. } => {
                &&& task_calls(task)[0] == WriterCall::GetAdmin
                &&& task_calls(task)[1] == WriterCall::CreateTable
            },
            WriterTask::Write { .. } => {
                &&& task_calls(task)[0] == WriterCall::GetTable
                &&& task_calls(task)[1] == WriterCall::NewAppend
                &&& task_calls(task)[2] == WriterCall::CreateWriter
                &&& task_calls(task)[3] == WriterCall::AppendArrowBatch
                &&& task_calls(task)[4] == WriterCall::Flush
            },
        },
{
}

/// No call comes twice in a task. What follows a call is the next one, and nothing follows the
/// last: there is one answer for each call.
pub proof fn lemma_one_call_follows(
    task: WriterTask,
    index: int,
    left: Option<WriterCall>,
    right: Option<WriterCall>,
)
    requires
        0 <= index < task_calls(task).len(),
        follows(task, task_calls(task)[index], left),
        follows(task, task_calls(task)[index], right),
    ensures
        left == right,
        left is None <==> index == call_count(task) - 1,
        left matches Some(next) ==> next == task_calls(task)[index + 1],
        forall|i: int|
            0 <= i < task_calls(task).len() && i != index ==> #[trigger] task_calls(task)[i]
                != task_calls(task)[index],
{
}

/// An error of the connector stays what it is in whatever call it comes. The failures of two calls
/// of one task can be told apart.
pub proof fn lemma_failed_calls_told_apart(
    task: WriterTask,
    left: int,
    right: int,
    source: String,
    inner: ConnectorError,
)
    requires
        0 <= left < task_calls(task).len(),
        0 <= right < task_calls(task).len(),
        task_calls(task)[left] != WriterCall::ConvertConfig,
        task_calls(task)[right] != WriterCall::ConvertConfig,
    ensures
        call_failure(task, task_calls(task)[left], CallError::Connector(inner))
            == WriterFailure::Connector(inner@),
        left != right ==> call_failure(task, task_calls(task)[left], CallError::Client(source))
            != call_failure(task, task_calls(task)[right], CallError::Client(source)),
{
}

/// The failure of a call names the step that failed, and the table of the task where it is about
/// one.
pub proof fn lemma_failed_call_named(task: WriterTask, call: WriterCall, source: Seq<char>)
    requires
        task_calls(task).contains(call),
        call != WriterCall::ConvertConfig,
    ensures
        match task {
            WriterTask::Connect => client_failure(task, call, source) == if call
                == WriterCall::Connect {
                WriterFailure::Connect(source)
            } else {
                WriterFailure::InvalidWriterConfig(source)
            },
            WriterTask::Close => client_failure(task, call, source) == if call
                == WriterCall::CloseWriterClient {
                WriterFailure::CloseConnection(source)
            } else {
                WriterFailure::InvalidWriterConfig(source)
            },
            WriterTask::LookUpTable { table_path } => client_failure(task, call, source)
                == WriterFailure::GetTable((table_path.database@, table_path.table@), source),
            WriterTask::CreateTable { table_path, .. } => client_failure(task, call, source)
                == if call == WriterCall::CreateTable {
                WriterFailure::CreateTable((table_path.database@, table_path.table@), source)
            } else {
                WriterFailure::GetAdminClient(source)
            },
            WriterTask::Write {
                table_path,
                ..
            } => client_failure(task, call, source) == match call {
                WriterCall::GetTable => WriterFailure::GetTable(
                    (table_path.database@, table_path.table@),
                    source,
                ),
                WriterCall::NewAppend => WriterFailure::CreateAppender(
                    (table_path.database@, table_path.table@),
                    source,
                ),
                WriterCall::CreateWriter => WriterFailure::CreateWriter(
                    (table_path.database@, table_path.table@),
                    source,
                ),
                WriterCall::AppendArrowBatch => WriterFailure::AppendArrowBatch(
                    (table_path.database@, table_path.table@),
                    source,
                ),
                _ => WriterFailure::FlushRows((table_path.database@, table_path.table@), source),
            },
        },
{
}

/// Connecting starts at once, and no other task starts without a connection. With it, each task
/// starts with the first thing that it needs.
pub proof fn lemma_task_started(
    task: WriterTask,
    connected: bool,
    call: Result<WriterCall, WriterError>,
)
    requires
        starts(task, connected, call),
    ensures
        match call {
            Ok(first) => {
                &&& task is Connect || connected
                &&& first == match task {
                    WriterTask::Connect => WriterCall::ConvertConfig,
                    WriterTask::Close => WriterCall::GetWriterClient,
                    WriterTask::LookUpTable { .. } => WriterCall::GetTable,
                    WriterTask::CreateTable { .. } => WriterCall::GetAdmin,
                    WriterTask::Write { .. } => WriterCall::GetTable,
                }
            },
            Err(error) => {
                &&& !(task is Connect || connected)
                &&& error is ConnectionNotInitialized
            },
        },
{
}

/// A call that succeeded is followed by the next one of its task, and the last one ends it. A call
/// that failed ends its task with an error. The writer becomes connected with the last call of
/// connecting and with no other, and stays connected.
pub proof fn lemma_task_goes_on(
    task: WriterTask,
    index: int,
    outcome: Result<(), CallError>,
    before: bool,
    after: bool,
    next: Result<Option<WriterCall>, WriterError>,
)
    requires
        0 <= index < task_calls(task).len(),
        proceeds(task, task_calls(task)[index], outcome, before, after, next),
    ensures
        next is Ok <==> outcome is Ok,
        next matches Ok(following) ==> (following is None <==> index == call_count(task) - 1),
        next matches Ok(Some(following)) ==> following == task_calls(task)[index + 1],
        before ==> after,
        !before && after <==> !before && task is Connect && index == 2 && outcome is Ok,
        outcome matches Err(CallError::Connector(inner)) ==> {
            &&& next matches Err(error)
            &&& error@ == WriterFailure::Connector(inner@)
        },
{
    if let Ok(following) = next {
        lemma_one_call_follows(task, index, following, following);
    }
}

/// A table that does not exist is reported as such, whatever the client said; any other failure to
/// look up a table keeps what the client said.
pub proof fn lemma_lookup_failures(
    path: (Seq<char>, Seq<char>),
    missing: bool,
    source: Seq<char>,
)
    ensures
        missing ==> lookup_failure(path, missing, source) == WriterFailure::TableNotFound(path),
        !missing ==> lookup_failure(path, missing, source) == WriterFailure::GetTable(
            path,
            source,
        ),
{
}

/// Only the task of creating a table asks for one, with its own path and descriptor, and is
/// content with a table that exists. Only the task of closing asks to close, within half a minute.
pub proof fn lemma_requests(task: WriterTask, request: Option<CreateRequest<'_>>)
    requires
        requests_creation(task, request),
    ensures
        request is Some <==> task is CreateTable,
        request matches Some(request) ==> {
            &&& request.ignore_if_exists
            &&& request.table_path.database@ == task->CreateTable_table_path.database@
            &&& request.table_path.table@ == task->CreateTable_table_path.table@
            &&& *request.table_descriptor == *task->table_descriptor
        },
        close_request_of(task) is Some <==> task is Close,
        close_request_of(task) matches Some(request) ==> request.timeout_seconds == 30,
{
}

/// The client can fail in any call but the one that it takes no part in; the connector can fail in
/// all.
pub proof fn lemma_who_can_fail(call: WriterCall, source: String, inner: ConnectorError)
    ensures
        can_fail_with(call, CallError::Client(source)) <==> call != WriterCall::ConvertConfig,
        can_fail_with(call, CallError::Connector(inner)),
{
}

} // verus!
