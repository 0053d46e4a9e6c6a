//! Laws of routes to many tables: what is written, what is counted, and what becomes known.

use fluss::metadata::TableInfo;
use vstd::prelude::*;

use crate::arrow_data::{
    all_decodable, batch_columns, batch_fields, batch_rows, decoded, decoder_refusal,
    schema_fields, ArrowField, BatchColumn, ReaderModes,
};
use crate::decoding::lemma_mended_rows;
use crate::fluss_schema::table_parts;
use crate::json::{document, Json};
use crate::laws::routing::{
    lemma_group_holds_named, lemma_message_goes_where_named, lemma_skipped_are_unnamed, names_some,
    names_table,
};
use crate::message::{ConsumedMessage, Payload};
use crate::router::multi_table::{
    after_creation, after_lookup, after_write, batch_outcome, begins, continues, has_group,
    is_route, json_documents, learned, lemma_all_counted, partitioned, route_advances, unroutable,
    writes, GroupWrite, RouteState, RouteStep, TableCreation, TableGroup, TableLookup,
};
use crate::router::{RouterError, RouterFailure};
use crate::schema_catalog::{CatalogFailure, SchemaEntry, TableSchema};
use crate::writer::{Op, Stat, WriterError};

verus! {

/// Whether messages carry the given JSON documents, one each.
pub open spec fn give_documents(messages: Seq<ConsumedMessage>, rows: Seq<Json>) -> bool {
    &&& rows.len() == messages.len()
    &&& forall|i: int|
        0 <= i < messages.len() ==> {
            &&& (#[trigger] messages[i]).payload matches Payload::Json(value)
            &&& document(value) == rows[i]
        }
}

/// Messages that carry documents have them as their rows.
proof fn lemma_documents(messages: Seq<ConsumedMessage>, rows: Seq<Json>)
    requires
        give_documents(messages, rows),
    ensures
        json_documents(messages) == rows,
    decreases messages.len(),
{
    if messages.len() > 0 {
        let shorter = messages.drop_last();
        assert forall|i: int| 0 <= i < shorter.len() implies {
            &&& (#[trigger] shorter[i]).payload matches Payload::Json(value)
            &&& document(value) == rows.drop_last()[i]
        } by {
            assert(messages[i].payload is Json);
        }
        lemma_documents(shorter, rows.drop_last());
        assert(messages[messages.len() - 1].payload is Json);
        assert(json_documents(messages) =~= rows);
    } else {
        assert(json_documents(messages) =~= rows);
    }
}

/// A message that carries no document adds no row, and one that carries a document adds that one.
/// The rows of messages are those of the first messages, followed by those of the others.
pub proof fn lemma_documents_in_order(
    first: Seq<ConsumedMessage>,
    others: Seq<ConsumedMessage>,
    message: ConsumedMessage,
)
    ensures
        json_documents(first + others) == json_documents(first) + json_documents(others),
        json_documents(seq![message]) == match message.payload {
            Payload::Json(value) => seq![document(value)],
            _ => Seq::empty(),
        },
    decreases others.len(),
{
    reveal_with_fuel(Seq::filter_map, 2);
    assert(seq![message].drop_last() =~= Seq::empty());
    assert(json_documents(seq![message]) =~= match message.payload {
        Payload::Json(value) => seq![document(value)],
        _ => Seq::empty(),
    });
    if others.len() == 0 {
        assert(first + others =~= first);
        assert(json_documents(first) + json_documents(others) =~= json_documents(first));
    } else {
        assert((first + others).drop_last() =~= first + others.drop_last());
        lemma_documents_in_order(first, others.drop_last(), message);
        assert(json_documents(first + others) =~= json_documents(first) + json_documents(others));
    }
}

/// The batch of messages is what Arrow decodes from their documents, one row for each message in
/// their order, under the fields of the table. Members that the table lacks are passed over, and
/// values that do not fit are errors.
pub proof fn lemma_batch_decoded_from_documents(
    fields: Seq<ArrowField>,
    messages: Seq<ConsumedMessage>,
    rows: Seq<Json>,
)
    requires
        give_documents(messages, rows),
        all_decodable(fields, rows),
    ensures
        match decoder_refusal(fields) {
            Some(reason) => batch_outcome(fields, messages) == Err::<
                Option<Seq<BatchColumn>>,
                Seq<char>,
            >(reason),
            None => batch_outcome(fields, messages) == decoded(
                fields,
                ReaderModes { strict: false, ignore_type_conflicts: false },
                rows,
            ),
        },
{
    lemma_documents(messages, rows);
    lemma_mended_rows(fields, rows);
}

/// Whether a write is that of a group: to its table, appended, of all its messages.
pub open spec fn writes_group(write: GroupWrite, group: TableGroup) -> bool {
    &&& write.write.table_path.database@ == group.table.database@
    &&& write.write.table_path.table@ == group.table.table@
    &&& write.write.op == Op::Append
    &&& batch_rows(write.write.batch) == group.messages@.len()
    &&& batch_outcome(batch_fields(write.write.batch), group.messages@) == Ok::<
        Option<Seq<BatchColumn>>,
        Seq<char>,
    >(Some(batch_columns(write.write.batch)))
}

/// Whether a step writes a group, with all its messages counted as appended and nothing else
/// counted, or fails because its batch cannot be made. The groups that wait go on waiting.
pub open spec fn turns_to_group(
    step: Result<RouteStep, RouterError>,
    group: TableGroup,
    fields: Seq<ArrowField>,
    groups: Seq<TableGroup>,
    stat: Stat,
) -> bool {
    match step {
        Ok(RouteStep::Write(write)) => {
            &&& writes_group(write, group)
            &&& batch_fields(write.write.batch) == fields
            &&& write.waiting.groups@ == groups
            &&& write.waiting.stat.appended == stat.appended + group.messages@.len()
            &&& write.waiting.stat.errors == stat.errors
        },
        Ok(_) => false,
        Err(error) => {
            &&& batch_outcome(fields, group.messages@) is Err
            &&& error@ == RouterFailure::FailedToCreateRecordBatch(
                batch_outcome(fields, group.messages@)->Err_0,
            )
        },
    }
}

/// A group that is to be written is written to its own table with all its messages, or the route
/// fails with the reason why no batch can be made of them.
pub proof fn lemma_group_written(
    step: Result<RouteStep, RouterError>,
    group: TableGroup,
    fields: Seq<ArrowField>,
    groups: Seq<TableGroup>,
    stat: Stat,
)
    requires
        writes(step, group, fields, groups, stat),
    ensures
        turns_to_group(step, group, fields, groups, stat),
{
}

/// With no groups left the route is finished with what was counted. Else the first group comes
/// next: it is written under what is known of its table, or its table is looked up.
pub proof fn lemma_first_group_next(
    step: Result<RouteStep, RouterError>,
    catalog: Map<(Seq<char>, Seq<char>), SchemaEntry>,
    groups: Seq<TableGroup>,
    stat: Stat,
)
    requires
        continues(step, catalog, groups, stat),
    ensures
        groups.len() == 0 ==> {
            &&& step matches Ok(RouteStep::Finished(total))
            &&& total == stat
        },
        groups.len() > 0 ==> {
            let path = (groups[0].table.database@, groups[0].table.table@);
            let rest = groups.subrange(1, groups.len() as int);
            if catalog.contains_key(path) {
                turns_to_group(step, groups[0], catalog[path].content().fields, rest, stat)
            } else {
                &&& step matches Ok(RouteStep::LookUpTable(lookup))
                &&& lookup.group == groups[0]
                &&& lookup.waiting.groups@ == rest
                &&& lookup.waiting.stat == stat
            }
        },
{
    if groups.len() > 0 {
        assert(groups.drop_first() =~= groups.subrange(1, groups.len() as int));
    }
}

/// Whether a catalog knows of all tables but one what another one knows.
pub open spec fn same_but_for(
    left: Map<(Seq<char>, Seq<char>), SchemaEntry>,
    right: Map<(Seq<char>, Seq<char>), SchemaEntry>,
    path: (Seq<char>, Seq<char>),
) -> bool {
    forall|other: (Seq<char>, Seq<char>)|
        other != path ==> {
            &&& #[trigger] left.contains_key(other) == right.contains_key(other)
            &&& left.contains_key(other) ==> left[other] == right[other]
        }
}

/// Of a table that was learned is known what its schema says, and of no other table does what is
/// known change. An entry says the fields of its Arrow schema and what its descriptor holds.
pub proof fn lemma_learned_table_known(
    before: Map<(Seq<char>, Seq<char>), SchemaEntry>,
    path: (Seq<char>, Seq<char>),
    schema: TableSchema,
    after: Map<(Seq<char>, Seq<char>), SchemaEntry>,
)
    requires
        learned(before, path, schema, after),
    ensures
        after.contains_key(path),
        schema_fields(after[path].arrow_schema()) == schema.fields,
        table_parts(after[path].descriptor()) == schema.table,
        same_but_for(before, after, path),
{
}

/// A table that was found is written to, with the messages that waited for it, and becomes known;
/// of no other table does what is known change. Where its schema cannot be used, the route fails
/// and nothing becomes known.
pub proof fn lemma_found_table_written(
    lookup: TableLookup,
    info: TableInfo,
    creates: bool,
    before: Map<(Seq<char>, Seq<char>), SchemaEntry>,
    after: Map<(Seq<char>, Seq<char>), SchemaEntry>,
    step: Result<RouteStep, RouterError>,
)
    requires
        after_lookup(lookup, Ok(info), creates, before, after, step),
    ensures
        ({
            let path = (lookup.group.table.database@, lookup.group.table.table@);
            ||| {
                &&& after.contains_key(path)
                &&& same_but_for(before, after, path)
                &&& turns_to_group(
                    step,
                    lookup.group,
                    after[path].content().fields,
                    lookup.waiting.groups@,
                    lookup.waiting.stat,
                )
            }
            ||| {
                &&& step matches Err(error)
                &&& error@ is SchemaCatalog
                &&& after == before
            }
        }),
{
}

/// A table that was not found is created where tables are to be created, for the messages that
/// waited for it, with an entry in the catalog; nothing is counted yet.
pub proof fn lemma_missing_table_created(
    lookup: TableLookup,
    missing: WriterError,
    before: Map<(Seq<char>, Seq<char>), SchemaEntry>,
    after: Map<(Seq<char>, Seq<char>), SchemaEntry>,
    step: Result<RouteStep, RouterError>,
)
    requires
        missing is TableNotFound,
        after_lookup(lookup, Err(missing), true, before, after, step),
    ensures
        ({
            let path = (lookup.group.table.database@, lookup.group.table.table@);
            match step {
                Ok(RouteStep::CreateTable(creation)) => {
                    &&& creation.group == lookup.group
                    &&& creation.waiting == lookup.waiting
                    &&& after.contains_key(path)
                    &&& after[path] == *creation.entry
                    &&& same_but_for(before, after, path)
                },
                Ok(_) => false,
                Err(error) => error@ is SchemaCatalog && after == before,
            }
        }),
{
}

/// Where tables are not to be created, a table that was not found costs its messages: all of them
/// are counted as errors, and the route goes on with the next group. Nothing becomes known.
pub proof fn lemma_missing_table_skipped(
    lookup: TableLookup,
    missing: WriterError,
    before: Map<(Seq<char>, Seq<char>), SchemaEntry>,
    after: Map<(Seq<char>, Seq<char>), SchemaEntry>,
    step: Result<RouteStep, RouterError>,
)
    requires
        missing is TableNotFound,
        lookup.well_formed(),
        after_lookup(lookup, Err(missing), false, before, after, step),
    ensures
        after == before,
        !(step matches Ok(RouteStep::CreateTable(_))),
        step matches Ok(RouteStep::Finished(stat)) ==> {
            &&& lookup.waiting.groups@.len() == 0
            &&& stat.appended == lookup.waiting.stat.appended
            &&& stat.errors == lookup.waiting.stat.errors + lookup.group.messages@.len()
        },
        step matches Ok(RouteStep::LookUpTable(next)) ==> {
            &&& lookup.waiting.groups@.len() > 0
            &&& next.group == lookup.waiting.groups@[0]
            &&& next.waiting.stat.appended == lookup.waiting.stat.appended
            &&& next.waiting.stat.errors == lookup.waiting.stat.errors
                + lookup.group.messages@.len()
        },
        step matches Ok(RouteStep::Write(write)) ==> {
            &&& lookup.waiting.groups@.len() > 0
            &&& writes_group(write, lookup.waiting.groups@[0])
            &&& write.waiting.stat.appended == lookup.waiting.stat.appended
                + lookup.waiting.groups@[0].messages@.len()
            &&& write.waiting.stat.errors == lookup.waiting.stat.errors
                + lookup.group.messages@.len()
        },
{
    lemma_first_group_next(
        step,
        before,
        lookup.waiting.groups@,
        Stat {
            appended: lookup.waiting.stat.appended,
            errors: (lookup.waiting.stat.errors + lookup.group.messages@.len()) as u64,
        },
    );
}

/// A lookup that failed otherwise ends the route with that failure, and nothing becomes known.
pub proof fn lemma_failed_lookup_ends(
    lookup: TableLookup,
    failure: WriterError,
    creates: bool,
    before: Map<(Seq<char>, Seq<char>), SchemaEntry>,
    after: Map<(Seq<char>, Seq<char>), SchemaEntry>,
    step: Result<RouteStep, RouterError>,
)
    requires
        !(failure is TableNotFound),
        after_lookup(lookup, Err(failure), creates, before, after, step),
    ensures
        after == before,
        step matches Err(error) && error@ == RouterFailure::SchemaCatalog(
            CatalogFailure::Writer(failure@),
        ),
{
}

/// A table that was created is written to, with the messages for which it was created. A creation
/// that failed ends the route with that failure.
pub proof fn lemma_created_table_written(
    creation: TableCreation,
    outcome: Result<(), WriterError>,
    step: Result<RouteStep, RouterError>,
)
    requires
        after_creation(creation, outcome, step),
    ensures
        match outcome {
            Ok(()) => turns_to_group(
                step,
                creation.group,
                creation.entry.content().fields,
                creation.waiting.groups@,
                creation.waiting.stat,
            ),
            Err(failure) => step matches Err(error) && error@ == RouterFailure::WriterError(
                failure@,
            ),
        },
{
}

/// After a write the next group comes, and nothing more is counted for the last one. A write that
/// failed ends the route with that failure.
pub proof fn lemma_next_group_after_write(
    written: GroupWrite,
    outcome: Result<(), WriterError>,
    catalog: Map<(Seq<char>, Seq<char>), SchemaEntry>,
    step: Result<RouteStep, RouterError>,
)
    requires
        after_write(written, outcome, catalog, step),
    ensures
        match outcome {
            Ok(()) => {
                &&& written.waiting.groups@.len() == 0 ==> {
                    &&& step matches Ok(RouteStep::Finished(total))
                    &&& total == written.waiting.stat
                }
                &&& step matches Ok(RouteStep::LookUpTable(lookup)) ==> {
                    &&& written.waiting.groups@.len() > 0
                    &&& lookup.group == written.waiting.groups@[0]
                    &&& lookup.waiting.stat == written.waiting.stat
                }
                &&& step matches Ok(RouteStep::Write(write)) ==> {
                    &&& written.waiting.groups@.len() > 0
                    &&& writes_group(write, written.waiting.groups@[0])
                    &&& write.waiting.stat.appended == written.waiting.stat.appended
                        + written.waiting.groups@[0].messages@.len()
                    &&& write.waiting.stat.errors == written.waiting.stat.errors
                }
                &&& !(step matches Ok(RouteStep::CreateTable(_)))
            },
            Err(failure) => step matches Err(error) && error@ == RouterFailure::WriterError(
                failure@,
            ),
        },
{
    if outcome is Ok {
        lemma_first_group_next(step, catalog, written.waiting.groups@, written.waiting.stat);
    }
}

/// The number of messages that name no table.
pub open spec fn unnamed(messages: Seq<ConsumedMessage>, key: Seq<char>) -> nat {
    messages.filter(|message: ConsumedMessage| !names_some(message, key)).len()
}

/// The messages that name a table.
pub open spec fn named(
    messages: Seq<ConsumedMessage>,
    key: Seq<char>,
    database: Seq<char>,
    table: Seq<char>,
) -> Seq<ConsumedMessage> {
    messages.filter(|message: ConsumedMessage| names_table(message, key, database, table))
}

/// A filter keeps no more than there is.
proof fn lemma_unnamed_bounded(messages: Seq<ConsumedMessage>, key: Seq<char>)
    ensures
        unnamed(messages, key) <= messages.len(),
        unroutable(messages, key).len() == unnamed(messages, key),
{
    lemma_skipped_are_unnamed(messages, key);
    messages.lemma_filter_len(|message: ConsumedMessage| !names_some(message, key));
}

/// A group among parted messages holds the messages that name its table.
proof fn lemma_group_named(
    messages: Seq<ConsumedMessage>,
    key: Seq<char>,
    groups: Seq<TableGroup>,
    index: int,
)
    requires
        partitioned(messages, key, groups),
        0 <= index < groups.len(),
    ensures
        groups[index].messages@ == named(
            messages,
            key,
            groups[index].table.database@,
            groups[index].table.table@,
        ),
        groups[index].messages@.len() > 0,
{
    lemma_group_holds_named(
        messages,
        key,
        groups,
        groups[index].table.database@,
        groups[index].table.table@,
    );
}

/// A route begins with a table that messages name and with all messages that name it. Messages
/// that name no table are counted as errors at once, and where no message names one the route is
/// finished.
pub proof fn lemma_route_begins(
    step: Result<RouteStep, RouterError>,
    catalog: Map<(Seq<char>, Seq<char>), SchemaEntry>,
    messages: Seq<ConsumedMessage>,
    key: Seq<char>,
)
    requires
        begins(step, catalog, messages, key),
        messages.len() <= u64::MAX,
    ensures
        match step {
            Ok(RouteStep::Finished(stat)) => {
                &&& stat.appended == 0
                &&& stat.errors == unnamed(messages, key)
                &&& forall|i: int|
                    0 <= i < messages.len() ==> !names_some(#[trigger] messages[i], key)
            },
            Ok(RouteStep::LookUpTable(lookup)) => {
                let database = lookup.group.table.database@;
                let table = lookup.group.table.table@;
                &&& !catalog.contains_key((database, table))
                &&& lookup.group.messages@ == named(messages, key, database, table)
                &&& lookup.group.messages@.len() > 0
                &&& lookup.waiting.stat.appended == 0
                &&& lookup.waiting.stat.errors == unnamed(messages, key)
            },
            Ok(RouteStep::Write(write)) => {
                let database = write.write.table_path.database@;
                let table = write.write.table_path.table@;
                &&& catalog.contains_key((database, table))
                &&& batch_fields(write.write.batch) == catalog[(database, table)].content().fields
                &&& batch_rows(write.write.batch) == named(messages, key, database, table).len()
                &&& write.write.op == Op::Append
                &&& write.waiting.stat.appended == named(messages, key, database, table).len()
                &&& write.waiting.stat.errors == unnamed(messages, key)
            },
            Ok(RouteStep::CreateTable(_)) => false,
            Err(error) => error@ is FailedToCreateRecordBatch,
        },
{
    lemma_unnamed_bounded(messages, key);
    let stat = Stat { appended: 0, errors: unroutable(messages, key).len() as u64 };
    let groups = choose|groups: Seq<TableGroup>|
        {
            &&& partitioned(messages, key, groups)
            &&& #[trigger] continues(step, catalog, groups, stat)
        };
    lemma_first_group_next(step, catalog, groups, stat);
    if groups.len() > 0 {
        lemma_group_named(messages, key, groups, 0);
    } else {
        assert forall|i: int| 0 <= i < messages.len() implies !names_some(
            #[trigger] messages[i],
            key,
        ) by {
            lemma_message_goes_where_named(messages[i], key);
        }
    }
}

/// What was counted as errors when a step was reached.
pub open spec fn errors_so_far(step: RouteStep) -> int {
    match step {
        RouteStep::LookUpTable(lookup) => lookup.waiting.stat.errors as int,
        RouteStep::CreateTable(creation) => creation.waiting.stat.errors as int,
        RouteStep::Write(write) => write.waiting.stat.errors as int,
        RouteStep::Finished(stat) => stat.errors as int,
    }
}

/// The step for groups that wait counts no errors.
proof fn lemma_continues_errors(
    step: RouteStep,
    catalog: Map<(Seq<char>, Seq<char>), SchemaEntry>,
    groups: Seq<TableGroup>,
    stat: Stat,
)
    requires
        continues(Ok(step), catalog, groups, stat),
    ensures
        errors_so_far(step) == stat.errors,
{
    lemma_first_group_next(Ok(step), catalog, groups, stat);
}

/// Where tables are created, only messages that name no table are counted as errors, at whatever
/// step of a route. When it is finished all others are counted as appended.
pub proof fn lemma_only_unnamed_lost(
    key: Seq<char>,
    messages: Seq<ConsumedMessage>,
    states: Seq<RouteState>,
    index: int,
)
    requires
        is_route(true, key, messages, states),
        messages.len() <= u64::MAX,
        0 <= index < states.len(),
    ensures
        errors_so_far(states[index].step) == unnamed(messages, key),
        states[index].step matches RouteStep::Finished(stat) ==> {
            &&& stat.errors == unnamed(messages, key)
            &&& stat.appended == messages.len() - unnamed(messages, key)
        },
    decreases index,
{
    lemma_unnamed_bounded(messages, key);
    lemma_all_counted(true, key, messages, states, index);
    if index == 0 {
        let stat = Stat { appended: 0, errors: unroutable(messages, key).len() as u64 };
        let groups = choose|groups: Seq<TableGroup>|
            {
                &&& partitioned(messages, key, groups)
                &&& #[trigger] continues(Ok(states[0].step), states[0].catalog, groups, stat)
            };
        lemma_continues_errors(states[0].step, states[0].catalog, groups, stat);
    } else {
        lemma_only_unnamed_lost(key, messages, states, index - 1);
        let before = states[index - 1];
        let after = states[index];
        assert(route_advances(true, before, after));
        match before.step {
            RouteStep::LookUpTable(lookup) => {
                let found = choose|found: Result<TableInfo, WriterError>| #[trigger]
                    after_lookup(
                        lookup,
                        found,
                        true,
                        before.catalog,
                        after.catalog,
                        Ok(after.step),
                    );
                assert(after_lookup(
                    lookup,
                    found,
                    true,
                    before.catalog,
                    after.catalog,
                    Ok(after.step),
                ));
            },
            RouteStep::CreateTable(creation) => {
                let outcome = choose|outcome: Result<(), WriterError>| #[trigger]
                    after_creation(creation, outcome, Ok(after.step));
                assert(after_creation(creation, outcome, Ok(after.step)));
            },
            RouteStep::Write(written) => {
                let outcome = choose|outcome: Result<(), WriterError>| #[trigger]
                    after_write(written, outcome, before.catalog, Ok(after.step));
                assert(after_write(written, outcome, before.catalog, Ok(after.step)));
                lemma_continues_errors(
                    after.step,
                    before.catalog,
                    written.waiting.groups@,
                    written.waiting.stat,
                );
            },
            RouteStep::Finished(_) => {},
        }
    }
}

/// Whether a group is still to be written when a step was reached.
pub open spec fn awaits(step: RouteStep, group: TableGroup) -> bool {
    match step {
        RouteStep::LookUpTable(lookup) => lookup.group == group || lookup.waiting.groups@.contains(
            group,
        ),
        RouteStep::CreateTable(creation) => creation.group == group
            || creation.waiting.groups@.contains(group),
        RouteStep::Write(write) => write.waiting.groups@.contains(group),
        RouteStep::Finished(_) => false,
    }
}

/// Whether a state writes a group.
pub open spec fn state_writes(state: RouteState, group: TableGroup) -> bool {
    state.step matches RouteStep::Write(write) && writes_group(write, group)
}

/// A group that waits is written next, or goes on waiting.
proof fn lemma_continues_awaits(
    state: RouteState,
    catalog: Map<(Seq<char>, Seq<char>), SchemaEntry>,
    groups: Seq<TableGroup>,
    stat: Stat,
    group: TableGroup,
)
    requires
        continues(Ok(state.step), catalog, groups, stat),
        groups.contains(group),
    ensures
        awaits(state.step, group) || state_writes(state, group),
{
    lemma_first_group_next(Ok(state.step), catalog, groups, stat);
    let rest = groups.subrange(1, groups.len() as int);
    let i = choose|i: int| 0 <= i < groups.len() && groups[i] == group;
    if i > 0 {
        assert(rest[i - 1] == group);
        assert(rest.contains(group));
    }
}

/// A group that waits stays so until it is written, where tables are created.
proof fn lemma_advance_awaits(before: RouteState, after: RouteState, group: TableGroup)
    requires
        route_advances(true, before, after),
        awaits(before.step, group),
    ensures
        awaits(after.step, group) || state_writes(after, group),
{
    match before.step {
        RouteStep::LookUpTable(lookup) => {
            let found = choose|found: Result<TableInfo, WriterError>| #[trigger]
                after_lookup(
                    lookup,
                    found,
                    true,
                    before.catalog,
                    after.catalog,
                    Ok(after.step),
                );
            assert(after_lookup(
                lookup,
                found,
                true,
                before.catalog,
                after.catalog,
                Ok(after.step),
            ));
        },
        RouteStep::CreateTable(creation) => {
            let outcome = choose|outcome: Result<(), WriterError>| #[trigger]
                after_creation(creation, outcome, Ok(after.step));
            assert(after_creation(creation, outcome, Ok(after.step)));
        },
        RouteStep::Write(written) => {
            let outcome = choose|outcome: Result<(), WriterError>| #[trigger]
                after_write(written, outcome, before.catalog, Ok(after.step));
            assert(after_write(written, outcome, before.catalog, Ok(after.step)));
            lemma_continues_awaits(
                after,
                before.catalog,
                written.waiting.groups@,
                written.waiting.stat,
                group,
            );
        },
        RouteStep::Finished(_) => {},
    }
}

/// A group of the first step is written by a later step, or still waits.
proof fn lemma_route_awaits(
    key: Seq<char>,
    messages: Seq<ConsumedMessage>,
    states: Seq<RouteState>,
    groups: Seq<TableGroup>,
    group: TableGroup,
    index: int,
)
    requires
        is_route(true, key, messages, states),
        0 <= index < states.len(),
        groups.contains(group),
        continues(
            Ok(states[0].step),
            states[0].catalog,
            groups,
            Stat { appended: 0, errors: unroutable(messages, key).len() as u64 },
        ),
    ensures
        awaits(states[index].step, group) || exists|j: int|
            0 <= j <= index && state_writes(#[trigger] states[j], group),
    decreases index,
{
    if index == 0 {
        lemma_continues_awaits(
            states[0],
            states[0].catalog,
            groups,
            Stat { appended: 0, errors: unroutable(messages, key).len() as u64 },
            group,
        );
    } else {
        lemma_route_awaits(key, messages, states, groups, group, index - 1);
        if awaits(states[index - 1].step, group) {
            assert(route_advances(true, states[index - 1], states[index]));
            lemma_advance_awaits(states[index - 1], states[index], group);
        }
    }
}

/// Where tables are created, a route that is finished has written to each table that a message
/// names: one batch was made of all messages that name it, and of no others.
pub proof fn lemma_every_named_table_written(
    key: Seq<char>,
    messages: Seq<ConsumedMessage>,
    states: Seq<RouteState>,
    last: int,
    message: int,
    database: Seq<char>,
    table: Seq<char>,
)
    requires
        is_route(true, key, messages, states),
        0 <= last < states.len(),
        states[last].step is Finished,
        0 <= message < messages.len(),
        names_table(messages[message], key, database, table),
    ensures
        exists|j: int|
            0 <= j <= last && {
                &&& (#[trigger] states[j]).step matches RouteStep::Write(write)
                &&& write.write.table_path.database@ == database
                &&& write.write.table_path.table@ == table
                &&& batch_rows(write.write.batch) == named(messages, key, database, table).len()
                &&& batch_outcome(
                    batch_fields(write.write.batch),
                    named(messages, key, database, table),
                ) == Ok::<Option<Seq<BatchColumn>>, Seq<char>>(
                    Some(batch_columns(write.write.batch)),
                )
            },
{
    let stat = Stat { appended: 0, errors: unroutable(messages, key).len() as u64 };
    let groups = choose|groups: Seq<TableGroup>|
        {
            &&& partitioned(messages, key, groups)
            &&& #[trigger] continues(Ok(states[0].step), states[0].catalog, groups, stat)
        };
    lemma_message_goes_where_named(messages[message], key);
    assert(has_group(groups, (database, table)));
    let home = choose|i: int|
        0 <= i < groups.len() && (#[trigger] groups[i]).table@ == (database, table);
    lemma_group_named(messages, key, groups, home);
    assert(groups.contains(groups[home]));
    lemma_route_awaits(key, messages, states, groups, groups[home], last);
    let j = choose|j: int| 0 <= j <= last && state_writes(#[trigger] states[j], groups[home]);
    assert(state_writes(states[j], groups[home]));
}

} // verus!
