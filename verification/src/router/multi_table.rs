//! Routing to many tables: each message names its table.

use std::sync::Arc;

use arrow::datatypes::Schema;
use fluss::metadata::TableInfo;
use vstd::prelude::*;

use super::{RouterError, RouterFailure, TableWrite};
use crate::arrow_data::{
    all_decodable, arrow_fields_of, batch_columns, batch_fields, batch_rows, buffer_rows,
    columns_of, common_type, decoded, decoder_refusal, flush_rows, new_decoder, num_rows,
    schema_fields, sound_types, ArrowBatch, ArrowField, ArrowType, BatchColumn, ReaderModes,
};
use crate::config::FlussSinkConfig;
use crate::decoding::{all_fields, lemma_mended_rows, mend_members, mended_rows};
use crate::json::{document, documents, get_text, text_member, Json};
use crate::message::{ConsumedMessage, Content, Payload};
use crate::schema_catalog::{
    infers, share, table_schema, CatalogFailure, SchemaCatalog, SchemaEntry, TableSchema,
};
use crate::table_path::{
    detect_invalid_name, invalid_name, name_char, path_text, reserved_name, reserved_reason,
    validate_prefix, TablePath,
};
use crate::text::push_char;
use crate::writer::{Op, Stat, WriterError};

verus! {

/// Whether a dot stands at `index` and nowhere else in `text`.
pub open spec fn only_dot(text: Seq<char>, index: int) -> bool {
    &&& 0 <= index < text.len()
    &&& text[index] == '.'
    &&& forall|i: int| 0 <= i < text.len() && i != index ==> #[trigger] text[i] != '.'
}

/// What stands before and behind the only dot of a text; `None` where the text has no dot, or
/// more than one.
pub open spec fn around_dot(text: Seq<char>) -> Option<(Seq<char>, Seq<char>)> {
    if exists|index: int| only_dot(text, index) {
        let index = choose|index: int| only_dot(text, index);
        Some((text.take(index), text.skip(index + 1)))
    } else {
        None
    }
}

/// What is said of a name that cannot stand in a table path.
pub open spec fn name_sentence(name: Seq<char>, reason: Seq<char>) -> Seq<char> {
    "Invalid name detected, for "@ + name + " : "@ + reason
}

/// Why a database and a table cannot make a path; `None` where they can.
pub open spec fn path_refusal(path: (Seq<char>, Seq<char>)) -> Option<Seq<char>> {
    if invalid_name(path.0) is Some {
        Some(name_sentence(path.0, invalid_name(path.0)->0))
    } else if invalid_name(path.1) is Some {
        Some(name_sentence(path.1, invalid_name(path.1)->0))
    } else if reserved_name(path.0) {
        Some(name_sentence(path.0, reserved_reason()))
    } else if reserved_name(path.1) {
        Some(name_sentence(path.1, reserved_reason()))
    } else {
        None
    }
}

/// The path that a text is, or why it is none.
pub open spec fn parsed_path(text: Seq<char>) -> Result<(Seq<char>, Seq<char>), Seq<char>> {
    match around_dot(text) {
        Some(path) => match path_refusal(path) {
            Some(reason) => Err(reason),
            None => Ok(path),
        },
        None => Err("Invalid table format, expected 'database.table', got "@ + text),
    }
}

/// The text before and behind a dot that stands nowhere else.
proof fn lemma_around_dot(text: Seq<char>, index: int)
    requires
        only_dot(text, index),
    ensures
        around_dot(text) == Some((text.take(index), text.skip(index + 1))),
{
    let chosen = choose|index: int| only_dot(text, index);
    assert(only_dot(text, chosen));
    assert(chosen == index) by {
        if chosen != index {
            assert(text[index] != '.');
        }
    }
}

/// An accepted text is the path as text, and both names in it are valid ones that are not
/// reserved.
pub proof fn lemma_accepted_path(text: Seq<char>)
    requires
        parsed_path(text) is Ok,
    ensures
        path_text(parsed_path(text)->Ok_0) == text,
        invalid_name(parsed_path(text)->Ok_0.0) is None,
        invalid_name(parsed_path(text)->Ok_0.1) is None,
        !reserved_name(parsed_path(text)->Ok_0.0),
        !reserved_name(parsed_path(text)->Ok_0.1),
{
    reveal_strlit(".");
    let index = choose|index: int| only_dot(text, index);
    assert(text =~= text.take(index) + "."@ + text.skip(index + 1));
}

/// A path whose names are valid and not reserved is read back from its text.
pub proof fn lemma_path_read_back(path: (Seq<char>, Seq<char>))
    requires
        invalid_name(path.0) is None,
        invalid_name(path.1) is None,
        !reserved_name(path.0),
        !reserved_name(path.1),
    ensures
        parsed_path(path_text(path)) == Ok::<(Seq<char>, Seq<char>), Seq<char>>(path),
{
    reveal_strlit(".");
    let text = path_text(path);
    let index = path.0.len() as int;
    assert forall|i: int| 0 <= i < text.len() && i != index implies #[trigger] text[i] != '.' by {
        if i < index {
            assert(name_char(path.0[i]));
        } else {
            assert(name_char(path.1[i - index - 1]));
        }
    }
    lemma_around_dot(text, index);
    assert(text.take(index) =~= path.0);
    assert(text.skip(index + 1) =~= path.1);
}

/// Splits a text at its only dot.
fn split_at_dot(text: &str) -> (parts: Option<(String, String)>)
    ensures
        match parts {
            Some((before, behind)) => around_dot(text@) == Some((before@, behind@)),
            None => around_dot(text@) is None,
        },
{
    let mut before = String::new();
    let mut behind = String::new();
    let mut found: bool = false;
    for c in chars: text.chars()
        invariant
            chars.seq() == text@,
            !found ==> before@ == text@.take(chars.index() as int) && behind@.len() == 0,
            found ==> {
                &&& before@.len() < chars.index()
                &&& text@[before@.len() as int] == '.'
                &&& before@ == text@.take(before@.len() as int)
                &&& behind@ == text@.subrange(before@.len() as int + 1, chars.index() as int)
            },
            forall|i: int|
                0 <= i < chars.index() && !(found && i == before@.len()) ==> #[trigger] text@[i]
                    != '.',
    {
        if c == '.' {
            if found {
                proof {
                    if exists|index: int| only_dot(text@, index) {
                        let index = choose|index: int| only_dot(text@, index);
                        assert(text@[chars.index() as int] == '.');
                        assert(text@[before@.len() as int] == '.');
                    }
                }
                return None;
            }
            found = true;
        } else if found {
            push_char(&mut behind, c);
        } else {
            push_char(&mut before, c);
        }
    }
    if found {
        proof {
            lemma_around_dot(text@, before@.len() as int);
            assert(behind@ =~= text@.skip(before@.len() as int + 1));
        }
        Some((before, behind))
    } else {
        None
    }
}

/// Says of a name why it cannot stand in a table path.
fn refuse_name(name: &str, reason: String) -> (error: RouterError)
    ensures
        error@ == RouterFailure::FailedToExtractTablePath(name_sentence(name@, reason@)),
{
    RouterError::FailedToExtractTablePath {
        reason: "Invalid name detected, for ".to_owned().concat(name).concat(" : ").concat(
            reason.as_str(),
        ),
    }
}

/// Reads a table path: a database and a table with a dot between them.
pub fn to_table_path(table: &str) -> (path: Result<TablePath, RouterError>)
    ensures
        match path {
            Ok(path) => parsed_path(table@) == Ok::<(Seq<char>, Seq<char>), Seq<char>>(path@),
            Err(error) => {
                &&& parsed_path(table@) is Err
                &&& error@ == RouterFailure::FailedToExtractTablePath(parsed_path(table@)->Err_0)
            },
        },
{
    let (database, table_name) = match split_at_dot(table) {
        Some(parts) => parts,
        None => {
            return Err(
                RouterError::FailedToExtractTablePath {
                    reason: "Invalid table format, expected 'database.table', got ".to_owned().concat(
                        table,
                    ),
                },
            );
        },
    };
    if let Some(reason) = detect_invalid_name(database.as_str()) {
        return Err(refuse_name(database.as_str(), reason));
    }
    if let Some(reason) = detect_invalid_name(table_name.as_str()) {
        return Err(refuse_name(table_name.as_str(), reason));
    }
    if let Some(reason) = validate_prefix(database.as_str()) {
        return Err(refuse_name(database.as_str(), reason));
    }
    if let Some(reason) = validate_prefix(table_name.as_str()) {
        return Err(refuse_name(table_name.as_str(), reason));
    }
    Ok(TablePath::new(database.as_str(), table_name.as_str()))
}

/// The text that a message holds under `key`, or why it holds none.
pub open spec fn extracted(message: ConsumedMessage, key: Seq<char>) -> Result<
    Seq<char>,
    RouterFailure,
> {
    match message.payload@ {
        Content::Json(document) => match text_member(document, key) {
            Some(text) => Ok(text),
            None => Err(
                RouterFailure::ExtractStringField(message.id, key, "Value not found"@),
            ),
        },
        _ => Err(
            RouterFailure::ExtractStringField(
                message.id,
                key,
                "Payload type is not supported, only Json type is supported."@,
            ),
        ),
    }
}

/// Takes the text that a message holds under the route key.
pub fn extract_string_field(message: &ConsumedMessage, route_key: &str) -> (text: Result<
    String,
    RouterError,
>)
    ensures
        match text {
            Ok(text) => extracted(*message, route_key@) == Ok::<Seq<char>, RouterFailure>(text@),
            Err(error) => extracted(*message, route_key@) == Err::<Seq<char>, RouterFailure>(
                error@,
            ),
        },
{
    match &message.payload {
        Payload::Json(value) => match get_text(value, route_key) {
            Some(text) => Ok(text),
            None => Err(
                RouterError::ExtractStringField {
                    id: message.id,
                    key: route_key.to_owned(),
                    reason: "Value not found".to_owned(),
                },
            ),
        },
        _ => Err(
            RouterError::ExtractStringField {
                id: message.id,
                key: route_key.to_owned(),
                reason: "Payload type is not supported, only Json type is supported.".to_owned(),
            },
        ),
    }
}

/// The table that a message names; `None` where it names none.
pub open spec fn route_target(message: ConsumedMessage, key: Seq<char>) -> Option<
    (Seq<char>, Seq<char>),
> {
    match extracted(message, key) {
        Ok(text) => match parsed_path(text) {
            Ok(path) => Some(path),
            Err(_) => None,
        },
        Err(_) => None,
    }
}

/// A message that names no table, and why it names none.
#[derive(Debug)]
pub struct SkippedMessage {
    pub id: u128,
    pub error: RouterError,
}

impl View for SkippedMessage {
    type V = (u128, RouterFailure);

    open spec fn view(&self) -> (u128, RouterFailure) {
        (self.id, self.error@)
    }
}

/// The id of a message that names no table, and why it names none; `None` where it names one.
pub open spec fn skip_failure(message: ConsumedMessage, key: Seq<char>) -> Option<
    (u128, RouterFailure),
> {
    match extracted(message, key) {
        Ok(text) => match parsed_path(text) {
            Ok(_) => None,
            Err(reason) => Some((message.id, RouterFailure::FailedToExtractTablePath(reason))),
        },
        Err(failure) => Some((message.id, failure)),
    }
}

/// Those of some messages that name no table, by their ids, and why they name none.
pub open spec fn skip_failures(messages: Seq<ConsumedMessage>, key: Seq<char>) -> Seq<
    (u128, RouterFailure),
> {
    messages.filter_map(|message: ConsumedMessage| skip_failure(message, key))
}

/// What some skipped messages say.
pub open spec fn skips(skipped: Seq<SkippedMessage>) -> Seq<(u128, RouterFailure)> {
    skipped.map_values(|message: SkippedMessage| message@)
}

/// The messages for one table, in the order in which they came.
pub struct TableGroup {
    pub table: TablePath,
    pub messages: Vec<ConsumedMessage>,
}

/// Those of some messages that name the table `path`.
pub open spec fn messages_for(
    messages: Seq<ConsumedMessage>,
    key: Seq<char>,
    path: (Seq<char>, Seq<char>),
) -> Seq<ConsumedMessage> {
    messages.filter(|message: ConsumedMessage| route_target(message, key) == Some(path))
}

/// Those of some messages that name no table.
pub open spec fn unroutable(messages: Seq<ConsumedMessage>, key: Seq<char>) -> Seq<
    ConsumedMessage,
> {
    messages.filter(|message: ConsumedMessage| route_target(message, key) is None)
}

/// Whether groups have different tables.
pub open spec fn distinct_tables(groups: Seq<TableGroup>) -> bool {
    forall|i: int, j: int|
        0 <= i < j < groups.len() ==> (#[trigger] groups[i]).table@ != (
        #[trigger] groups[j]).table@
}

/// Whether groups are messages parted by their tables: each table that a message names has one
/// group, which holds the messages that name it in their order. The groups themselves can stand
/// in any order.
pub open spec fn partitioned(
    messages: Seq<ConsumedMessage>,
    key: Seq<char>,
    groups: Seq<TableGroup>,
) -> bool {
    &&& distinct_tables(groups)
    &&& forall|i: int|
        0 <= i < groups.len() ==> {
            &&& (#[trigger] groups[i]).messages@ == messages_for(messages, key, groups[i].table@)
            &&& groups[i].messages@.len() > 0
        }
    &&& forall|i: int|
        0 <= i < messages.len() && route_target(#[trigger] messages[i], key) is Some
            ==> has_group(groups, route_target(messages[i], key)->0)
}

/// Whether one of some groups is that of the table `path`.
pub open spec fn has_group(groups: Seq<TableGroup>, path: (Seq<char>, Seq<char>)) -> bool {
    exists|i: int| 0 <= i < groups.len() && (#[trigger] groups[i]).table@ == path
}

/// The number of messages that groups hold.
pub open spec fn grouped(groups: Seq<TableGroup>) -> nat
    decreases groups.len(),
{
    if groups.len() == 0 {
        0
    } else {
        groups.first().messages@.len() + grouped(groups.drop_first())
    }
}

/// One more message joins those that name its table, and no others.
proof fn lemma_one_more(messages: Seq<ConsumedMessage>, key: Seq<char>, count: int)
    requires
        0 <= count < messages.len(),
    ensures
        forall|path: (Seq<char>, Seq<char>)|
            #![trigger messages_for(messages.take(count + 1), key, path)]
            messages_for(messages.take(count + 1), key, path) == if route_target(
                messages[count],
                key,
            ) == Some(path) {
                messages_for(messages.take(count), key, path).push(messages[count])
            } else {
                messages_for(messages.take(count), key, path)
            },
        unroutable(messages.take(count + 1), key) == if route_target(messages[count], key) is None {
            unroutable(messages.take(count), key).push(messages[count])
        } else {
            unroutable(messages.take(count), key)
        },
{
    reveal(Seq::filter);
    assert(messages.take(count + 1).drop_last() =~= messages.take(count));
    assert(messages.take(count + 1).last() == messages[count]);
}

/// A message that joins the group at `index` adds one to what groups hold.
proof fn lemma_grouped_update(groups: Seq<TableGroup>, index: int, group: TableGroup)
    requires
        0 <= index < groups.len(),
    ensures
        grouped(groups.update(index, group)) == grouped(groups) - groups[index].messages@.len()
            + group.messages@.len(),
    decreases groups.len(),
{
    let updated = groups.update(index, group);
    if index == 0 {
        assert(updated.drop_first() =~= groups.drop_first());
    } else {
        assert(updated.drop_first() =~= groups.drop_first().update(index - 1, group));
        lemma_grouped_update(groups.drop_first(), index - 1, group);
    }
}

/// A group at the end adds its messages to what groups hold.
proof fn lemma_grouped_push(groups: Seq<TableGroup>, group: TableGroup)
    ensures
        grouped(groups.push(group)) == grouped(groups) + group.messages@.len(),
    decreases groups.len(),
{
    let pushed = groups.push(group);
    if groups.len() > 0 {
        assert(pushed.drop_first() =~= groups.drop_first().push(group));
        lemma_grouped_push(groups.drop_first(), group);
    } else {
        assert(pushed.drop_first() =~= Seq::empty());
        reveal_with_fuel(grouped, 2);
    }
}

/// No message names a table that has no group.
proof fn lemma_no_group(
    messages: Seq<ConsumedMessage>,
    key: Seq<char>,
    groups: Seq<TableGroup>,
    path: (Seq<char>, Seq<char>),
)
    requires
        partitioned(messages, key, groups),
        !has_group(groups, path),
    ensures
        messages_for(messages, key, path) == Seq::<ConsumedMessage>::empty(),
{
    let names = |message: ConsumedMessage| route_target(message, key) == Some(path);
    let found = messages.filter(names);
    if found.len() > 0 {
        messages.lemma_filter_pred(names, 0);
        assert(found.contains(found[0]));
        messages.lemma_filter_contains_rev(names, found[0]);
        let i = choose|i: int| 0 <= i < messages.len() && messages[i] == found[0];
        assert(route_target(messages[i], key) == Some(path));
    }
    assert(found =~= Seq::empty());
}

/// Groups stay the messages parted by their tables when one more message joins: one that names no
/// table changes nothing.
proof fn lemma_skipped(
    messages: Seq<ConsumedMessage>,
    key: Seq<char>,
    count: int,
    groups: Seq<TableGroup>,
)
    requires
        0 <= count < messages.len(),
        partitioned(messages.take(count), key, groups),
        route_target(messages[count], key) is None,
    ensures
        partitioned(messages.take(count + 1), key, groups),
{
    lemma_one_more(messages, key, count);
    let more = messages.take(count + 1);
    assert forall|i: int|
        0 <= i < more.len() && route_target(#[trigger] more[i], key) is Some implies has_group(
        groups,
        route_target(more[i], key)->0,
    ) by {
        assert(messages.take(count)[i] == more[i]);
    }
}

/// Groups stay the messages parted by their tables when one more message joins the group of its
/// table.
proof fn lemma_joined(
    messages: Seq<ConsumedMessage>,
    key: Seq<char>,
    count: int,
    groups: Seq<TableGroup>,
    index: int,
    group: TableGroup,
)
    requires
        0 <= count < messages.len(),
        partitioned(messages.take(count), key, groups),
        0 <= index < groups.len(),
        route_target(messages[count], key) == Some(groups[index].table@),
        group.table@ == groups[index].table@,
        group.messages@ == groups[index].messages@.push(messages[count]),
    ensures
        partitioned(messages.take(count + 1), key, groups.update(index, group)),
{
    lemma_one_more(messages, key, count);
    let more = messages.take(count + 1);
    let updated = groups.update(index, group);
    assert forall|i: int|
        0 <= i < more.len() && route_target(#[trigger] more[i], key) is Some implies has_group(
        updated,
        route_target(more[i], key)->0,
    ) by {
        if i < count {
            assert(messages.take(count)[i] == more[i]);
            let path = route_target(more[i], key)->0;
            let j = choose|j: int| 0 <= j < groups.len() && (#[trigger] groups[j]).table@ == path;
            assert(updated[j].table@ == path);
        } else {
            assert(updated[index].table@ == group.table@);
        }
    }
}

/// Groups stay the messages parted by their tables when one more message begins the group of its
/// table.
proof fn lemma_begun(
    messages: Seq<ConsumedMessage>,
    key: Seq<char>,
    count: int,
    groups: Seq<TableGroup>,
    group: TableGroup,
)
    requires
        0 <= count < messages.len(),
        partitioned(messages.take(count), key, groups),
        route_target(messages[count], key) == Some(group.table@),
        !has_group(groups, group.table@),
        group.messages@ == seq![messages[count]],
    ensures
        partitioned(messages.take(count + 1), key, groups.push(group)),
{
    lemma_one_more(messages, key, count);
    lemma_no_group(messages.take(count), key, groups, group.table@);
    let more = messages.take(count + 1);
    let pushed = groups.push(group);
    assert(group.messages@ =~= Seq::<ConsumedMessage>::empty().push(messages[count]));
    assert forall|i: int|
        0 <= i < more.len() && route_target(#[trigger] more[i], key) is Some implies has_group(
        pushed,
        route_target(more[i], key)->0,
    ) by {
        if i < count {
            assert(messages.take(count)[i] == more[i]);
            let path = route_target(more[i], key)->0;
            let j = choose|j: int| 0 <= j < groups.len() && (#[trigger] groups[j]).table@ == path;
            assert(pushed[j].table@ == path);
        } else {
            assert(pushed[groups.len() as int].table@ == group.table@);
        }
    }
}

/// Where the group of a table stands.
fn group_position(groups: &Vec<TableGroup>, table: &TablePath) -> (position: Option<usize>)
    ensures
        match position {
            Some(index) => index < groups@.len() && groups@[index as int].table@ == table@,
            None => forall|i: int|
                0 <= i < groups@.len() ==> (#[trigger] groups@[i]).table@ != table@,
        },
{
    let mut index: usize = 0;
    while index < groups.len()
        invariant
            index <= groups@.len(),
            forall|i: int| 0 <= i < index ==> (#[trigger] groups@[i]).table@ != table@,
        decreases groups@.len() - index,
    {
        if groups[index].table.same(table) {
            return Some(index);
        }
        index = index + 1;
    }
    None
}

/// The table that a message names, or why it names none.
fn message_target(message: &ConsumedMessage, route_key: &str) -> (target: Result<
    TablePath,
    RouterError,
>)
    ensures
        match target {
            Ok(table) => {
                &&& route_target(*message, route_key@) == Some(table@)
                &&& skip_failure(*message, route_key@) is None
            },
            Err(error) => {
                &&& route_target(*message, route_key@) is None
                &&& skip_failure(*message, route_key@) == Some((message.id, error@))
            },
        },
{
    match extract_string_field(message, route_key) {
        Ok(text) => to_table_path(text.as_str()),
        Err(error) => Err(error),
    }
}

/// Messages parted by the tables that they name. Those that name none are skipped.
pub struct PartedMessages {
    pub groups: Vec<TableGroup>,
    pub skipped: Vec<SkippedMessage>,
    pub stat: Stat,
}

/// Parts messages by the tables that they name. A message that names none is skipped and counted
/// as an error.
pub fn partition_messages_by_route_key(messages: Vec<ConsumedMessage>, route_key: &str) -> (parted:
    PartedMessages)
    ensures
        partitioned(messages@, route_key@, parted.groups@),
        skips(parted.skipped@) == skip_failures(messages@, route_key@),
        parted.stat.appended == 0,
        parted.stat.errors == unroutable(messages@, route_key@).len(),
        parted.stat.errors == parted.skipped@.len(),
        grouped(parted.groups@) + parted.stat.errors == messages@.len(),
{
    let ghost all = messages@;
    let ghost key = route_key@;
    let ghost failure = |message: ConsumedMessage| skip_failure(message, key);
    let mut groups: Vec<TableGroup> = Vec::new();
    let mut skipped: Vec<SkippedMessage> = Vec::new();
    let mut stat = Stat::default();
    assert(messages@.take(0) =~= Seq::empty());
    proof {
        reveal(Seq::filter);
    }
    assert(skips(skipped@) =~= skip_failures(messages@.take(0), key));
    assert(all.len() == messages.len());
    for message in rest: messages
        invariant
            rest.seq() == all,
            all.len() <= usize::MAX,
            key == route_key@,
            failure == (|message: ConsumedMessage| skip_failure(message, key)),
            partitioned(all.take(rest.index() as int), key, groups@),
            skips(skipped@) == skip_failures(all.take(rest.index() as int), key),
            stat.appended == 0,
            stat.errors == unroutable(all.take(rest.index() as int), key).len(),
            stat.errors == skipped@.len(),
            grouped(groups@) + stat.errors == rest.index(),
    {
        let ghost k = rest.index() as int;
        let ghost before = groups@;
        let ghost skipped_before = skipped@;
        assert(message == all[k]);
        proof {
            lemma_one_more(all, key, k);
            all.lemma_filter_map_take_succ(failure, k);
        }
        match message_target(&message, route_key) {
            Err(error) => {
                stat.inc_err();
                skipped.push(SkippedMessage { id: message.id, error });
                proof {
                    assert(skips(skipped@) =~= skips(skipped_before).push(skipped@.last()@));
                    lemma_skipped(all, key, k, before);
                }
            },
            Ok(table) => match group_position(&groups, &table) {
                Some(index) => {
                    groups[index].messages.push(message);
                    proof {
                        lemma_grouped_update(before, index as int, groups@[index as int]);
                        lemma_joined(all, key, k, before, index as int, groups@[index as int]);
                        assert(groups@ =~= before.update(index as int, groups@[index as int]));
                    }
                },
                None => {
                    let mut first: Vec<ConsumedMessage> = Vec::new();
                    first.push(message);
                    groups.push(TableGroup { table, messages: first });
                    proof {
                        lemma_grouped_push(before, groups@.last());
                        lemma_begun(all, key, k, before, groups@.last());
                    }
                },
            },
        }
    }
    assert(all.take(all.len() as int) =~= all);
    PartedMessages { groups, skipped, stat }
}

/// The JSON document that a message carries.
pub open spec fn json_document(message: ConsumedMessage) -> Option<Json> {
    match message.payload@ {
        Content::Json(document) => Some(document),
        _ => None,
    }
}

/// The JSON documents that messages carry, in their order.
pub open spec fn json_documents(messages: Seq<ConsumedMessage>) -> Seq<Json> {
    messages.filter_map(|message: ConsumedMessage| json_document(message))
}

/// How rows are read: members that a table lacks are passed over, and a value that does not fit its
/// column is an error.
pub open spec fn reader_modes() -> ReaderModes {
    ReaderModes { strict: false, ignore_type_conflicts: false }
}

/// The columns of the batch that messages make under some fields: nothing where no message
/// carries a JSON document, or the text of the error.
pub open spec fn batch_outcome(
    fields: Seq<ArrowField>,
    messages: Seq<ConsumedMessage>,
) -> Result<Option<Seq<BatchColumn>>, Seq<char>> {
    match decoder_refusal(fields) {
        Some(error) => Err(error),
        None => decoded(fields, reader_modes(), mended_rows(fields, json_documents(messages))),
    }
}

/// Makes a batch of the JSON documents that messages carry, with one row for each. Values on which
/// the decoder would panic are replaced by a text that it refuses, so that they are errors.
pub fn to_record_batch(messages: Vec<ConsumedMessage>, schema: Arc<Schema>) -> (batch: Result<
    Option<ArrowBatch>,
    RouterError,
>)
    requires
        sound_types(schema_fields(*schema)),
    ensures
        json_documents(messages@).len() == 0 && decoder_refusal(schema_fields(*schema)) is None
            ==> batch matches Ok(None),
        common_type(ArrowType::Struct(schema_fields(*schema))) ==> decoder_refusal(
            schema_fields(*schema),
        ) is None,
        if all_decodable(schema_fields(*schema), json_documents(messages@)) {
            mended_rows(schema_fields(*schema), json_documents(messages@)) == json_documents(
                messages@,
            )
        } else {
            batch is Err
        },
        match batch {
            Ok(Some(batch)) => {
                &&& batch_outcome(schema_fields(*schema), messages@) == Ok::<
                    Option<Seq<BatchColumn>>,
                    Seq<char>,
                >(Some(batch_columns(batch)))
                &&& batch_fields(batch) == schema_fields(*schema)
                &&& columns_of(
                    schema_fields(*schema),
                    batch_columns(batch),
                    json_documents(messages@).len(),
                )
                &&& batch_rows(batch) == json_documents(messages@).len()
                &&& json_documents(messages@).len() > 0
            },
            Ok(None) => {
                &&& batch_outcome(schema_fields(*schema), messages@) == Ok::<
                    Option<Seq<BatchColumn>>,
                    Seq<char>,
                >(None)
                &&& json_documents(messages@).len() == 0
            },
            Err(error) => {
                &&& batch_outcome(schema_fields(*schema), messages@) is Err
                &&& error@ == RouterFailure::FailedToCreateRecordBatch(
                    batch_outcome(schema_fields(*schema), messages@)->Err_0,
                )
            },
        },
{
    let ghost all = messages@;
    let fields = all_fields(&schema);
    let ghost inner = arrow_fields_of(fields@);
    let ghost to_document = |message: ConsumedMessage| json_document(message);
    proof {
        lemma_mended_rows(inner, json_documents(all));
    }
    let modes = ReaderModes { strict: false, ignore_type_conflicts: false };
    let mut decoder = match new_decoder(share(&schema), modes) {
        Ok(decoder) => decoder,
        Err(reason) => {
            return Err(RouterError::FailedToCreateRecordBatch { reason });
        },
    };
    let mut rows: Vec<simd_json::OwnedValue> = Vec::new();
    assert(documents(rows@) =~= mended_rows(inner, json_documents(all.take(0))));
    for message in rest: messages
        invariant
            rest.seq() == all,
            inner == arrow_fields_of(fields@),
            to_document == (|message: ConsumedMessage| json_document(message)),
            documents(rows@) == mended_rows(
                inner,
                json_documents(all.take(rest.index() as int)),
            ),
    {
        let ghost k = rest.index() as int;
        let ghost before = rows@;
        assert(message == all[k]);
        proof {
            all.lemma_filter_map_take_succ(to_document, k);
        }
        match message.payload {
            Payload::Json(value) => {
                let mut value = value;
                let ghost tree = document(value);
                mend_members(&fields, &mut value);
                rows.push(value);
                assert(documents(rows@) =~= documents(before).push(document(value)));
                assert(json_documents(all.take(k + 1)) =~= json_documents(all.take(k)).push(tree));
                assert(mended_rows(inner, json_documents(all.take(k + 1))) =~= mended_rows(
                    inner,
                    json_documents(all.take(k)),
                ).push(document(value)));
            },
            _ => {},
        }
    }
    proof {
        assert(all.take(all.len() as int) =~= all);
        assert(Seq::<Json>::empty() + documents(rows@) =~= documents(rows@));
    }
    match buffer_rows(&mut decoder, &rows) {
        Ok(()) => {},
        Err(reason) => {
            return Err(RouterError::FailedToCreateRecordBatch { reason });
        },
    }
    match flush_rows(&mut decoder) {
        Ok(batch) => Ok(batch),
        Err(reason) => Err(RouterError::FailedToCreateRecordBatch { reason }),
    }
}

/// Whether all messages of a group carry JSON documents, and there is one.
pub open spec fn routable(group: TableGroup) -> bool {
    &&& group.messages@.len() > 0
    &&& forall|i: int|
        0 <= i < group.messages@.len() ==> json_document(#[trigger] group.messages@[i]) is Some
}

/// Messages that all carry JSON documents carry as many of them.
proof fn lemma_all_json(messages: Seq<ConsumedMessage>)
    requires
        forall|i: int|
            0 <= i < messages.len() ==> json_document(#[trigger] messages[i]) is Some,
    ensures
        json_documents(messages).len() == messages.len(),
    decreases messages.len(),
{
    if messages.len() > 0 {
        assert(json_document(messages[messages.len() - 1]) is Some);
        assert forall|i: int| 0 <= i < messages.drop_last().len() implies json_document(
            #[trigger] messages.drop_last()[i],
        ) is Some by {
            assert(json_document(messages[i]) is Some);
        }
        lemma_all_json(messages.drop_last());
    }
}

/// The groups of parted messages are routable: only a JSON document names a table.
proof fn lemma_parted_routable(
    messages: Seq<ConsumedMessage>,
    key: Seq<char>,
    groups: Seq<TableGroup>,
)
    requires
        partitioned(messages, key, groups),
    ensures
        forall|i: int| 0 <= i < groups.len() ==> routable(#[trigger] groups[i]),
{
    assert forall|i: int| 0 <= i < groups.len() implies routable(#[trigger] groups[i]) by {
        let path = groups[i].table@;
        let names = |message: ConsumedMessage| route_target(message, key) == Some(path);
        assert forall|j: int| 0 <= j < groups[i].messages@.len() implies json_document(
            #[trigger] groups[i].messages@[j],
        ) is Some by {
            messages.lemma_filter_pred(names, j);
        }
    }
}

/// What of a route is still to be done, and what was counted so far.
pub struct Waiting {
    pub groups: Vec<TableGroup>,
    pub stat: Stat,
}

impl Waiting {
    /// The number of messages that were counted or still wait.
    pub open spec fn accounted(self) -> int {
        self.stat.total() + grouped(self.groups@)
    }

    /// Whether the groups are routable, and the counts cannot overflow.
    pub open spec fn well_formed(self) -> bool {
        &&& forall|i: int| 0 <= i < self.groups@.len() ==> routable(#[trigger] self.groups@[i])
        &&& self.accounted() <= u64::MAX
    }
}

/// A table that is to be looked up in the cluster, for the messages of a group.
pub struct TableLookup {
    pub group: TableGroup,
    pub waiting: Waiting,
}

impl TableLookup {
    /// How many steps a route can still take at most: the table is looked up, created and written.
    pub open spec fn steps_left(self) -> nat {
        3 + 3 * self.waiting.groups@.len()
    }

    /// The number of messages that were counted or still wait.
    pub open spec fn accounted(self) -> int {
        self.group.messages@.len() + self.waiting.accounted()
    }

    /// Whether all groups are routable, and the counts cannot overflow.
    pub open spec fn well_formed(self) -> bool {
        &&& routable(self.group)
        &&& self.waiting.well_formed()
        &&& self.accounted() <= u64::MAX
    }
}

/// A table that is to be created, for the messages of a group.
pub struct TableCreation {
    pub group: TableGroup,
    pub entry: Arc<SchemaEntry>,
    pub waiting: Waiting,
}

impl TableCreation {
    /// How many steps a route can still take at most: the table is created and written.
    pub open spec fn steps_left(self) -> nat {
        2 + 3 * self.waiting.groups@.len()
    }

    /// The number of messages that were counted or still wait.
    pub open spec fn accounted(self) -> int {
        self.group.messages@.len() + self.waiting.accounted()
    }

    /// Whether all groups are routable, and the counts cannot overflow.
    pub open spec fn well_formed(self) -> bool {
        &&& routable(self.group)
        &&& self.waiting.well_formed()
        &&& self.accounted() <= u64::MAX
    }
}

/// A batch that is to be written. Its rows are counted already.
pub struct GroupWrite {
    pub write: TableWrite,
    pub waiting: Waiting,
}

impl GroupWrite {
    /// How many steps a route can still take at most: the batch is written.
    pub open spec fn steps_left(self) -> nat {
        1 + 3 * self.waiting.groups@.len()
    }
}

/// What a route needs next.
pub enum RouteStep {
    /// Look up the table, and go on with [`MultiTableRouter::on_table`].
    LookUpTable(TableLookup),
    /// Create the table unless it exists, and go on with [`MultiTableRouter::on_created`].
    CreateTable(TableCreation),
    /// Write the batch, and go on with [`MultiTableRouter::on_written`].
    Write(GroupWrite),
    /// Nothing: all messages are counted.
    Finished(Stat),
}

impl RouteStep {
    /// The number of messages that were counted or still wait.
    pub open spec fn accounted(self) -> int {
        match self {
            RouteStep::LookUpTable(lookup) => lookup.accounted(),
            RouteStep::CreateTable(creation) => creation.accounted(),
            RouteStep::Write(write) => write.waiting.accounted(),
            RouteStep::Finished(stat) => stat.total(),
        }
    }

    /// How many steps a route can still take at most.
    pub open spec fn steps_left(self) -> nat {
        match self {
            RouteStep::LookUpTable(lookup) => lookup.steps_left(),
            RouteStep::CreateTable(creation) => creation.steps_left(),
            RouteStep::Write(write) => write.steps_left(),
            RouteStep::Finished(stat) => 0,
        }
    }

    /// Whether all groups are routable, and the counts cannot overflow.
    pub open spec fn well_formed(self) -> bool {
        match self {
            RouteStep::LookUpTable(lookup) => lookup.well_formed(),
            RouteStep::CreateTable(creation) => creation.well_formed(),
            RouteStep::Write(write) => write.waiting.well_formed(),
            RouteStep::Finished(stat) => true,
        }
    }
}

/// Whether fewer than `count` steps are left. Each step leaves fewer, so a route ends.
pub open spec fn nears_end(step: Result<RouteStep, RouterError>, count: nat) -> bool {
    step matches Ok(step) ==> step.steps_left() < count
}

/// Whether a step is well-formed and accounts for `count` messages.
pub open spec fn accounts(step: Result<RouteStep, RouterError>, count: int) -> bool {
    step matches Ok(step) ==> step.well_formed() && step.accounted() == count
}

/// Whether the step is to write a group to its table, whose Arrow schema has the given fields. All
/// messages of the group are counted as appended, and the groups in `groups` wait.
pub open spec fn writes(
    step: Result<RouteStep, RouterError>,
    group: TableGroup,
    fields: Seq<ArrowField>,
    groups: Seq<TableGroup>,
    stat: Stat,
) -> bool {
    match batch_outcome(fields, group.messages@) {
        Ok(Some(columns)) => {
            &&& step matches Ok(RouteStep::Write(next))
            &&& next.write.table_path@ == group.table@
            &&& next.write.op == Op::Append
            &&& batch_fields(next.write.batch) == fields
            &&& batch_columns(next.write.batch) == columns
            &&& batch_rows(next.write.batch) == group.messages@.len()
            &&& next.waiting.groups@ == groups
            &&& next.waiting.stat.appended == stat.appended + group.messages@.len()
            &&& next.waiting.stat.errors == stat.errors
        },
        Ok(None) => false,
        Err(reason) => {
            &&& step matches Err(error)
            &&& error@ == RouterFailure::FailedToCreateRecordBatch(reason)
        },
    }
}

/// Whether the step is the one for groups that wait: nothing where there is none, to write the
/// first of them where its table is known, and else to look that table up.
pub open spec fn continues(
    step: Result<RouteStep, RouterError>,
    catalog: Map<(Seq<char>, Seq<char>), SchemaEntry>,
    groups: Seq<TableGroup>,
    stat: Stat,
) -> bool {
    if groups.len() == 0 {
        step == Ok::<RouteStep, RouterError>(RouteStep::Finished(stat))
    } else if catalog.contains_key(groups[0].table@) {
        let fields = catalog[groups[0].table@].content().fields;
        writes(step, groups[0], fields, groups.drop_first(), stat)
    } else {
        &&& step matches Ok(RouteStep::LookUpTable(lookup))
        &&& lookup.group == groups[0]
        &&& lookup.waiting.groups@ == groups.drop_first()
        &&& lookup.waiting.stat == stat
    }
}

/// Whether a catalog came from another one by learning what `schema` says of the table `path`.
pub open spec fn learned(
    before: Map<(Seq<char>, Seq<char>), SchemaEntry>,
    path: (Seq<char>, Seq<char>),
    schema: TableSchema,
    after: Map<(Seq<char>, Seq<char>), SchemaEntry>,
) -> bool {
    &&& after.contains_key(path)
    &&& after[path].content() == schema
    &&& after == before.insert(path, after[path])
}

/// Whether a step begins the route of messages: they are parted by their tables, and those that
/// name none are counted as errors.
pub open spec fn begins(
    step: Result<RouteStep, RouterError>,
    catalog: Map<(Seq<char>, Seq<char>), SchemaEntry>,
    messages: Seq<ConsumedMessage>,
    key: Seq<char>,
) -> bool {
    exists|groups: Seq<TableGroup>|
        {
            &&& partitioned(messages, key, groups)
            &&& #[trigger] continues(
                step,
                catalog,
                groups,
                Stat { appended: 0, errors: unroutable(messages, key).len() as u64 },
            )
        }
}

/// Whether a step and a catalog are those after a table was looked up. A table that exists becomes
/// known and is written to. One that does not exist is created with the schema that its messages
/// need, if tables are to be created; else its messages are counted as errors.
pub open spec fn after_lookup(
    lookup: TableLookup,
    found: Result<TableInfo, WriterError>,
    creates: bool,
    before: Map<(Seq<char>, Seq<char>), SchemaEntry>,
    after: Map<(Seq<char>, Seq<char>), SchemaEntry>,
    step: Result<RouteStep, RouterError>,
) -> bool {
    let group = lookup.group;
    let waiting = lookup.waiting;
    match found {
        Ok(info) => match table_schema(group.table@, info) {
            Ok(schema) => {
                &&& learned(before, group.table@, schema, after)
                &&& writes(step, group, schema.fields, waiting.groups@, waiting.stat)
            },
            Err(failure) => {
                &&& after == before
                &&& step matches Err(error)
                &&& error@ == RouterFailure::SchemaCatalog(failure)
            },
        },
        Err(WriterError::TableNotFound { .. }) => if creates {
            match step {
                Ok(RouteStep::CreateTable(creation)) => {
                    &&& creation.group == group
                    &&& creation.waiting == waiting
                    &&& infers(
                        group.messages@,
                        group.table@,
                        Ok::<TableSchema, CatalogFailure>(creation.entry.content()),
                    )
                    &&& after == before.insert(group.table@, *creation.entry)
                },
                Err(RouterError::SchemaCatalog(error)) => {
                    &&& infers(
                        group.messages@,
                        group.table@,
                        Err::<TableSchema, CatalogFailure>(error@),
                    )
                    &&& after == before
                },
                _ => false,
            }
        } else {
            &&& after == before
            &&& continues(
                step,
                before,
                waiting.groups@,
                Stat {
                    appended: waiting.stat.appended,
                    errors: (waiting.stat.errors + group.messages@.len()) as u64,
                },
            )
        },
        Err(failure) => {
            &&& after == before
            &&& step matches Err(error)
            &&& error@ == RouterFailure::SchemaCatalog(CatalogFailure::Writer(failure@))
        },
    }
}

/// Whether a step is the one after a table was created: its messages are written to it.
pub open spec fn after_creation(
    creation: TableCreation,
    outcome: Result<(), WriterError>,
    step: Result<RouteStep, RouterError>,
) -> bool {
    match outcome {
        Ok(()) => writes(
            step,
            creation.group,
            creation.entry.content().fields,
            creation.waiting.groups@,
            creation.waiting.stat,
        ),
        Err(failure) => {
            &&& step matches Err(error)
            &&& error@ == RouterFailure::WriterError(failure@)
        },
    }
}

/// Whether a step is the one after a batch was written: that for the groups that wait.
pub open spec fn after_write(
    written: GroupWrite,
    outcome: Result<(), WriterError>,
    catalog: Map<(Seq<char>, Seq<char>), SchemaEntry>,
    step: Result<RouteStep, RouterError>,
) -> bool {
    match outcome {
        Ok(()) => continues(step, catalog, written.waiting.groups@, written.waiting.stat),
        Err(failure) => {
            &&& step matches Err(error)
            &&& error@ == RouterFailure::WriterError(failure@)
        },
    }
}

/// The beginning of a route: the messages that name no table, and what comes first for the others.
pub struct RouteStart {
    pub skipped: Vec<SkippedMessage>,
    pub step: Result<RouteStep, RouterError>,
}

/// A router that sends each message to the table that it names. It decides what is to be done;
/// the calls to the cluster are made by whoever runs it.
#[derive(Debug)]
pub struct MultiTableRouter {
    schema_catalog: SchemaCatalog,
    auto_create_tables: bool,
    route_key: String,
}

impl MultiTableRouter {
    /// The tables whose schemas are known.
    pub closed spec fn catalog(self) -> Map<(Seq<char>, Seq<char>), SchemaEntry> {
        self.schema_catalog@
    }

    /// Whether tables that do not exist are created.
    pub closed spec fn creates_tables(self) -> bool {
        self.auto_create_tables
    }

    /// The member of a document that names the table of its message.
    pub closed spec fn key(self) -> Seq<char> {
        self.route_key@
    }

    /// Whether the router is the one under a configuration; it knows no table yet.
    pub open spec fn made_for(self, config: FlussSinkConfig) -> bool {
        &&& self.catalog() == Map::<(Seq<char>, Seq<char>), SchemaEntry>::empty()
        &&& self.creates_tables() == config.auto_create_table
        &&& self.key() == config.route_key@
    }

    /// The router under a configuration.
    pub fn new(config: &FlussSinkConfig) -> (router: Self)
        ensures
            router.made_for(*config),
    {
        MultiTableRouter {
            schema_catalog: SchemaCatalog::default(),
            auto_create_tables: config.auto_create_table,
            route_key: config.route_key.clone(),
        }
    }

    /// Whether tables that do not exist are created.
    pub fn auto_create_tables(&self) -> (create: bool)
        ensures
            create == self.creates_tables(),
    {
        self.auto_create_tables
    }

    /// Begins the route of messages: parts them by their tables, and counts those that name none
    /// as errors.
    pub fn route(&self, messages: Vec<ConsumedMessage>) -> (start: RouteStart)
        ensures
            begins(start.step, self.catalog(), messages@, self.key()),
            skips(start.skipped@) == skip_failures(messages@, self.key()),
            unroutable(messages@, self.key()).len() <= u64::MAX,
            accounts(start.step, messages@.len() as int),
    {
        let ghost all = messages@;
        assert(all.len() == messages.len());
        let parted = partition_messages_by_route_key(messages, self.route_key.as_str());
        proof {
            lemma_parted_routable(all, self.route_key@, parted.groups@);
        }
        let step = self.advance(Waiting { groups: parted.groups, stat: parted.stat });
        RouteStart { skipped: parted.skipped, step }
    }

    /// Goes on with the groups that wait.
    fn advance(&self, waiting: Waiting) -> (step: Result<RouteStep, RouterError>)
        requires
            waiting.well_formed(),
        ensures
            continues(step, self.catalog(), waiting.groups@, waiting.stat),
            accounts(step, waiting.accounted()),
        decreases waiting.groups@.len(), 0int,
    {
        let mut groups = waiting.groups;
        let stat = waiting.stat;
        if groups.len() == 0 {
            return Ok(RouteStep::Finished(stat));
        }
        let ghost all = groups@;
        let group = groups.remove(0);
        assert(groups@ =~= all.drop_first());
        assert(group == all[0]);
        assert forall|i: int| 0 <= i < groups@.len() implies routable(#[trigger] groups@[i]) by {
            assert(routable(all[i + 1]));
        }
        match self.schema_catalog.get_schema_entry(&group.table) {
            Some(entry) => self.write_group(group, &entry, Waiting { groups, stat }),
            None => Ok(
                RouteStep::LookUpTable(TableLookup { group, waiting: Waiting { groups, stat } }),
            ),
        }
    }

    /// Writes a group to its table, of which `entry` is known.
    fn write_group(&self, group: TableGroup, entry: &Arc<SchemaEntry>, waiting: Waiting) -> (step:
        Result<RouteStep, RouterError>)
        requires
            routable(group),
            waiting.well_formed(),
            group.messages@.len() + waiting.accounted() <= u64::MAX,
        ensures
            writes(step, group, entry.content().fields, waiting.groups@, waiting.stat),
            accounts(step, group.messages@.len() + waiting.accounted()),
        decreases waiting.groups@.len(), 1int,
    {
        proof {
            lemma_all_json(group.messages@);
        }
        match to_record_batch(group.messages, share(entry.schema())) {
            Ok(Some(batch)) => {
                let rows: u64 = num_rows(&batch) as u64;
                let stat = Stat {
                    appended: waiting.stat.appended + rows,
                    errors: waiting.stat.errors,
                };
                let write = TableWrite { table_path: group.table, op: Op::Append, batch };
                Ok(
                    RouteStep::Write(
                        GroupWrite { write, waiting: Waiting { groups: waiting.groups, stat } },
                    ),
                )
            },
            Ok(None) => self.advance(waiting),
            Err(error) => Err(error),
        }
    }

    /// Goes on when a table was looked up. A table that exists becomes known and is written to.
    /// One that does not exist is created with the schema that its messages need, if tables are
    /// to be created; else its messages are counted as errors.
    pub fn on_table(&mut self, lookup: TableLookup, found: Result<TableInfo, WriterError>) -> (step:
        Result<RouteStep, RouterError>)
        requires
            lookup.well_formed(),
        ensures
            final(self).creates_tables() == old(self).creates_tables(),
            final(self).key() == old(self).key(),
            accounts(step, lookup.accounted()),
            nears_end(step, lookup.steps_left()),
            after_lookup(
                lookup,
                found,
                old(self).creates_tables(),
                old(self).catalog(),
                final(self).catalog(),
                step,
            ),
    {
        let group = lookup.group;
        let mut waiting = lookup.waiting;
        match self.schema_catalog.create_and_store_entry_from_table(&group.table, found) {
            Err(error) => Err(RouterError::SchemaCatalog(error)),
            Ok(Some(entry)) => self.write_group(group, &entry, waiting),
            Ok(None) => {
                if self.auto_create_tables {
                    match self.schema_catalog.create_and_store_schema_from_infer(
                        &group.table,
                        &group.messages,
                    ) {
                        Ok(entry) => Ok(
                            RouteStep::CreateTable(TableCreation { group, entry, waiting }),
                        ),
                        Err(error) => Err(RouterError::SchemaCatalog(error)),
                    }
                } else {
                    waiting.stat.inc_err_by(group.messages.len() as u64);
                    self.advance(waiting)
                }
            },
        }
    }

    /// Goes on when a table was created: its messages are written to it.
    pub fn on_created(&self, creation: TableCreation, outcome: Result<(), WriterError>) -> (step:
        Result<RouteStep, RouterError>)
        requires
            creation.well_formed(),
        ensures
            accounts(step, creation.accounted()),
            nears_end(step, creation.steps_left()),
            after_creation(creation, outcome, step),
    {
        match outcome {
            Ok(()) => self.write_group(creation.group, &creation.entry, creation.waiting),
            Err(error) => Err(RouterError::WriterError(error)),
        }
    }

    /// Goes on when a batch was written.
    pub fn on_written(&self, written: GroupWrite, outcome: Result<(), WriterError>) -> (step: Result<
        RouteStep,
        RouterError,
    >)
        requires
            written.waiting.well_formed(),
        ensures
            accounts(step, written.waiting.accounted()),
            nears_end(step, written.steps_left()),
            after_write(written, outcome, self.catalog(), step),
    {
        match outcome {
            Ok(()) => self.advance(written.waiting),
            Err(error) => Err(RouterError::WriterError(error)),
        }
    }
}

/// A message that names a table stands in the group of that table, and in no other group.
pub proof fn lemma_one_group(
    messages: Seq<ConsumedMessage>,
    key: Seq<char>,
    groups: Seq<TableGroup>,
    index: int,
)
    requires
        partitioned(messages, key, groups),
        0 <= index < messages.len(),
        route_target(messages[index], key) is Some,
    ensures
        exists|i: int|
            0 <= i < groups.len() && (#[trigger] groups[i]).table@ == route_target(
                messages[index],
                key,
            )->0 && groups[i].messages@.contains(messages[index]),
        forall|i: int|
            0 <= i < groups.len() && (#[trigger] groups[i]).messages@.contains(messages[index])
                ==> groups[i].table@ == route_target(messages[index], key)->0,
{
    let path = route_target(messages[index], key)->0;
    assert(has_group(groups, path));
    let home = choose|i: int| 0 <= i < groups.len() && (#[trigger] groups[i]).table@ == path;
    messages.lemma_filter_contains(
        |message: ConsumedMessage| route_target(message, key) == Some(path),
        index,
    );
    assert(groups[home].messages@.contains(messages[index]));
    assert forall|i: int|
        0 <= i < groups.len() && (#[trigger] groups[i]).messages@.contains(
            messages[index],
        ) implies groups[i].table@ == path by {
        let table = groups[i].table@;
        let names = |message: ConsumedMessage| route_target(message, key) == Some(table);
        let j = choose|j: int|
            0 <= j < groups[i].messages@.len() && groups[i].messages@[j] == messages[index];
        messages.lemma_filter_pred(names, j);
    }
}

/// A message that names no table stands in no group.
pub proof fn lemma_no_group_without_table(
    messages: Seq<ConsumedMessage>,
    key: Seq<char>,
    groups: Seq<TableGroup>,
    index: int,
    group: int,
)
    requires
        partitioned(messages, key, groups),
        0 <= index < messages.len(),
        route_target(messages[index], key) is None,
        0 <= group < groups.len(),
    ensures
        !groups[group].messages@.contains(messages[index]),
{
    let table = groups[group].table@;
    let names = |message: ConsumedMessage| route_target(message, key) == Some(table);
    if groups[group].messages@.contains(messages[index]) {
        let j = choose|j: int|
            0 <= j < groups[group].messages@.len() && groups[group].messages@[j]
                == messages[index];
        messages.lemma_filter_pred(names, j);
    }
}

/// A route at one of its steps: the tables whose schemas are known, and what is needed next.
pub struct RouteState {
    pub catalog: Map<(Seq<char>, Seq<char>), SchemaEntry>,
    pub step: RouteStep,
}

/// Whether a route can come from one state to another, whatever the cluster answers in between.
pub open spec fn route_advances(creates: bool, before: RouteState, after: RouteState) -> bool {
    &&& accounts(Ok(after.step), before.step.accounted())
    &&& nears_end(Ok(after.step), before.step.steps_left())
    &&& match before.step {
        RouteStep::LookUpTable(lookup) => exists|found: Result<TableInfo, WriterError>|
            #[trigger] after_lookup(
                lookup,
                found,
                creates,
                before.catalog,
                after.catalog,
                Ok(after.step),
            ),
        RouteStep::CreateTable(creation) => {
            &&& after.catalog == before.catalog
            &&& exists|outcome: Result<(), WriterError>| #[trigger]
                after_creation(creation, outcome, Ok(after.step))
        },
        RouteStep::Write(written) => {
            &&& after.catalog == before.catalog
            &&& exists|outcome: Result<(), WriterError>| #[trigger]
                after_write(written, outcome, before.catalog, Ok(after.step))
        },
        RouteStep::Finished(_) => false,
    }
}

/// Whether states are those of a route of messages, from its beginning on.
pub open spec fn is_route(
    creates: bool,
    key: Seq<char>,
    messages: Seq<ConsumedMessage>,
    states: Seq<RouteState>,
) -> bool {
    &&& states.len() > 0
    &&& begins(Ok(states[0].step), states[0].catalog, messages, key)
    &&& accounts(Ok(states[0].step), messages.len() as int)
    &&& forall|i: int, j: int|
        0 <= i && i + 1 == j && j < states.len() ==> route_advances(
            creates,
            #[trigger] states[i],
            #[trigger] states[j],
        )
}

/// Whether all that a catalog knows is known in another one too, with the same entries.
pub open spec fn keeps(
    catalog: Map<(Seq<char>, Seq<char>), SchemaEntry>,
    other: Map<(Seq<char>, Seq<char>), SchemaEntry>,
) -> bool {
    forall|path: (Seq<char>, Seq<char>)| #[trigger]
        catalog.contains_key(path) ==> other.contains_key(path) && other[path] == catalog[path]
}

/// Whether a batch was made of messages under the fields of a table.
pub open spec fn made_under(batch: ArrowBatch, fields: Seq<ArrowField>) -> bool {
    &&& batch_fields(batch) == fields
    &&& exists|messages: Seq<ConsumedMessage>| #[trigger]
        batch_outcome(fields, messages) == Ok::<Option<Seq<BatchColumn>>, Seq<char>>(
            Some(batch_columns(batch)),
        )
}

/// Whether a state looks a table up, or creates it.
pub open spec fn seeks(state: RouteState, path: (Seq<char>, Seq<char>)) -> bool {
    match state.step {
        RouteStep::LookUpTable(lookup) => lookup.group.table@ == path,
        RouteStep::CreateTable(creation) => creation.group.table@ == path,
        _ => false,
    }
}

/// Whether a state writes to a table.
pub open spec fn writes_to(state: RouteState, path: (Seq<char>, Seq<char>)) -> bool {
    state.step matches RouteStep::Write(next) && next.write.table_path@ == path
}

/// Whether a state is one of a route that began with the catalog `initial`. A table that is looked
/// up or created was not known then; one that is created or written to is known by now.
pub open spec fn settled(
    initial: Map<(Seq<char>, Seq<char>), SchemaEntry>,
    state: RouteState,
) -> bool {
    &&& keeps(initial, state.catalog)
    &&& match state.step {
        RouteStep::LookUpTable(lookup) => !state.catalog.contains_key(lookup.group.table@),
        RouteStep::CreateTable(creation) => {
            &&& !initial.contains_key(creation.group.table@)
            &&& state.catalog.contains_key(creation.group.table@)
            &&& state.catalog[creation.group.table@] == *creation.entry
        },
        RouteStep::Write(next) => {
            &&& state.catalog.contains_key(next.write.table_path@)
            &&& made_under(
                next.write.batch,
                state.catalog[next.write.table_path@].content().fields,
            )
        },
        RouteStep::Finished(_) => true,
    }
}

/// A group that is written to a known table makes a settled state.
proof fn lemma_writes_settled(
    initial: Map<(Seq<char>, Seq<char>), SchemaEntry>,
    state: RouteState,
    group: TableGroup,
    groups: Seq<TableGroup>,
    stat: Stat,
)
    requires
        keeps(initial, state.catalog),
        state.catalog.contains_key(group.table@),
        writes(
            Ok(state.step),
            group,
            state.catalog[group.table@].content().fields,
            groups,
            stat,
        ),
    ensures
        settled(initial, state),
{
    let fields = state.catalog[group.table@].content().fields;
    match batch_outcome(fields, group.messages@) {
        Ok(Some(columns)) => {
            assert(state.step->Write_0.write.table_path@ == group.table@);
        },
        _ => {},
    }
}

/// The step for groups that wait makes a settled state.
proof fn lemma_continues_settled(
    initial: Map<(Seq<char>, Seq<char>), SchemaEntry>,
    state: RouteState,
    groups: Seq<TableGroup>,
    stat: Stat,
)
    requires
        keeps(initial, state.catalog),
        continues(Ok(state.step), state.catalog, groups, stat),
    ensures
        settled(initial, state),
{
    if groups.len() > 0 && state.catalog.contains_key(groups[0].table@) {
        lemma_writes_settled(initial, state, groups[0], groups.drop_first(), stat);
    }
}

/// A settled state is followed by settled states, and all that is known stays known.
proof fn lemma_advance_settled(
    creates: bool,
    initial: Map<(Seq<char>, Seq<char>), SchemaEntry>,
    before: RouteState,
    after: RouteState,
)
    requires
        settled(initial, before),
        route_advances(creates, before, after),
    ensures
        settled(initial, after),
        keeps(before.catalog, after.catalog),
{
    match before.step {
        RouteStep::LookUpTable(lookup) => {
            let found = choose|found: Result<TableInfo, WriterError>| #[trigger]
                after_lookup(
                    lookup,
                    found,
                    creates,
                    before.catalog,
                    after.catalog,
                    Ok(after.step),
                );
            assert(after_lookup(
                lookup,
                found,
                creates,
                before.catalog,
                after.catalog,
                Ok(after.step),
            ));
            assert(keeps(before.catalog, after.catalog));
            assert(keeps(initial, after.catalog));
            match found {
                Ok(info) => {
                    lemma_writes_settled(
                        initial,
                        after,
                        lookup.group,
                        lookup.waiting.groups@,
                        lookup.waiting.stat,
                    );
                },
                Err(_) => {
                    if !creates {
                        let stat = Stat {
                            appended: lookup.waiting.stat.appended,
                            errors: (lookup.waiting.stat.errors
                                + lookup.group.messages@.len()) as u64,
                        };
                        lemma_continues_settled(initial, after, lookup.waiting.groups@, stat);
                    }
                },
            }
        },
        RouteStep::CreateTable(creation) => {
            let outcome = choose|outcome: Result<(), WriterError>| #[trigger]
                after_creation(creation, outcome, Ok(after.step));
            assert(after_creation(creation, outcome, Ok(after.step)));
            lemma_writes_settled(
                initial,
                after,
                creation.group,
                creation.waiting.groups@,
                creation.waiting.stat,
            );
        },
        RouteStep::Write(written) => {
            let outcome = choose|outcome: Result<(), WriterError>| #[trigger]
                after_write(written, outcome, before.catalog, Ok(after.step));
            assert(after_write(written, outcome, before.catalog, Ok(after.step)));
            lemma_continues_settled(
                initial,
                after,
                written.waiting.groups@,
                written.waiting.stat,
            );
        },
        RouteStep::Finished(_) => {},
    }
}

/// All states of a route are settled.
proof fn lemma_route_settled(
    creates: bool,
    key: Seq<char>,
    messages: Seq<ConsumedMessage>,
    states: Seq<RouteState>,
    index: int,
)
    requires
        is_route(creates, key, messages, states),
        0 <= index < states.len(),
    ensures
        settled(states[0].catalog, states[index]),
    decreases index,
{
    if index == 0 {
        let stat = Stat { appended: 0, errors: unroutable(messages, key).len() as u64 };
        let groups = choose|groups: Seq<TableGroup>|
            {
                &&& partitioned(messages, key, groups)
                &&& #[trigger] continues(Ok(states[0].step), states[0].catalog, groups, stat)
            };
        lemma_continues_settled(states[0].catalog, states[0], groups, stat);
    } else {
        lemma_route_settled(creates, key, messages, states, index - 1);
        lemma_advance_settled(creates, states[0].catalog, states[index - 1], states[index]);
    }
}

/// At each step of a route, each of its messages was counted or still waits. When the route is
/// finished, each was counted once: as appended or as an error.
pub proof fn lemma_all_counted(
    creates: bool,
    key: Seq<char>,
    messages: Seq<ConsumedMessage>,
    states: Seq<RouteState>,
    index: int,
)
    requires
        is_route(creates, key, messages, states),
        0 <= index < states.len(),
    ensures
        accounts(Ok(states[index].step), messages.len() as int),
        states[index].step matches RouteStep::Finished(stat) ==> stat.appended + stat.errors
            == messages.len(),
    decreases index,
{
    if index > 0 {
        lemma_all_counted(creates, key, messages, states, index - 1);
        assert(route_advances(creates, states[index - 1], states[index]));
    }
}

/// A route ends: the steps that it took and can still take are no more than its first state says.
pub proof fn lemma_route_ends(
    creates: bool,
    key: Seq<char>,
    messages: Seq<ConsumedMessage>,
    states: Seq<RouteState>,
    index: int,
)
    requires
        is_route(creates, key, messages, states),
        0 <= index < states.len(),
    ensures
        index + states[index].step.steps_left() <= states[0].step.steps_left(),
    decreases index,
{
    if index > 0 {
        lemma_route_ends(creates, key, messages, states, index - 1);
        assert(route_advances(creates, states[index - 1], states[index]));
    }
}

/// What is known at one step of a route is known at all later steps, with the same entry.
pub proof fn lemma_entries_stay(
    creates: bool,
    key: Seq<char>,
    messages: Seq<ConsumedMessage>,
    states: Seq<RouteState>,
    earlier: int,
    later: int,
)
    requires
        is_route(creates, key, messages, states),
        0 <= earlier <= later < states.len(),
    ensures
        keeps(states[earlier].catalog, states[later].catalog),
    decreases later - earlier,
{
    if earlier < later {
        lemma_entries_stay(creates, key, messages, states, earlier, later - 1);
        lemma_route_settled(creates, key, messages, states, later - 1);
        lemma_advance_settled(creates, states[0].catalog, states[later - 1], states[later]);
    }
}

/// A table to which a route writes is known, and the batch is made under the schema that is known
/// of it.
pub proof fn lemma_written_table_known(
    creates: bool,
    key: Seq<char>,
    messages: Seq<ConsumedMessage>,
    states: Seq<RouteState>,
    index: int,
    path: (Seq<char>, Seq<char>),
)
    requires
        is_route(creates, key, messages, states),
        0 <= index < states.len(),
        writes_to(states[index], path),
    ensures
        states[index].catalog.contains_key(path),
        made_under(
            states[index].step->Write_0.write.batch,
            states[index].catalog[path].content().fields,
        ),
{
    lemma_route_settled(creates, key, messages, states, index);
}

/// A table that is known when a route begins is neither looked up nor created in it, and keeps its
/// entry.
pub proof fn lemma_known_not_sought(
    creates: bool,
    key: Seq<char>,
    messages: Seq<ConsumedMessage>,
    states: Seq<RouteState>,
    index: int,
    path: (Seq<char>, Seq<char>),
)
    requires
        is_route(creates, key, messages, states),
        0 <= index < states.len(),
        states[0].catalog.contains_key(path),
    ensures
        !seeks(states[index], path),
        states[index].catalog.contains_key(path),
        states[index].catalog[path] == states[0].catalog[path],
{
    lemma_route_settled(creates, key, messages, states, index);
}

/// A table to which one route writes is known to the next one: there it is neither looked up nor
/// created, and batches for it are made under the schema under which the first was made.
pub proof fn lemma_known_to_next_route(
    creates: bool,
    key: Seq<char>,
    first_messages: Seq<ConsumedMessage>,
    first: Seq<RouteState>,
    written: int,
    next_messages: Seq<ConsumedMessage>,
    next: Seq<RouteState>,
    index: int,
    path: (Seq<char>, Seq<char>),
)
    requires
        is_route(creates, key, first_messages, first),
        is_route(creates, key, next_messages, next),
        next[0].catalog == first.last().catalog,
        0 <= written < first.len(),
        writes_to(first[written], path),
        0 <= index < next.len(),
    ensures
        !seeks(next[index], path),
        first[written].catalog.contains_key(path),
        next[index].catalog.contains_key(path),
        next[index].catalog[path] == first[written].catalog[path],
        writes_to(next[index], path) ==> made_under(
            next[index].step->Write_0.write.batch,
            first[written].catalog[path].content().fields,
        ),
{
    lemma_written_table_known(creates, key, first_messages, first, written, path);
    lemma_entries_stay(creates, key, first_messages, first, written, first.len() - 1);
    lemma_known_not_sought(creates, key, next_messages, next, index, path);
    lemma_route_settled(creates, key, next_messages, next, index);
}

/// Messages that all name one table are all of those that name it.
proof fn lemma_all_for_one(
    messages: Seq<ConsumedMessage>,
    key: Seq<char>,
    path: (Seq<char>, Seq<char>),
)
    requires
        forall|i: int|
            0 <= i < messages.len() ==> route_target(#[trigger] messages[i], key) == Some(path),
    ensures
        messages_for(messages, key, path) == messages,
        unroutable(messages, key).len() == 0,
    decreases messages.len(),
{
    reveal(Seq::filter);
    if messages.len() > 0 {
        assert(route_target(messages[messages.len() - 1], key) == Some(path));
        assert forall|i: int| 0 <= i < messages.drop_last().len() implies route_target(
            #[trigger] messages.drop_last()[i],
            key,
        ) == Some(path) by {
            assert(route_target(messages[i], key) == Some(path));
        }
        lemma_all_for_one(messages.drop_last(), key, path);
        assert(messages_for(messages, key, path) =~= messages);
    }
}

/// Messages that all name a known table are written to it at once.
pub proof fn lemma_known_written_at_once(
    step: Result<RouteStep, RouterError>,
    catalog: Map<(Seq<char>, Seq<char>), SchemaEntry>,
    messages: Seq<ConsumedMessage>,
    key: Seq<char>,
    path: (Seq<char>, Seq<char>),
)
    requires
        begins(step, catalog, messages, key),
        messages.len() > 0,
        forall|i: int|
            0 <= i < messages.len() ==> route_target(#[trigger] messages[i], key) == Some(path),
        catalog.contains_key(path),
    ensures
        exists|group: TableGroup|
            {
                &&& group.table@ == path
                &&& group.messages@ == messages
                &&& #[trigger] writes(
                    step,
                    group,
                    catalog[path].content().fields,
                    Seq::empty(),
                    Stat { appended: 0, errors: 0 },
                )
            },
{
    lemma_all_for_one(messages, key, path);
    let stat = Stat { appended: 0, errors: unroutable(messages, key).len() as u64 };
    let groups = choose|groups: Seq<TableGroup>|
        {
            &&& partitioned(messages, key, groups)
            &&& #[trigger] continues(step, catalog, groups, stat)
        };
    assert(route_target(messages[0], key) == Some(path));
    assert(has_group(groups, path));
    assert forall|i: int| 0 <= i < groups.len() implies (#[trigger] groups[i]).table@ == path by {
        let table = groups[i].table@;
        let names = |message: ConsumedMessage| route_target(message, key) == Some(table);
        messages.lemma_filter_pred(names, 0);
        let found = groups[i].messages@[0];
        assert(messages.filter(names).contains(found));
        messages.lemma_filter_contains_rev(names, found);
        let j = choose|j: int| 0 <= j < messages.len() && messages[j] == found;
        assert(route_target(messages[j], key) == Some(path));
    }
    assert(groups.len() == 1) by {
        if groups.len() > 1 {
            assert(groups[0].table@ != groups[1].table@);
        }
    }
    assert(groups.drop_first() =~= Seq::empty());
    assert(writes(step, groups[0], catalog[path].content().fields, Seq::empty(), stat));
}

} // verus!
