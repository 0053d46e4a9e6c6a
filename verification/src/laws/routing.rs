//! Laws of many tables: how a message names its table, and how messages are parted.

use vstd::prelude::*;
use vstd::utf8::{is_ascii_chars, is_ascii_chars_encode_utf8};

use crate::config::FlussSinkConfig;
use crate::json::{document, first_member, Json};
use crate::message::{ConsumedMessage, Payload};
use crate::router::multi_table::{
    around_dot, extracted, has_group, lemma_accepted_path, lemma_path_read_back, only_dot,
    parsed_path, partitioned, route_target, skip_failure, skip_failures, skips,
    unroutable, MultiTableRouter, SkippedMessage, TableGroup,
};
use crate::router::RouterFailure;
use crate::table_path::{
    invalid_name, name_char, path_text, reserved_name, reserved_reason, TablePath,
};

verus! {

/// Whether the member at `index` is the first one under `key`.
pub open spec fn first_under(
    members: Seq<(Seq<char>, Json)>,
    key: Seq<char>,
    index: int,
) -> bool {
    &&& 0 <= index < members.len()
    &&& members[index].0 == key
    &&& forall|i: int| 0 <= i < index ==> (#[trigger] members[i]).0 != key
}

/// The first member under a key is where it stands.
proof fn lemma_first_member(members: Seq<(Seq<char>, Json)>, key: Seq<char>, index: int)
    requires
        first_under(members, key, index),
    ensures
        first_member(members, key) == Some(members[index].1),
    decreases index,
{
    if index > 0 {
        let rest = members.drop_first();
        assert(members[0].0 != key);
        assert forall|i: int| 0 <= i < index - 1 implies (#[trigger] rest[i]).0 != key by {
            assert(rest[i] == members[i + 1]);
        }
        lemma_first_member(rest, key, index - 1);
    }
}

/// There is no first member under a key that no member has.
proof fn lemma_no_first_member(members: Seq<(Seq<char>, Json)>, key: Seq<char>)
    requires
        forall|i: int| 0 <= i < members.len() ==> (#[trigger] members[i]).0 != key,
    ensures
        first_member(members, key) is None,
    decreases members.len(),
{
    if members.len() > 0 {
        let rest = members.drop_first();
        assert(members[0].0 != key);
        assert forall|i: int| 0 <= i < rest.len() implies (#[trigger] rest[i]).0 != key by {
            assert(rest[i] == members[i + 1]);
        }
        lemma_no_first_member(rest, key);
    }
}

/// Whether nothing was extracted, which is said with the id of the message and the key.
pub open spec fn nothing_extracted(
    outcome: Result<Seq<char>, RouterFailure>,
    message: ConsumedMessage,
    key: Seq<char>,
    reason: Seq<char>,
) -> bool {
    outcome == Err::<Seq<char>, RouterFailure>(
        RouterFailure::ExtractStringField(message.id, key, reason),
    )
}

/// What is extracted under a key is the first member under that key, if it is a text.
pub proof fn lemma_member_extracted(
    message: ConsumedMessage,
    value: simd_json::OwnedValue,
    members: Seq<(Seq<char>, Json)>,
    key: Seq<char>,
    index: int,
)
    requires
        message.payload == Payload::Json(value),
        document(value) == Json::Object(members),
        first_under(members, key, index),
    ensures
        match members[index].1 {
            Json::Text(text) => extracted(message, key) == Ok::<Seq<char>, RouterFailure>(text),
            _ => nothing_extracted(extracted(message, key), message, key, "Value not found"@),
        },
{
    lemma_first_member(members, key, index);
}

/// Nothing is extracted under a key that no member has, whatever the other members are.
pub proof fn lemma_absent_not_extracted(
    message: ConsumedMessage,
    value: simd_json::OwnedValue,
    members: Seq<(Seq<char>, Json)>,
    key: Seq<char>,
)
    requires
        message.payload == Payload::Json(value),
        document(value) == Json::Object(members),
        forall|i: int| 0 <= i < members.len() ==> (#[trigger] members[i]).0 != key,
    ensures
        nothing_extracted(extracted(message, key), message, key, "Value not found"@),
{
    lemma_no_first_member(members, key);
}

/// Under two keys the two members under them are extracted from one message.
pub proof fn lemma_two_keys_extracted(
    message: ConsumedMessage,
    value: simd_json::OwnedValue,
    members: Seq<(Seq<char>, Json)>,
    left: Seq<char>,
    left_index: int,
    left_text: Seq<char>,
    right: Seq<char>,
    right_index: int,
    right_text: Seq<char>,
)
    requires
        message.payload == Payload::Json(value),
        document(value) == Json::Object(members),
        first_under(members, left, left_index),
        members[left_index].1 == Json::Text(left_text),
        first_under(members, right, right_index),
        members[right_index].1 == Json::Text(right_text),
    ensures
        extracted(message, left) == Ok::<Seq<char>, RouterFailure>(left_text),
        extracted(message, right) == Ok::<Seq<char>, RouterFailure>(right_text),
        left_text != right_text ==> extracted(message, left) != extracted(message, right),
{
    lemma_member_extracted(message, value, members, left, left_index);
    lemma_member_extracted(message, value, members, right, right_index);
}

/// Nothing is extracted from a document that is no object, nor from a payload that is no document.
pub proof fn lemma_only_objects_extracted(message: ConsumedMessage, key: Seq<char>)
    ensures
        match message.payload {
            Payload::Json(value) => !(document(value) is Object) ==> nothing_extracted(
                extracted(message, key),
                message,
                key,
                "Value not found"@,
            ),
            _ => nothing_extracted(
                extracted(message, key),
                message,
                key,
                "Payload type is not supported, only Json type is supported."@,
            ),
        },
{
}

/// Whether a character is an ASCII letter, an ASCII digit, `_` or `-`.
pub open spec fn plain_char(c: char) -> bool {
    ||| 'a' <= c && c <= 'z'
    ||| 'A' <= c && c <= 'Z'
    ||| '0' <= c && c <= '9'
    ||| c == '_' || c == '-'
}

/// Whether a text can name a database or a table: between one and two hundred plain characters,
/// the first two of which are not both `_`.
pub open spec fn good_name(name: Seq<char>) -> bool {
    &&& 1 <= name.len() <= 200
    &&& forall|i: int| 0 <= i < name.len() ==> plain_char(#[trigger] name[i])
    &&& name.len() >= 2 ==> !(name[0] == '_' && name[1] == '_')
}

/// A name is accepted where it is a good one, and is reserved or invalid where not.
proof fn lemma_good_name(name: Seq<char>)
    ensures
        good_name(name) <==> invalid_name(name) is None && !reserved_name(name),
        plain_name(name) <==> invalid_name(name) is None,
{
    reveal_strlit(".");
    reveal_strlit("..");
    if forall|i: int| 0 <= i < name.len() ==> plain_char(#[trigger] name[i]) {
        assert forall|i: int| 0 <= i < name.len() implies name_char(#[trigger] name[i]) by {
            assert(plain_char(name[i]));
        }
        assert(is_ascii_chars(name)) by {
            assert forall|i: int| 0 <= i < name.len() implies '\0' <= #[trigger] name[i]
                && name[i] <= '\u{7f}' by {
                assert(plain_char(name[i]));
            }
        }
        is_ascii_chars_encode_utf8(name);
        if name.len() >= 1 {
            assert(plain_char(name[0]));
        }
    } else {
        let i = choose|i: int| 0 <= i < name.len() && !plain_char(#[trigger] name[i]);
        assert(!name_char(name[i]));
    }
}

/// Two good names with a dot between them are the path of that table in that database.
pub proof fn lemma_good_names_make_path(database: Seq<char>, table: Seq<char>)
    requires
        good_name(database),
        good_name(table),
    ensures
        parsed_path(database + seq!['.'] + table) == Ok::<(Seq<char>, Seq<char>), Seq<char>>(
            (database, table),
        ),
{
    reveal_strlit(".");
    lemma_good_name(database);
    lemma_good_name(table);
    lemma_path_read_back((database, table));
    assert(path_text((database, table)) =~= database + seq!['.'] + table);
}

/// A text that is a path is two good names with a dot between them.
pub proof fn lemma_path_has_good_names(text: Seq<char>)
    ensures
        parsed_path(text) matches Ok((database, table)) ==> {
            &&& text == database + seq!['.'] + table
            &&& good_name(database)
            &&& good_name(table)
        },
{
    reveal_strlit(".");
    if parsed_path(text) is Ok {
        lemma_accepted_path(text);
        let path = parsed_path(text)->Ok_0;
        lemma_good_name(path.0);
        lemma_good_name(path.1);
        assert(path_text(path) =~= path.0 + seq!['.'] + path.1);
    }
}

/// Whether a text is refused as a path for its dots, which the refusal says with the text.
pub open spec fn dots_refused(text: Seq<char>) -> bool {
    &&& parsed_path(text) matches Err(reason)
    &&& reason == "Invalid table format, expected 'database.table', got "@ + text
}

/// A text with no dot, or with more than one, is refused, and so is one in which a name is not a
/// good one. Where the dots are wrong the refusal holds the text.
pub proof fn lemma_refused_path(text: Seq<char>)
    ensures
        parsed_path(text) is Err <==> !exists|database: Seq<char>, table: Seq<char>|
            {
                &&& good_name(database)
                &&& good_name(table)
                &&& text == #[trigger] (database + seq!['.'] + table)
            },
        (forall|i: int| 0 <= i < text.len() ==> #[trigger] text[i] != '.') ==> dots_refused(text),
        forall|i: int, j: int|
            0 <= i < j < text.len() && #[trigger] text[i] == '.' && #[trigger] text[j] == '.'
                ==> dots_refused(text),
{
    lemma_path_has_good_names(text);
    if parsed_path(text) is Ok {
        let path = parsed_path(text)->Ok_0;
        assert(text == path.0 + seq!['.'] + path.1);
    } else {
        assert forall|database: Seq<char>, table: Seq<char>|
            good_name(database) && good_name(table) implies text != #[trigger] (database
            + seq!['.'] + table) by {
            lemma_good_names_make_path(database, table);
        }
    }
    if forall|i: int| 0 <= i < text.len() ==> #[trigger] text[i] != '.' {
        assert forall|index: int| !only_dot(text, index) by {
            if only_dot(text, index) {
                assert(text[index] != '.');
            }
        }
        assert(around_dot(text) is None);
    }
    assert forall|i: int, j: int|
        0 <= i < j < text.len() && #[trigger] text[i] == '.' && #[trigger] text[j]
            == '.' implies dots_refused(text) by {
        assert forall|index: int| !only_dot(text, index) by {
            if only_dot(text, index) {
                if i != index {
                    assert(text[i] != '.');
                } else {
                    assert(text[j] != '.');
                }
            }
        }
        assert(around_dot(text) is None);
    }
}

/// Whether a text has between one and two hundred characters, all of them plain.
pub open spec fn plain_name(name: Seq<char>) -> bool {
    &&& 1 <= name.len() <= 200
    &&& forall|i: int| 0 <= i < name.len() ==> plain_char(#[trigger] name[i])
}

/// Whether a reason is that a name cannot be used.
pub open spec fn name_refused(reason: Seq<char>, name: Seq<char>, why: Seq<char>) -> bool {
    reason == "Invalid name detected, for "@ + name + " : "@ + why
}

/// In a text with one dot the name that is not a good one is reported. What is no name at all comes
/// before what is reserved, and the database before the table.
pub proof fn lemma_bad_name_reported(database: Seq<char>, table: Seq<char>)
    requires
        forall|i: int| 0 <= i < database.len() ==> #[trigger] database[i] != '.',
        forall|i: int| 0 <= i < table.len() ==> #[trigger] table[i] != '.',
        !good_name(database) || !good_name(table),
    ensures
        parsed_path(database + seq!['.'] + table) matches Err(reason) && {
            let database_first = !plain_name(database) || (plain_name(table) && !good_name(
                database,
            ));
            &&& database_first ==> exists|why: Seq<char>| #[trigger]
                name_refused(reason, database, why)
            &&& !database_first ==> exists|why: Seq<char>| #[trigger]
                name_refused(reason, table, why)
        },
{
    let text = database + seq!['.'] + table;
    let index = database.len() as int;
    assert forall|i: int| 0 <= i < text.len() && i != index implies #[trigger] text[i] != '.' by {
        if i < index {
            assert(database[i] != '.');
        } else {
            assert(table[i - index - 1] != '.');
        }
    }
    assert(only_dot(text, index));
    let chosen = choose|index: int| only_dot(text, index);
    assert(chosen == index) by {
        if chosen != index {
            assert(text[chosen] != '.');
        }
    }
    assert(text.take(index) =~= database);
    assert(text.skip(index + 1) =~= table);
    lemma_good_name(database);
    lemma_good_name(table);
    assert(around_dot(text) == Some((database, table)));
    let reason = parsed_path(text)->Err_0;
    if invalid_name(database) is Some {
        assert(name_refused(reason, database, invalid_name(database)->0));
    } else if invalid_name(table) is Some {
        assert(name_refused(reason, table, invalid_name(table)->0));
    } else if reserved_name(database) {
        assert(name_refused(reason, database, reserved_reason()));
    } else {
        assert(name_refused(reason, table, reserved_reason()));
    }
}

/// Whether a message names a table under a key: it carries an object whose first member under the
/// key is the text of the path, and both names are good ones.
pub open spec fn names_table(
    message: ConsumedMessage,
    key: Seq<char>,
    database: Seq<char>,
    table: Seq<char>,
) -> bool {
    &&& good_name(database)
    &&& good_name(table)
    &&& message.payload matches Payload::Json(value)
    &&& document(value) matches Json::Object(members)
    &&& exists|index: int| #[trigger]
        first_under(members, key, index) && members[index].1 == Json::Text(
            database + seq!['.'] + table,
        )
}

/// Whether a message names some table under a key.
pub open spec fn names_some(message: ConsumedMessage, key: Seq<char>) -> bool {
    exists|database: Seq<char>, table: Seq<char>| #[trigger]
        names_table(message, key, database, table)
}

/// Members have a first one under a key, or none.
proof fn lemma_first_or_none(members: Seq<(Seq<char>, Json)>, key: Seq<char>) -> (index: int)
    ensures
        first_under(members, key, index) || forall|i: int|
            0 <= i < members.len() ==> (#[trigger] members[i]).0 != key,
    decreases members.len(),
{
    if members.len() == 0 {
        0
    } else if members[0].0 == key {
        0
    } else {
        let rest = members.drop_first();
        let index = lemma_first_or_none(rest, key);
        if first_under(rest, key, index) {
            assert(rest[index] == members[index + 1]);
            assert forall|i: int| 0 <= i < index + 1 implies (#[trigger] members[i]).0 != key by {
                if i > 0 {
                    assert(rest[i - 1].0 != key);
                }
            }
        } else {
            assert forall|i: int| 0 <= i < members.len() implies (#[trigger] members[i]).0
                != key by {
                if i > 0 {
                    assert(rest[i - 1].0 != key);
                }
            }
        }
        index + 1
    }
}

/// A message goes to the table that it names, and to no table where it names none.
pub proof fn lemma_message_goes_where_named(message: ConsumedMessage, key: Seq<char>)
    ensures
        forall|database: Seq<char>, table: Seq<char>| #[trigger]
            names_table(message, key, database, table) <==> route_target(message, key) == Some(
                (database, table),
            ),
        names_some(message, key) <==> route_target(message, key) is Some,
        names_some(message, key) <==> skip_failure(message, key) is None,
        skip_failure(message, key) matches Some(skipped) ==> skipped.0 == message.id,
{
    lemma_only_objects_extracted(message, key);
    if let Payload::Json(value) = message.payload {
        if let Json::Object(members) = document(value) {
            let index = lemma_first_or_none(members, key);
            if first_under(members, key, index) {
                lemma_member_extracted(message, value, members, key, index);
                if let Json::Text(text) = members[index].1 {
                    lemma_path_has_good_names(text);
                }
            } else {
                lemma_absent_not_extracted(message, value, members, key);
            }
        }
    }
    assert forall|database: Seq<char>, table: Seq<char>| #[trigger]
        names_table(message, key, database, table) implies route_target(message, key) == Some(
        (database, table),
    ) by {
        let value = message.payload->Json_0;
        let members = document(value)->Object_0;
        let index = choose|index: int| #[trigger]
            first_under(members, key, index) && members[index].1 == Json::Text(
                database + seq!['.'] + table,
            );
        lemma_member_extracted(message, value, members, key, index);
        lemma_good_names_make_path(database, table);
    }
    assert forall|database: Seq<char>, table: Seq<char>|
        route_target(message, key) == Some((database, table)) implies #[trigger] names_table(
        message,
        key,
        database,
        table,
    ) by {
        let value = message.payload->Json_0;
        let members = document(value)->Object_0;
        let index = lemma_first_or_none(members, key);
        assert(first_under(members, key, index));
    }
    if route_target(message, key) is Some {
        let path = route_target(message, key)->0;
        assert(names_table(message, key, path.0, path.1));
    }
}

/// A message is skipped for the reason for which nothing was extracted, or for which what was
/// extracted is no path.
pub proof fn lemma_skip_reason(message: ConsumedMessage, key: Seq<char>, text: Seq<char>)
    ensures
        extracted(message, key) matches Err(failure) ==> skip_failure(message, key) == Some(
            (message.id, failure),
        ),
        extracted(message, key) == Ok::<Seq<char>, RouterFailure>(text) ==> (parsed_path(
            text,
        ) matches Err(reason) ==> skip_failure(message, key) == Some(
            (message.id, RouterFailure::FailedToExtractTablePath(reason)),
        )),
{
}

/// The group of a table holds the messages that name the table, all of them in their order and no
/// others. A table that a message names has one group, and each group has a message.
pub proof fn lemma_group_holds_named(
    messages: Seq<ConsumedMessage>,
    key: Seq<char>,
    groups: Seq<TableGroup>,
    database: Seq<char>,
    table: Seq<char>,
)
    requires
        partitioned(messages, key, groups),
    ensures
        forall|i: int|
            0 <= i < groups.len() && (#[trigger] groups[i]).table.database@ == database
                && groups[i].table.table@ == table ==> {
                &&& groups[i].messages@ == messages.filter(
                    |message: ConsumedMessage| names_table(message, key, database, table),
                )
                &&& groups[i].messages@.len() > 0
            },
        forall|i: int, j: int|
            0 <= i < groups.len() && 0 <= j < groups.len() && i != j ==> {
                ||| (#[trigger] groups[i]).table.database@ != (
                #[trigger] groups[j]).table.database@
                ||| groups[i].table.table@ != groups[j].table.table@
            },
        forall|k: int|
            0 <= k < messages.len() && names_table(#[trigger] messages[k], key, database, table)
                ==> exists|i: int|
                0 <= i < groups.len() && (#[trigger] groups[i]).table.database@ == database
                    && groups[i].table.table@ == table,
{
    let named = |message: ConsumedMessage| names_table(message, key, database, table);
    let routed = |message: ConsumedMessage|
        route_target(message, key) == Some((database, table));
    assert forall|message: ConsumedMessage| #[trigger] named(message) == routed(message) by {
        lemma_message_goes_where_named(message, key);
    }
    assert(named =~= routed);
    assert forall|i: int, j: int|
        0 <= i < groups.len() && 0 <= j < groups.len() && i != j implies {
        ||| (#[trigger] groups[i]).table.database@ != (#[trigger] groups[j]).table.database@
        ||| groups[i].table.table@ != groups[j].table.table@
    } by {
        if i < j {
            assert(groups[i].table@ != groups[j].table@);
        } else {
            assert(groups[j].table@ != groups[i].table@);
        }
    }
    assert forall|k: int|
        0 <= k < messages.len() && names_table(
            #[trigger] messages[k],
            key,
            database,
            table,
        ) implies exists|i: int|
        0 <= i < groups.len() && (#[trigger] groups[i]).table.database@ == database
            && groups[i].table.table@ == table by {
        lemma_message_goes_where_named(messages[k], key);
        assert(has_group(groups, (database, table)));
    }
    assert forall|i: int|
        0 <= i < groups.len() && (#[trigger] groups[i]).table.database@ == database
            && groups[i].table.table@ == table implies groups[i].messages@ == messages.filter(
        named,
    ) by {
        assert(groups[i].table@ == (database, table));
    }
}

/// The messages that are skipped are those that name no table, in their order, each under its id.
/// They are as many as are counted as errors.
pub proof fn lemma_skipped_are_unnamed(messages: Seq<ConsumedMessage>, key: Seq<char>)
    ensures
        skip_failures(messages, key).len() == messages.filter(
            |message: ConsumedMessage| !names_some(message, key),
        ).len(),
        unroutable(messages, key) == messages.filter(
            |message: ConsumedMessage| !names_some(message, key),
        ),
        forall|i: int|
            0 <= i < skip_failures(messages, key).len() ==> (#[trigger] skip_failures(
                messages,
                key,
            )[i]).0 == messages.filter(
                |message: ConsumedMessage| !names_some(message, key),
            )[i].id,
    decreases messages.len(),
{
    reveal(Seq::filter);
    if messages.len() > 0 {
        lemma_skipped_are_unnamed(messages.drop_last(), key);
        lemma_message_goes_where_named(messages.last(), key);
    }
}

/// The path of a table is its database and its table, and says nothing else.
pub proof fn lemma_path_says_names(left: TablePath, right: TablePath)
    ensures
        left@ == (left.database@, left.table@),
        left@ == right@ <==> left.database@ == right.database@ && left.table@ == right.table@,
        path_text(left@) == left.database@ + seq!['.'] + left.table@,
{
    reveal_strlit(".");
}

/// Skipped messages keep their ids and their errors, one by one.
pub proof fn lemma_skipped_says(skipped: Seq<SkippedMessage>, index: int)
    requires
        0 <= index < skipped.len(),
    ensures
        skips(skipped).len() == skipped.len(),
        skips(skipped)[index].0 == skipped[index].id,
        skips(skipped)[index].1 == skipped[index].error@,
{
}

/// A router for many tables has the key and the flag of its configuration, and knows no table.
pub proof fn lemma_multi_router_follows_config(router: MultiTableRouter, config: FlussSinkConfig)
    requires
        router.made_for(config),
    ensures
        router.key() == config.route_key@,
        router.creates_tables() == config.auto_create_table,
        forall|path: (Seq<char>, Seq<char>)| !#[trigger] router.catalog().contains_key(path),
{
}

} // verus!
