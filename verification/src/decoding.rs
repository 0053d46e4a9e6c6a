//! What can be decoded: which values the columns of a schema can take, and what becomes of others.

use arrow::datatypes::{DataType, Field, Schema};
use simd_json::OwnedValue;
use vstd::prelude::*;

use crate::arrow_data::{
    all_decodable, all_unrefused, arrow_field, arrow_fields_of, arrow_type, common_type, decodable,
    every_value, field_count, field_name, field_type, first_named, fits, fitting, inferable,
    open_type, refused_text, schema_field, schema_fields, sound_type, takes, unrefused, ArrowField,
    ArrowType, TypeNode,
};
use crate::decimal::is_decimal_text;
use crate::fluss_schema::convertible;
use crate::json::{
    document, item_mut, member_mut, members_of, open_value, set_member, set_text, to_float_text,
    Json, ValueNode,
};
use crate::text::same_text;

verus! {

/// The types of the fields of a struct are parts of it.
proof fn lemma_struct_part(fields: Seq<ArrowField>, index: int)
    requires
        0 <= index < fields.len(),
    ensures
        decreases_to!(ArrowType::Struct(fields) => fields[index].data_type),
{
    let whole = ArrowType::Struct(fields);
    assert(decreases_to!(whole => whole->Struct_0));
    assert(decreases_to!(fields => fields[index]));
    assert(decreases_to!(fields[index] => fields[index].data_type));
}

/// The type of the items of a list is a part of it.
proof fn lemma_list_part(field: ArrowField)
    ensures
        decreases_to!(ArrowType::List(Box::new(field)) => field.data_type),
        decreases_to!(ArrowType::LargeList(Box::new(field)) => field.data_type),
{
    let list = ArrowType::List(Box::new(field));
    let large = ArrowType::LargeList(Box::new(field));
    assert(decreases_to!(list => list->List_0));
    assert(decreases_to!(large => large->LargeList_0));
    assert(decreases_to!(field => field.data_type));
}

/// The type of the entries of a map is a part of it.
proof fn lemma_map_part(field: ArrowField, sorted: bool)
    ensures
        decreases_to!(ArrowType::Mapping(Box::new(field), sorted) => field.data_type),
{
    let whole = ArrowType::Mapping(Box::new(field), sorted);
    assert(decreases_to!(whole => whole->Mapping_0));
    assert(decreases_to!(field => field.data_type));
}

/// Whether the keys of members fit the decoder of a data type.
pub open spec fn keys_fit(data_type: ArrowType, members: Seq<(Seq<char>, Json)>) -> bool {
    forall|i: int|
        0 <= i < members.len() ==> fits(data_type, Json::Text((#[trigger] members[i]).0))
}

/// A document in which each value that does not fit the decoder of its column is replaced by the
/// refused text, and each map with a key that does not fit by one with the refused text for its
/// only key. The decoder then finds an error there, unless it finds one before.
pub open spec fn mended(data_type: ArrowType, document: Json) -> Json
    decreases data_type,
{
    if !fits(data_type, document) {
        Json::Text(refused_text())
    } else {
        match data_type {
            ArrowType::List(field) => match document {
                Json::Array(items) => Json::Array(
                    Seq::new(items.len(), |i: int| mended(field.data_type, items[i])),
                ),
                _ => document,
            },
            ArrowType::LargeList(field) => match document {
                Json::Array(items) => Json::Array(
                    Seq::new(items.len(), |i: int| mended(field.data_type, items[i])),
                ),
                _ => document,
            },
            ArrowType::Mapping(field, _) => match (field.data_type, document) {
                (ArrowType::Struct(pair), Json::Object(members)) => if pair.len() != 2 {
                    document
                } else if keys_fit(pair[0].data_type, members) {
                    Json::Object(
                        Seq::new(
                            members.len(),
                            |i: int| (members[i].0, mended(pair[1].data_type, members[i].1)),
                        ),
                    )
                } else {
                    Json::Object(seq![(refused_text(), Json::Null)])
                },
                _ => document,
            },
            ArrowType::Struct(fields) => match document {
                Json::Object(members) => Json::Object(
                    Seq::new(
                        members.len(),
                        |j: int|
                            if exists|i: int| takes(fields, members, i, j) {
                                let i = choose|i: int| takes(fields, members, i, j);
                                (members[j].0, mended(fields[i].data_type, members[j].1))
                            } else {
                                members[j]
                            },
                    ),
                ),
                _ => document,
            },
            _ => document,
        }
    }
}

/// Rows in which each value that does not fit the decoder of its column is replaced.
pub open spec fn mended_rows(fields: Seq<ArrowField>, rows: Seq<Json>) -> Seq<Json> {
    rows.map_values(|row: Json| mended(ArrowType::Struct(fields), row))
}

/// One field at most takes a member.
proof fn lemma_one_taker(
    fields: Seq<ArrowField>,
    members: Seq<(Seq<char>, Json)>,
    first: int,
    second: int,
    member: int,
)
    requires
        takes(fields, members, first, member),
        takes(fields, members, second, member),
    ensures
        first == second,
{
    if first < second {
        assert(fields[first].name != fields[second].name);
    }
    if second < first {
        assert(fields[second].name != fields[first].name);
    }
}

/// Members with the same names are taken by the same fields.
proof fn lemma_same_takers(
    fields: Seq<ArrowField>,
    members: Seq<(Seq<char>, Json)>,
    others: Seq<(Seq<char>, Json)>,
    field: int,
    member: int,
)
    requires
        members.len() == others.len(),
        forall|k: int| 0 <= k < members.len() ==> (#[trigger] others[k]).0 == members[k].0,
    ensures
        takes(fields, members, field, member) == takes(fields, others, field, member),
{
    if 0 <= member < members.len() {
        assert(others[member].0 == members[member].0);
        assert forall|k: int| member < k < members.len() implies ((#[trigger] members[k]).0
            != members[member].0) == (others[k].0 != others[member].0) by {
            assert(others[k].0 == members[k].0);
        }
        assert((forall|k: int|
            member < k < members.len() ==> (#[trigger] members[k]).0 != members[member].0) == (
        forall|k: int|
            member < k < members.len() ==> (#[trigger] others[k]).0 != others[member].0)) by {
            if forall|k: int|
                member < k < members.len() ==> (#[trigger] members[k]).0 != members[member].0 {
                assert forall|k: int| member < k < members.len() implies (#[trigger] others[k]).0
                    != others[member].0 by {
                    assert(members[k].0 != members[member].0);
                }
            } else {
                let k = choose|k: int|
                    member < k < members.len() && (#[trigger] members[k]).0 == members[member].0;
                assert(others[k].0 == others[member].0);
            }
        }
    }
}

/// A test holds of all values of a list where it holds of the list and of all values of its items.
proof fn lemma_list_values(
    field: ArrowField,
    items: Seq<Json>,
    test: spec_fn(ArrowType, Json) -> bool,
)
    ensures
        every_value(ArrowType::List(Box::new(field)), Json::Array(items), test) <==> {
            &&& test(ArrowType::List(Box::new(field)), Json::Array(items))
            &&& forall|i: int|
                0 <= i < items.len() ==> every_value(field.data_type, #[trigger] items[i], test)
        },
        every_value(ArrowType::LargeList(Box::new(field)), Json::Array(items), test) <==> {
            &&& test(ArrowType::LargeList(Box::new(field)), Json::Array(items))
            &&& forall|i: int|
                0 <= i < items.len() ==> every_value(field.data_type, #[trigger] items[i], test)
        },
{
    let array = Json::Array(items);
    assert(array->Array_0 == items);
    assert forall|i: int| 0 <= i < items.len() && (every_value(
        ArrowType::List(Box::new(field)),
        array,
        test,
    ) || every_value(ArrowType::LargeList(Box::new(field)), array, test)) implies every_value(
        field.data_type,
        #[trigger] items[i],
        test,
    ) by {
        assert(every_value(field.data_type, array->Array_0[i], test));
    }
}

/// A mended list can be decoded; it is the list itself where that can be decoded, and holds the
/// refused text where not.
proof fn lemma_mended_items(data_type: ArrowType, items: Seq<Json>, mended_items: Seq<Json>)
    requires
        mended_items == Seq::new(items.len(), |i: int| mended(data_type, items[i])),
    ensures
        forall|i: int| 0 <= i < items.len() ==> decodable(data_type, #[trigger] mended_items[i]),
        (forall|i: int| 0 <= i < items.len() ==> decodable(data_type, #[trigger] items[i]))
            ==> mended_items == items,
        (forall|i: int|
            0 <= i < items.len() ==> every_value(
                data_type,
                #[trigger] mended_items[i],
                unrefused(),
            )) ==> (forall|i: int|
            0 <= i < items.len() ==> decodable(data_type, #[trigger] items[i])),
    decreases data_type, 1int,
{
    assert forall|i: int| 0 <= i < items.len() implies {
        &&& decodable(data_type, #[trigger] mended_items[i])
        &&& decodable(data_type, items[i]) ==> mended_items[i] == items[i]
        &&& every_value(data_type, mended_items[i], unrefused()) ==> decodable(data_type, items[i])
    } by {
        lemma_mended(data_type, items[i]);
    }
    if forall|i: int| 0 <= i < items.len() ==> decodable(data_type, #[trigger] items[i]) {
        assert forall|i: int| 0 <= i < items.len() implies mended_items[i] == items[i] by {
            assert(decodable(data_type, items[i]));
        }
        assert(mended_items =~= items);
    }
    if forall|i: int|
        0 <= i < items.len() ==> every_value(data_type, #[trigger] mended_items[i], unrefused()) {
        assert forall|i: int| 0 <= i < items.len() implies decodable(
            data_type,
            #[trigger] items[i],
        ) by {
            assert(every_value(data_type, mended_items[i], unrefused()));
        }
    }
}

/// A mended document can be decoded. It is the document itself where that can be decoded; where not,
/// it holds the refused text in a column that refuses it.
pub proof fn lemma_mended(data_type: ArrowType, document: Json)
    ensures
        decodable(data_type, mended(data_type, document)),
        decodable(data_type, document) ==> mended(data_type, document) == document,
        every_value(data_type, mended(data_type, document), unrefused()) ==> decodable(
            data_type,
            document,
        ),
    decreases data_type, 0int,
{
    reveal_strlit("?");
    match data_type {
        ArrowType::List(field) => {
            if let Json::Array(items) = document {
                let mended_items = Seq::new(items.len(), |i: int| mended(field.data_type, items[i]));
                lemma_mended_items(field.data_type, items, mended_items);
                assert(mended(data_type, document)->Array_0 =~= mended_items);
                lemma_list_values(*field, items, fitting());
                lemma_list_values(*field, mended_items, fitting());
                lemma_list_values(*field, mended_items, unrefused());
            }
        },
        ArrowType::LargeList(field) => {
            if let Json::Array(items) = document {
                let mended_items = Seq::new(items.len(), |i: int| mended(field.data_type, items[i]));
                lemma_mended_items(field.data_type, items, mended_items);
                assert(mended(data_type, document)->Array_0 =~= mended_items);
                lemma_list_values(*field, items, fitting());
                lemma_list_values(*field, mended_items, fitting());
                lemma_list_values(*field, mended_items, unrefused());
            }
        },
        ArrowType::Mapping(field, _) => {
            if let (ArrowType::Struct(pair), Json::Object(members)) = (field.data_type, document) {
                if pair.len() == 2 {
                    let changed = mended(data_type, document);
                    if keys_fit(pair[0].data_type, members) {
                        let mended_members = changed->Object_0;
                        assert forall|i: int| 0 <= i < members.len() implies {
                            &&& decodable(pair[1].data_type, (#[trigger] mended_members[i]).1)
                            &&& decodable(pair[1].data_type, members[i].1) ==> mended_members[i]
                                == members[i]
                            &&& every_value(pair[1].data_type, mended_members[i].1, unrefused())
                                ==> decodable(pair[1].data_type, members[i].1)
                            &&& mended_members[i].0 == members[i].0
                        } by {
                            lemma_mended(pair[1].data_type, members[i].1);
                        }
                        if decodable(data_type, document) {
                            assert forall|i: int| 0 <= i < members.len() implies mended_members[i]
                                == #[trigger] members[i] by {
                                assert(decodable(pair[1].data_type, members[i].1));
                            }
                            assert(mended_members =~= members);
                        }
                        if every_value(data_type, changed, unrefused()) {
                            assert forall|i: int| 0 <= i < members.len() implies {
                                &&& fits(pair[0].data_type, Json::Text((#[trigger] members[i]).0))
                                &&& decodable(pair[1].data_type, members[i].1)
                            } by {
                                assert(every_value(
                                    pair[1].data_type,
                                    mended_members[i].1,
                                    unrefused(),
                                ));
                            }
                        }
                    } else {
                        let i = choose|i: int|
                            0 <= i < members.len() && !fits(
                                pair[0].data_type,
                                Json::Text((#[trigger] members[i]).0),
                            );
                        assert(!fitting()(pair[0].data_type, Json::Text(members[i].0)));
                        let refused = changed->Object_0;
                        assert(refused.len() == 1 && refused[0] == (refused_text(), Json::Null));
                        assert(!unrefused()(pair[0].data_type, Json::Text(refused[0].0)));
                        assert(decodable(pair[1].data_type, Json::Null));
                    }
                }
            }
        },
        ArrowType::Struct(fields) => {
            if let Json::Object(members) = document {
                let changed = mended(data_type, document);
                let mended_members = changed->Object_0;
                assert forall|i: int, j: int|
                    takes(fields, members, i, j) == #[trigger] takes(
                        fields,
                        mended_members,
                        i,
                        j,
                    ) by {
                    lemma_same_takers(fields, members, mended_members, i, j);
                }
                assert forall|i: int, j: int| #[trigger] takes(fields, members, i, j) implies {
                    &&& decodable(fields[i].data_type, mended_members[j].1)
                    &&& decodable(fields[i].data_type, members[j].1) ==> mended_members[j]
                        == members[j]
                    &&& every_value(fields[i].data_type, mended_members[j].1, unrefused())
                        ==> decodable(fields[i].data_type, members[j].1)
                } by {
                    let taker = choose|i: int| takes(fields, members, i, j);
                    lemma_one_taker(fields, members, i, taker, j);
                    lemma_mended(fields[i].data_type, members[j].1);
                }
                if decodable(data_type, document) {
                    assert forall|j: int| 0 <= j < members.len() implies mended_members[j]
                        == #[trigger] members[j] by {
                        if exists|i: int| takes(fields, members, i, j) {
                            let i = choose|i: int| takes(fields, members, i, j);
                            assert(takes(fields, members, i, j));
                            assert(decodable(fields[i].data_type, members[j].1));
                        }
                    }
                    assert(mended_members =~= members);
                }
                if every_value(data_type, changed, unrefused()) {
                    assert forall|i: int, j: int| #[trigger]
                        takes(fields, members, i, j) implies decodable(
                        fields[i].data_type,
                        members[j].1,
                    ) by {
                        assert(takes(fields, mended_members, i, j));
                    }
                }
            }
        },
        _ => {},
    }
}

/// Rows that were mended can be decoded. They are the rows themselves where those can be decoded;
/// where not, they hold the refused text in a column that refuses it.
pub proof fn lemma_mended_rows(fields: Seq<ArrowField>, rows: Seq<Json>)
    ensures
        all_decodable(fields, mended_rows(fields, rows)),
        all_decodable(fields, rows) ==> mended_rows(fields, rows) == rows,
        all_unrefused(fields, mended_rows(fields, rows)) ==> all_decodable(fields, rows),
{
    let whole = ArrowType::Struct(fields);
    let changed = mended_rows(fields, rows);
    assert forall|i: int| 0 <= i < rows.len() implies {
        &&& decodable(whole, #[trigger] changed[i])
        &&& decodable(whole, rows[i]) ==> changed[i] == rows[i]
        &&& every_value(whole, changed[i], unrefused()) ==> decodable(whole, rows[i])
    } by {
        lemma_mended(whole, rows[i]);
    }
    if all_decodable(fields, rows) {
        assert forall|i: int| 0 <= i < rows.len() implies changed[i] == #[trigger] rows[i] by {
            assert(decodable(whole, rows[i]));
        }
        assert(changed =~= rows);
    }
    if all_unrefused(fields, changed) {
        assert forall|i: int| 0 <= i < rows.len() implies decodable(whole, #[trigger] rows[i]) by {
            assert(every_value(whole, changed[i], unrefused()));
        }
    }
}

/// All fields of a schema.
pub(crate) fn all_fields(schema: &Schema) -> (fields: Vec<&Field>)
    ensures
        arrow_fields_of(fields@) == schema_fields(*schema),
{
    let count = field_count(schema);
    let mut fields: Vec<&Field> = Vec::with_capacity(count);
    let mut index: usize = 0;
    while index < count
        invariant
            index == fields@.len(),
            index <= count == schema_fields(*schema).len(),
            forall|i: int|
                0 <= i < index ==> arrow_field(*#[trigger] fields@[i]) == schema_fields(*schema)[i],
        decreases count - index,
    {
        fields.push(schema_field(schema, index));
        index = index + 1;
    }
    assert(arrow_fields_of(fields@) =~= schema_fields(*schema));
    fields
}

/// The first field of a name.
fn field_named(fields: &Vec<&Field>, name: &str) -> (found: Option<usize>)
    ensures
        match found {
            Some(index) => {
                &&& index < fields@.len()
                &&& arrow_fields_of(fields@)[index as int].name == name@
                &&& first_named(arrow_fields_of(fields@), index as int)
            },
            None => forall|i: int|
                0 <= i < fields@.len() ==> (#[trigger] arrow_fields_of(fields@)[i]).name != name@,
        },
{
    let ghost inner = arrow_fields_of(fields@);
    let mut index: usize = 0;
    while index < fields.len()
        invariant
            index <= fields@.len(),
            inner == arrow_fields_of(fields@),
            forall|i: int| 0 <= i < index ==> (#[trigger] inner[i]).name != name@,
        decreases fields@.len() - index,
    {
        assert(inner[index as int] == arrow_field(*fields@[index as int]));
        if same_text(field_name(fields[index]), name) {
            return Some(index);
        }
        index = index + 1;
    }
    None
}

/// Whether a member is the last of its name.
fn is_last_named(members: &Vec<(&str, &OwnedValue)>, index: usize) -> (last: bool)
    requires
        index < members@.len(),
    ensures
        last == forall|k: int|
            index < k < members@.len() ==> (#[trigger] members_of(members@)[k]).0 != members_of(
                members@,
            )[index as int].0,
{
    let ghost tree = members_of(members@);
    let count: usize = members.len();
    let mut later: usize = index + 1;
    while later < count
        invariant
            index < later <= count == members@.len(),
            tree == members_of(members@),
            forall|k: int| index < k < later ==> (#[trigger] tree[k]).0 != tree[index as int].0,
        decreases members@.len() - later,
    {
        assert(tree[later as int].0 == members@[later as int].0@);
        assert(tree[index as int].0 == members@[index as int].0@);
        if same_text(members[later].0, members[index].0) {
            return false;
        }
        later = later + 1;
    }
    true
}

/// Whether the keys of members fit the decoder of a data type.
fn do_keys_fit(data_type: &DataType, members: &Vec<(&str, &OwnedValue)>) -> (fit: bool)
    ensures
        fit == keys_fit(arrow_type(*data_type), members_of(members@)),
{
    let ghost tree = members_of(members@);
    let (precision, scale) = match open_type(data_type) {
        TypeNode::Decimal(precision, scale) => (precision, scale),
        _ => {
            return true;
        },
    };
    let mut index: usize = 0;
    while index < members.len()
        invariant
            index <= members@.len(),
            tree == members_of(members@),
            arrow_type(*data_type) == ArrowType::Decimal(precision, scale),
            forall|i: int|
                0 <= i < index ==> fits(
                    arrow_type(*data_type),
                    Json::Text((#[trigger] tree[i]).0),
                ),
        decreases members@.len() - index,
    {
        assert(tree[index as int].0 == members@[index as int].0@);
        if !is_decimal_text(members[index].0, precision, scale) {
            return false;
        }
        index = index + 1;
    }
    true
}

/// Replaces a value by the refused text.
fn refuse(value: &mut OwnedValue)
    ensures
        document(*final(value)) == Json::Text(refused_text()),
{
    set_text(value, "?");
}

/// The field that takes each member.
fn find_takers(fields: &Vec<&Field>, members: &Vec<(&str, &OwnedValue)>) -> (takers: Vec<
    Option<usize>,
>)
    ensures
        takers@.len() == members@.len(),
        forall|j: int|
            0 <= j < members@.len() ==> match #[trigger] takers@[j] {
                Some(i) => takes(arrow_fields_of(fields@), members_of(members@), i as int, j),
                None => forall|i: int|
                    !takes(arrow_fields_of(fields@), members_of(members@), i, j),
            },
{
    let ghost inner = arrow_fields_of(fields@);
    let ghost tree = members_of(members@);
    let mut takers: Vec<Option<usize>> = Vec::new();
    let mut member: usize = 0;
    while member < members.len()
        invariant
            member == takers@.len(),
            member <= members@.len(),
            inner == arrow_fields_of(fields@),
            tree == members_of(members@),
            forall|j: int|
                0 <= j < member ==> match #[trigger] takers@[j] {
                    Some(i) => takes(inner, tree, i as int, j),
                    None => forall|i: int| !takes(inner, tree, i, j),
                },
        decreases members@.len() - member,
    {
        let taker = match field_named(fields, members[member].0) {
            Some(field) => if is_last_named(members, member) {
                assert(tree[member as int].0 == members@[member as int].0@);
                Some(field)
            } else {
                None
            },
            None => {
                assert forall|i: int| !takes(inner, tree, i, member as int) by {
                    assert(tree[member as int].0 == members@[member as int].0@);
                }
                None
            },
        };
        takers.push(taker);
        member = member + 1;
    }
    takers
}

/// Replaces what does not fit in an array whose items are of a data type.
fn mend_items(data_type: &DataType, value: &mut OwnedValue)
    ensures
        match document(*old(value)) {
            Json::Array(items) => document(*final(value)) == Json::Array(
                Seq::new(items.len(), |i: int| mended(arrow_type(*data_type), items[i])),
            ),
            _ => document(*final(value)) == document(*old(value)),
        },
    decreases arrow_type(*data_type), 3int,
{
    let count: usize = match open_value(&*value) {
        ValueNode::Array(items) => items.len(),
        _ => {
            return;
        },
    };
    let ghost items = document(*value)->Array_0;
    let ghost after = Seq::new(items.len(), |i: int| mended(arrow_type(*data_type), items[i]));
    let mut index: usize = 0;
    assert(after.take(0) + items.skip(0) =~= items);
    while index < count
        invariant
            index <= count == items.len(),
            document(*old(value)) == Json::Array(items),
            after == Seq::new(items.len(), |i: int| mended(arrow_type(*data_type), items[i])),
            document(*value) == Json::Array(after.take(index as int) + items.skip(index as int)),
        decreases count - index,
    {
        let ghost before = after.take(index as int) + items.skip(index as int);
        mend(data_type, item_mut(value, index));
        assert(before[index as int] == items[index as int]);
        assert(before.update(index as int, after[index as int]) =~= after.take(index + 1)
            + items.skip(index + 1));
        index = index + 1;
    }
    assert(after.take(index as int) + items.skip(index as int) =~= after);
}

/// Replaces what does not fit in a map whose entries are of a data type.
fn mend_entries(
    entries: &DataType,
    value: &mut OwnedValue,
    Ghost(field): Ghost<ArrowField>,
    Ghost(sorted): Ghost<bool>,
)
    requires
        field.data_type == arrow_type(*entries),
    ensures
        document(*final(value)) == mended(
            ArrowType::Mapping(Box::new(field), sorted),
            document(*old(value)),
        ),
    decreases arrow_type(*entries), 3int,
{
    let pair = match open_type(entries) {
        TypeNode::Struct(pair) => pair,
        _ => {
            return;
        },
    };
    if pair.len() != 2 {
        return;
    }
    let ghost inner = arrow_fields_of(pair@);
    assert(inner[0] == arrow_field(*pair@[0]));
    assert(inner[1] == arrow_field(*pair@[1]));
    proof {
        lemma_struct_part(inner, 1);
    }
    let (count, fit) = match open_value(&*value) {
        ValueNode::Object(members) => (members.len(), do_keys_fit(field_type(pair[0]), &members)),
        _ => {
            return;
        },
    };
    if !fit {
        set_member(value, "?");
        return;
    }
    let ghost members = document(*value)->Object_0;
    let ghost after = Seq::new(
        members.len(),
        |i: int| (members[i].0, mended(inner[1].data_type, members[i].1)),
    );
    let mut index: usize = 0;
    assert(after.take(0) + members.skip(0) =~= members);
    while index < count
        invariant
            index <= count == members.len(),
            pair@.len() == 2,
            inner[1] == arrow_field(*pair@[1]),
            decreases_to!(arrow_type(*entries) => inner[1].data_type),
            document(*old(value)) == Json::Object(members),
            after == Seq::new(
                members.len(),
                |i: int| (members[i].0, mended(inner[1].data_type, members[i].1)),
            ),
            document(*value) == Json::Object(
                after.take(index as int) + members.skip(index as int),
            ),
        decreases count - index,
    {
        let ghost before = after.take(index as int) + members.skip(index as int);
        mend(field_type(pair[1]), member_mut(value, index));
        assert(before[index as int] == members[index as int]);
        assert(before.update(index as int, after[index as int]) =~= after.take(index + 1)
            + members.skip(index + 1));
        index = index + 1;
    }
    assert(after.take(index as int) + members.skip(index as int) =~= after);
    proof {
        let whole = ArrowType::Mapping(Box::new(field), sorted);
        assert(mended(whole, Json::Object(members))->Object_0 =~= after);
    }
}

/// Replaces what does not fit among the members of an object.
pub(crate) fn mend_members(fields: &Vec<&Field>, value: &mut OwnedValue)
    ensures
        document(*final(value)) == mended(
            ArrowType::Struct(arrow_fields_of(fields@)),
            document(*old(value)),
        ),
    decreases ArrowType::Struct(arrow_fields_of(fields@)), 0int,
{
    let ghost inner = arrow_fields_of(fields@);
    let takers = match open_value(&*value) {
        ValueNode::Object(members) => find_takers(fields, &members),
        _ => {
            return;
        },
    };
    let ghost members = document(*value)->Object_0;
    let ghost after = mended(ArrowType::Struct(inner), document(*value))->Object_0;
    let count: usize = takers.len();
    let mut index: usize = 0;
    assert(after.take(0) + members.skip(0) =~= members);
    while index < count
        invariant
            index <= count == members.len(),
            count == takers@.len(),
            inner == arrow_fields_of(fields@),
            document(*old(value)) == Json::Object(members),
            after == mended(ArrowType::Struct(inner), Json::Object(members))->Object_0,
            after.len() == members.len(),
            document(*value) == Json::Object(
                after.take(index as int) + members.skip(index as int),
            ),
            forall|j: int|
                0 <= j < members.len() ==> match #[trigger] takers@[j] {
                    Some(i) => takes(inner, members, i as int, j),
                    None => forall|i: int| !takes(inner, members, i, j),
                },
        decreases count - index,
    {
        let ghost before = after.take(index as int) + members.skip(index as int);
        let ghost j = index as int;
        assert(before[j] == members[j]);
        match takers[index] {
            Some(field) => {
                proof {
                    assert(takes(inner, members, field as int, j));
                    let taker = choose|i: int| takes(inner, members, i, j);
                    lemma_one_taker(inner, members, field as int, taker, j);
                    lemma_struct_part(inner, field as int);
                    assert(inner[field as int] == arrow_field(*fields@[field as int]));
                }
                mend(field_type(fields[field]), member_mut(value, index));
                assert(before.update(j, after[j]) =~= after.take(j + 1) + members.skip(j + 1));
            },
            None => {
                assert(after[j] == members[j]);
                assert(before =~= after.take(j + 1) + members.skip(j + 1));
            },
        }
        index = index + 1;
    }
    assert(after.take(index as int) + members.skip(index as int) =~= after);
}

/// Replaces what does not fit in a column of a data type.
fn mend(data_type: &DataType, value: &mut OwnedValue)
    ensures
        document(*final(value)) == mended(arrow_type(*data_type), document(*old(value))),
    decreases arrow_type(*data_type), 1int,
{
    match open_type(data_type) {
        TypeNode::FixedBytes(_) => {
            let fit: bool = match open_value(&*value) {
                ValueNode::Text(_) | ValueNode::Null => true,
                _ => false,
            };
            if !fit {
                refuse(value);
            }
        },
        TypeNode::Decimal(precision, scale) => {
            let fit: bool = match open_value(&*value) {
                ValueNode::Text(text) => is_decimal_text(text, precision, scale),
                _ => match to_float_text(&*value) {
                    Some(text) => is_decimal_text(text.as_str(), precision, scale),
                    None => true,
                },
            };
            if !fit {
                refuse(value);
            }
        },
        TypeNode::List(field) => {
            proof {
                lemma_list_part(arrow_field(*field));
            }
            let ghost before = document(*value);
            mend_items(field_type(field), value);
            assert(before is Array ==> document(*value)->Array_0 =~= mended(
                arrow_type(*data_type),
                before,
            )->Array_0);
        },
        TypeNode::LargeList(field) => {
            proof {
                lemma_list_part(arrow_field(*field));
            }
            let ghost before = document(*value);
            mend_items(field_type(field), value);
            assert(before is Array ==> document(*value)->Array_0 =~= mended(
                arrow_type(*data_type),
                before,
            )->Array_0);
        },
        TypeNode::Mapping(field, sorted) => {
            proof {
                lemma_map_part(arrow_field(*field), sorted);
            }
            mend_entries(field_type(field), value, Ghost(arrow_field(*field)), Ghost(sorted));
        },
        TypeNode::Struct(fields) => mend_members(&fields, value),
        TypeNode::Leaf => {},
    }
}

/// Whatever documents a schema was inferred from, every document can be decoded under it as far as
/// the types of its columns go, there is a decoder for it, and Fluss can be asked for its types.
pub proof fn lemma_inferred_decodable(data_type: ArrowType, document: Json)
    requires
        inferable(data_type),
    ensures
        sound_type(data_type),
        common_type(data_type),
        convertible(data_type),
        decodable(data_type, document),
    decreases data_type,
{
    match data_type {
        ArrowType::List(field) => {
            lemma_inferred_decodable(field.data_type, document);
            if let Json::Array(items) = document {
                assert forall|i: int| 0 <= i < items.len() implies decodable(
                    field.data_type,
                    #[trigger] items[i],
                ) by {
                    lemma_inferred_decodable(field.data_type, items[i]);
                }
                lemma_list_values(*field, items, fitting());
            }
        },
        ArrowType::Struct(fields) => {
            assert forall|i: int| 0 <= i < fields.len() implies sound_type(
                (#[trigger] fields[i]).data_type,
            ) && common_type(fields[i].data_type) && convertible(fields[i].data_type) by {
                lemma_inferred_decodable(fields[i].data_type, document);
            }
            if let Json::Object(members) = document {
                assert forall|i: int, j: int| #[trigger] takes(fields, members, i, j) implies decodable(
                    fields[i].data_type,
                    members[j].1,
                ) by {
                    lemma_inferred_decodable(fields[i].data_type, members[j].1);
                }
            }
        },
        _ => {},
    }
}

} // verus!
