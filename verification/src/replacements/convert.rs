//! From loosely typed JSON to the replacement tables.
//!
//! The JSON is an object of block ids; under each id an object of data
//! values; under each data value either one replacement or an object of
//! named replacements. Ids and data values are numbers in decimal, or `*`.

use crate::replacements::definitions::{
    replacement_views, tag_views, BlockData, BlockDataView, BlockId, BlockIdView,
    BlockReplacement, BlockReplacementView, Replacements, ReplacementsView,
};
use crate::replacements::json::JsonValue;
use crate::replacements::key::ValOrAny;
use vstd::prelude::*;
use vstd::string::StringExecFns;

verus! {

impl BlockReplacement {
    /// The replacement that `data` describes. Without a title it is named
    /// by the texts of its `toID` and `toData` members, with a colon between.
    pub open spec fn spec_new(title: Option<Seq<char>>, data: JsonValue) -> BlockReplacementView {
        BlockReplacementView {
            title: match title {
                Some(t) => t,
                None => data.member_text("toID"@) + ":"@ + data.member_text("toData"@),
            },
            to_id: data.member_i64("toID"@),
            to_data: data.member_i64("toData"@),
            add_data: data.member_i64("adjustData"@),
            delete: match data.member_bool("delete"@) {
                Some(b) => b,
                None => false,
            },
            from_nbt: data.member_object("fromNBT"@),
            to_nbt: data.member_object("toNBT"@),
        }
    }

    /// Reads a replacement from its JSON description. A member that is
    /// absent, or of another type than is asked for, counts as not given.
    pub fn new(title: Option<String>, block_rep_data: &JsonValue) -> (r: BlockReplacement)
        ensures
            r@ == Self::spec_new(
                match title {
                    Some(t) => Some(t@),
                    None => None,
                },
                *block_rep_data,
            ),
    {
        let from_nbt: Vec<(String, String)> = member_tags(block_rep_data, "fromNBT");
        let to_nbt: Vec<(String, String)> = member_tags(block_rep_data, "toNBT");
        // If no title was provided then default to the id and data values.
        let replace_title: String = match title {
            Some(s) => s,
            None => {
                let mut s: String = String::new();
                s.append(member_text(block_rep_data, "toID"));
                s.append(":");
                s.append(member_text(block_rep_data, "toData"));
                assert(s@ =~= block_rep_data.member_text("toID"@) + ":"@
                    + block_rep_data.member_text("toData"@));
                s
            },
        };
        BlockReplacement {
            title: replace_title,
            to_id: member_i64(block_rep_data, "toID"),
            to_data: member_i64(block_rep_data, "toData"),
            add_data: member_i64(block_rep_data, "adjustData"),
            delete: match member_bool(block_rep_data, "delete") {
                Some(b) => b,
                None => false,
            },
            from_nbt,
            to_nbt,
        }
    }
}

/// The text of the member of `data` named `name`, or `null` in its absence.
fn member_text<'a>(data: &'a JsonValue, name: &str) -> (r: &'a str)
    ensures
        r@ == data.member_text(name@),
{
    match data.member(name) {
        Some(v) => v.text.as_str(),
        None => "null",
    }
}

/// The member of `data` named `name` as an integer.
fn member_i64(data: &JsonValue, name: &str) -> (r: Option<i64>)
    ensures
        r == data.member_i64(name@),
{
    match data.member(name) {
        Some(v) => v.as_i64,
        None => None,
    }
}

/// The member of `data` named `name` as a truth value.
fn member_bool(data: &JsonValue, name: &str) -> (r: Option<bool>)
    ensures
        r == data.member_bool(name@),
{
    match data.member(name) {
        Some(v) => v.as_bool,
        None => None,
    }
}

/// The members of the object that is the member of `data` named `name`.
fn member_tags(data: &JsonValue, name: &str) -> (r: Vec<(String, String)>)
    ensures
        tag_views(r@) == data.member_object(name@),
{
    let mut tags: Vec<(String, String)> = Vec::new();
    match data.member(name) {
        Some(v) => match &v.entries {
            Some(members) => {
                let mut index: usize = 0;
                while index < members.len()
                    invariant
                        index <= members@.len(),
                        tags@.len() == index,
                        forall|j: int|
                            0 <= j < index ==> (#[trigger] tags@[j]).0@ == members@[j].0@
                                && tags@[j].1@ == members@[j].1.text@,
                    decreases members@.len() - index,
                {
                    tags.push((members[index].0.clone(), members[index].1.text.clone()));
                    index += 1;
                }
            },
            None => {},
        },
        None => {},
    }
    assert(tag_views(tags@) =~= data.member_object(name@));
    tags
}

/// The replacements under one data value. When the first member of `node`
/// is an object, every member is a replacement named by its key; otherwise
/// `node` itself is the one replacement.
pub open spec fn spec_replacement_list(node: JsonValue) -> Seq<BlockReplacementView>
    recommends
        node.entries matches Some(members) && members@.len() > 0,
{
    let members = node.entries->0@;
    if members[0].1.spec_is_object() {
        Seq::new(
            members.len(),
            |i: int| BlockReplacement::spec_new(Some(members[i].0@), members[i].1),
        )
    } else {
        seq![BlockReplacement::spec_new(None, node)]
    }
}

/// The entry for the data value that `name` spells.
pub open spec fn spec_block_data(name: Seq<char>, node: JsonValue) -> BlockDataView {
    BlockDataView {
        data: ValOrAny::spec_from_key(name)->0,
        block_replacement: spec_replacement_list(node),
    }
}

/// The entries that the first `n` members of a block's object give. A later
/// member takes the place of an earlier one that spells the same data value.
pub open spec fn spec_data_map(members: Seq<(String, JsonValue)>, n: nat) -> Map<
    ValOrAny,
    BlockDataView,
>
    decreases n,
{
    if n == 0 {
        Map::empty()
    } else {
        let entry = spec_block_data(members[n - 1].0@, members[n - 1].1);
        spec_data_map(members, (n - 1) as nat).insert(entry.data, entry)
    }
}

/// The table for the block id that `name` spells.
pub open spec fn spec_block_id(name: Seq<char>, node: JsonValue) -> BlockIdView {
    BlockIdView {
        id: ValOrAny::spec_from_key(name)->0,
        block_data: spec_data_map(node.entries->0@, node.entries->0@.len()),
    }
}

/// The tables that the first `n` members of the top object give. A later
/// member takes the place of an earlier one that spells the same block id.
pub open spec fn spec_block_map(members: Seq<(String, JsonValue)>, n: nat) -> Map<
    ValOrAny,
    BlockIdView,
>
    decreases n,
{
    if n == 0 {
        Map::empty()
    } else {
        let table = spec_block_id(members[n - 1].0@, members[n - 1].1);
        spec_block_map(members, (n - 1) as nat).insert(table.id, table)
    }
}

/// The replacement tables that `values` describes.
pub open spec fn spec_convert(values: JsonValue) -> ReplacementsView {
    ReplacementsView { blocks: spec_block_map(values.entries->0@, values.entries->0@.len()) }
}

/// Whether `node` can stand under a block id: it is an object, each of its
/// keys spells a data value, and each of its members is an object with at
/// least one member.
pub open spec fn convertible_block(node: JsonValue) -> bool {
    node.entries matches Some(members) && forall|j: int|
        0 <= j < members@.len() ==> ValOrAny::spec_from_key((#[trigger] members@[j]).0@) is Some
            && (members@[j].1.entries matches Some(inner) && inner@.len() > 0)
}

/// Whether `values` describes replacement tables: it is an object, each of
/// its keys spells a block id, and each of its members can stand under one.
pub open spec fn convertible(values: JsonValue) -> bool {
    values.entries matches Some(members) && forall|i: int|
        0 <= i < members@.len() ==> ValOrAny::spec_from_key((#[trigger] members@[i]).0@) is Some
            && convertible_block(members@[i].1)
}

/// Tells whether `node` can stand under a block id.
fn is_convertible_block(node: &JsonValue) -> (b: bool)
    ensures
        b == convertible_block(*node),
{
    match &node.entries {
        None => false,
        Some(members) => {
            let mut index: usize = 0;
            while index < members.len()
                invariant
                    index <= members@.len(),
                    node.entries == Some(*members),
                    forall|j: int|
                        0 <= j < index ==> ValOrAny::spec_from_key((#[trigger] members@[j]).0@)
                            is Some && (members@[j].1.entries matches Some(inner) && inner@.len()
                            > 0),
                decreases members@.len() - index,
            {
                if ValOrAny::from_key(members[index].0.as_str()).is_none() {
                    return false;
                }
                match &members[index].1.entries {
                    None => {
                        return false;
                    },
                    Some(inner) => {
                        if inner.len() == 0 {
                            return false;
                        }
                    },
                }
                index += 1;
            }
            true
        },
    }
}

/// Tells whether `values` describes replacement tables, that is whether
/// `convert_json_dirty` takes it.
pub fn is_convertible(values: &JsonValue) -> (b: bool)
    ensures
        b == convertible(*values),
{
    match &values.entries {
        None => false,
        Some(members) => {
            let mut index: usize = 0;
            while index < members.len()
                invariant
                    index <= members@.len(),
                    values.entries == Some(*members),
                    forall|i: int|
                        0 <= i < index ==> ValOrAny::spec_from_key((#[trigger] members@[i]).0@)
                            is Some && convertible_block(members@[i].1),
                decreases members@.len() - index,
            {
                if ValOrAny::from_key(members[index].0.as_str()).is_none() {
                    return false;
                }
                if !is_convertible_block(&members[index].1) {
                    return false;
                }
                index += 1;
            }
            true
        },
    }
}

/// Reads the replacements under one data value.
fn convert_replacements(node: &JsonValue) -> (list: Vec<BlockReplacement>)
    requires
        node.entries matches Some(members) && members@.len() > 0,
    ensures
        replacement_views(list@) == spec_replacement_list(*node),
{
    let mut list: Vec<BlockReplacement> = Vec::new();
    match &node.entries {
        Some(members) => {
            // An object inside the object means that there are several named
            // replacements: add them all.
            if members[0].1.is_object() {
                let mut index: usize = 0;
                while index < members.len()
                    invariant
                        index <= members@.len(),
                        list@.len() == index,
                        forall|j: int|
                            0 <= j < index ==> (#[trigger] list@[j])@ == BlockReplacement::spec_new(
                                Some(members@[j].0@),
                                members@[j].1,
                            ),
                    decreases members@.len() - index,
                {
                    list.push(
                        BlockReplacement::new(Some(members[index].0.clone()), &members[index].1),
                    );
                    index += 1;
                }
            } else {
                list.push(BlockReplacement::new(None, node));
            }
        },
        None => {},
    }
    assert(replacement_views(list@) =~= spec_replacement_list(*node));
    list
}

/// Reads the table of one block id.
fn convert_block(name: &str, node: &JsonValue) -> (table: BlockId)
    requires
        ValOrAny::spec_from_key(name@) is Some,
        convertible_block(*node),
    ensures
        table.wf(),
        table@ == spec_block_id(name@, *node),
{
    let mut table: BlockId = BlockId::new(ValOrAny::from_key(name).unwrap());
    match &node.entries {
        Some(members) => {
            let mut index: usize = 0;
            while index < members.len()
                invariant
                    index <= members@.len(),
                    node.entries == Some(*members),
                    convertible_block(*node),
                    table.wf(),
                    table@.id == ValOrAny::spec_from_key(name@)->0,
                    table@.block_data == spec_data_map(members@, index as nat),
                decreases members@.len() - index,
            {
                let key: ValOrAny = ValOrAny::from_key(members[index].0.as_str()).unwrap();
                let block_replacement: Vec<BlockReplacement> = convert_replacements(
                    &members[index].1,
                );
                table.insert(BlockData { data: key, block_replacement });
                index += 1;
            }
        },
        None => {},
    }
    table
}

/// Converts loosely typed JSON to the replacement tables. The JSON has to
/// be of the shape that `is_convertible` tells.
pub fn convert_json_dirty(values: JsonValue) -> (replace_obj: Replacements)
    requires
        convertible(values),
    ensures
        replace_obj.wf(),
        replace_obj@ == spec_convert(values),
{
    let mut replace_obj: Replacements = Replacements::new();
    match &values.entries {
        Some(members) => {
            let mut index: usize = 0;
            while index < members.len()
                invariant
                    index <= members@.len(),
                    values.entries == Some(*members),
                    convertible(values),
                    replace_obj.wf(),
                    replace_obj@.blocks == spec_block_map(members@, index as nat),
                decreases members@.len() - index,
            {
                let table: BlockId = convert_block(members[index].0.as_str(), &members[index].1);
                replace_obj.insert(table);
                index += 1;
            }
        },
        None => {},
    }
    replace_obj
}

/// Index of the last of the first `n` members whose key spells `key`.
pub open spec fn last_spelling(members: Seq<(String, JsonValue)>, key: ValOrAny, n: nat) -> Option<
    int,
>
    decreases n,
{
    if n == 0 {
        None
    } else if ValOrAny::spec_from_key(members[n - 1].0@) == Some(key) {
        Some(n - 1)
    } else {
        last_spelling(members, key, (n - 1) as nat)
    }
}

/// The tables hold one table for each block id that a key spells, read from
/// the last member whose key spells it, and none for any other id.
pub proof fn lemma_block_map_holds_last_spelling(
    members: Seq<(String, JsonValue)>,
    n: nat,
    key: ValOrAny,
)
    requires
        n <= members.len(),
        forall|i: int| 0 <= i < n ==> ValOrAny::spec_from_key((#[trigger] members[i]).0@) is Some,
    ensures
        match last_spelling(members, key, n) {
            Some(i) => spec_block_map(members, n).contains_key(key) && spec_block_map(
                members,
                n,
            )[key] == spec_block_id(members[i].0@, members[i].1),
            None => !spec_block_map(members, n).contains_key(key),
        },
    decreases n,
{
    if n > 0 {
        lemma_block_map_holds_last_spelling(members, (n - 1) as nat, key);
        assert(ValOrAny::spec_from_key(members[n - 1].0@) is Some);
    }
}

/// A table holds one entry for each data value that a key spells, read from
/// the last member whose key spells it, and none for any other value.
pub proof fn lemma_data_map_holds_last_spelling(
    members: Seq<(String, JsonValue)>,
    n: nat,
    key: ValOrAny,
)
    requires
        n <= members.len(),
        forall|i: int| 0 <= i < n ==> ValOrAny::spec_from_key((#[trigger] members[i]).0@) is Some,
    ensures
        match last_spelling(members, key, n) {
            Some(i) => spec_data_map(members, n).contains_key(key) && spec_data_map(
                members,
                n,
            )[key] == spec_block_data(members[i].0@, members[i].1),
            None => !spec_data_map(members, n).contains_key(key),
        },
    decreases n,
{
    if n > 0 {
        lemma_data_map_holds_last_spelling(members, (n - 1) as nat, key);
        assert(ValOrAny::spec_from_key(members[n - 1].0@) is Some);
    }
}

} // verus!
