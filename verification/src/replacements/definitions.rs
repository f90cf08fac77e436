//! The replacement tables: by block id, then by data value, the list of
//! replacements to make.

use crate::replacements::key::ValOrAny;
use vstd::prelude::*;

verus! {

/// One named replacement.
#[derive(Debug, PartialEq, Eq)]
pub struct BlockReplacement {
    pub title: String,
    pub to_id: Option<i64>,
    pub to_data: Option<i64>,
    pub add_data: Option<i64>,
    pub delete: bool,
    /// Tags that a block must have, each with its value as JSON text.
    pub from_nbt: Vec<(String, String)>,
    /// Tags that the block is given, each with its value as JSON text.
    pub to_nbt: Vec<(String, String)>,
}

/// A replacement as a plain value.
pub struct BlockReplacementView {
    pub title: Seq<char>,
    pub to_id: Option<i64>,
    pub to_data: Option<i64>,
    pub add_data: Option<i64>,
    pub delete: bool,
    pub from_nbt: Seq<(Seq<char>, Seq<char>)>,
    pub to_nbt: Seq<(Seq<char>, Seq<char>)>,
}

/// Tags as plain values.
pub open spec fn tag_views(tags: Seq<(String, String)>) -> Seq<(Seq<char>, Seq<char>)> {
    Seq::new(tags.len(), |i: int| (tags[i].0@, tags[i].1@))
}

impl View for BlockReplacement {
    type V = BlockReplacementView;

    open spec fn view(&self) -> BlockReplacementView {
        BlockReplacementView {
            title: self.title@,
            to_id: self.to_id,
            to_data: self.to_data,
            add_data: self.add_data,
            delete: self.delete,
            from_nbt: tag_views(self.from_nbt@),
            to_nbt: tag_views(self.to_nbt@),
        }
    }
}

/// Replacements as plain values.
pub open spec fn replacement_views(list: Seq<BlockReplacement>) -> Seq<BlockReplacementView> {
    Seq::new(list.len(), |i: int| list[i]@)
}

/// The replacements for one data value of a block.
#[derive(Debug, PartialEq, Eq)]
pub struct BlockData {
    pub data: ValOrAny,
    pub block_replacement: Vec<BlockReplacement>,
}

/// The replacements for one data value, as a plain value.
pub struct BlockDataView {
    pub data: ValOrAny,
    pub block_replacement: Seq<BlockReplacementView>,
}

impl View for BlockData {
    type V = BlockDataView;

    open spec fn view(&self) -> BlockDataView {
        BlockDataView {
            data: self.data,
            block_replacement: replacement_views(self.block_replacement@),
        }
    }
}

/// The data values of a list of entries, in the order of the list.
pub open spec fn data_keys(list: Seq<BlockData>) -> Seq<ValOrAny> {
    Seq::new(list.len(), |i: int| list[i].data)
}

/// The replacements for one block id: at most one entry for each data value.
#[derive(Debug, PartialEq, Eq)]
pub struct BlockId {
    pub id: ValOrAny,
    pub block_data: Vec<BlockData>,
}

/// The replacements for one block id, as a plain value: a map from data
/// values to their entries.
pub struct BlockIdView {
    pub id: ValOrAny,
    pub block_data: Map<ValOrAny, BlockDataView>,
}

impl View for BlockId {
    type V = BlockIdView;

    open spec fn view(&self) -> BlockIdView {
        let keys = data_keys(self.block_data@);
        BlockIdView {
            id: self.id,
            block_data: Map::new(
                |k: ValOrAny| keys.contains(k),
                |k: ValOrAny| self.block_data@[keys.index_of(k)]@,
            ),
        }
    }
}

impl BlockId {
    /// No data value has two entries.
    pub open spec fn wf(self) -> bool {
        data_keys(self.block_data@).no_duplicates()
    }

    /// The table for block id `id`, without entries.
    pub fn new(id: ValOrAny) -> (r: BlockId)
        ensures
            r.wf(),
            r@ == (BlockIdView { id, block_data: Map::empty() }),
    {
        let r = BlockId { id, block_data: Vec::new() };
        assert(r@.block_data =~= Map::empty());
        r
    }

    /// Puts `value` under its data value, in place of an entry that is
    /// already there.
    pub fn insert(&mut self, value: BlockData)
        requires
            old(self).wf(),
        ensures
            final(self).wf(),
            final(self)@ == (BlockIdView {
                id: old(self)@.id,
                block_data: old(self)@.block_data.insert(value.data, value@),
            }),
    {
        let ghost before = self.block_data@;
        let ghost entry = value@;
        let key: ValOrAny = value.data;
        let mut index: usize = 0;
        while index < self.block_data.len()
            invariant
                index <= self.block_data@.len(),
                self.block_data@ == before,
                before == old(self).block_data@,
                self.id == old(self).id,
                key == value.data,
                entry == value@,
                data_keys(before).no_duplicates(),
                forall|j: int| 0 <= j < index ==> before[j].data != key,
            decreases self.block_data@.len() - index,
        {
            if self.block_data[index].data == key {
                self.block_data[index] = value;
                proof {
                    let after = self.block_data@;
                    assert(data_keys(after) =~= data_keys(before));
                    assert(data_keys(before)[index as int] == key);
                    assert forall|k: ValOrAny| data_keys(before).contains(k) implies #[trigger]
                        self@.block_data[k] == old(self)@.block_data.insert(key, entry)[k] by {
                        let i = data_keys(before).index_of(k);
                        assert(data_keys(before)[i] == k);
                    }
                    assert(self@.block_data =~= old(self)@.block_data.insert(key, entry));
                }
                return ;
            }
            index += 1;
        }
        self.block_data.push(value);
        proof {
            let after = self.block_data@;
            let keys = data_keys(before);
            assert(data_keys(after) =~= keys.push(key));
            assert(!keys.contains(key));
            assert(data_keys(after)[keys.len() as int] == key);
            assert forall|k: ValOrAny| data_keys(after).contains(k) implies #[trigger]
                self@.block_data[k] == old(self)@.block_data.insert(key, entry)[k] by {
                let i = data_keys(after).index_of(k);
                assert(data_keys(after)[i] == k);
                if k != key {
                    assert(keys[i] == k);
                    let j = keys.index_of(k);
                    assert(keys[j] == k);
                }
            }
            assert forall|k: ValOrAny| keys.contains(k) implies data_keys(after).contains(k) by {
                let j = keys.index_of(k);
                assert(data_keys(after)[j] == k);
            }
            assert(self@.block_data =~= old(self)@.block_data.insert(key, entry));
        }
    }

    /// The entry for data value `key`, if there is one.
    pub fn get(&self, key: ValOrAny) -> (r: Option<&BlockData>)
        requires
            self.wf(),
        ensures
            match r {
                Some(entry) => self@.block_data.contains_key(key) && self@.block_data[key]
                    == entry@,
                None => !self@.block_data.contains_key(key),
            },
    {
        let mut index: usize = 0;
        while index < self.block_data.len()
            invariant
                index <= self.block_data@.len(),
                self.wf(),
                forall|j: int| 0 <= j < index ==> self.block_data@[j].data != key,
            decreases self.block_data@.len() - index,
        {
            if self.block_data[index].data == key {
                proof {
                    let keys = data_keys(self.block_data@);
                    assert(keys[index as int] == key);
                    let i = keys.index_of(key);
                    assert(keys[i] == key);
                }
                return Some(&self.block_data[index]);
            }
            index += 1;
        }
        proof {
            let keys = data_keys(self.block_data@);
            if keys.contains(key) {
                let i = keys.index_of(key);
                assert(keys[i] == key);
            }
        }
        None
    }
}

/// The block ids of a list of tables, in the order of the list.
pub open spec fn id_keys(list: Seq<BlockId>) -> Seq<ValOrAny> {
    Seq::new(list.len(), |i: int| list[i].id)
}

/// All replacements: at most one table for each block id.
#[derive(Debug, PartialEq, Eq)]
pub struct Replacements {
    pub blocks: Vec<BlockId>,
}

/// All replacements as a plain value: a map from block ids to their tables.
pub struct ReplacementsView {
    pub blocks: Map<ValOrAny, BlockIdView>,
}

impl View for Replacements {
    type V = ReplacementsView;

    open spec fn view(&self) -> ReplacementsView {
        let keys = id_keys(self.blocks@);
        ReplacementsView {
            blocks: Map::new(
                |k: ValOrAny| keys.contains(k),
                |k: ValOrAny| self.blocks@[keys.index_of(k)]@,
            ),
        }
    }
}

impl Replacements {
    /// No block id has two tables, and no table two entries for a data value.
    pub open spec fn wf(self) -> bool {
        &&& id_keys(self.blocks@).no_duplicates()
        &&& forall|i: int| 0 <= i < self.blocks@.len() ==> (#[trigger] self.blocks@[i]).wf()
    }

    /// No replacements at all.
    pub fn new() -> (r: Replacements)
        ensures
            r.wf(),
            r@.blocks == Map::<ValOrAny, BlockIdView>::empty(),
    {
        let r = Replacements { blocks: Vec::new() };
        assert(r@.blocks =~= Map::empty());
        r
    }

    /// Puts `value` under its block id, in place of a table that is already
    /// there.
    pub fn insert(&mut self, value: BlockId)
        requires
            old(self).wf(),
            value.wf(),
        ensures
            final(self).wf(),
            final(self)@.blocks == old(self)@.blocks.insert(value.id, value@),
    {
        let ghost before = self.blocks@;
        let ghost entry = value@;
        let key: ValOrAny = value.id;
        let mut index: usize = 0;
        while index < self.blocks.len()
            invariant
                index <= self.blocks@.len(),
                self.blocks@ == before,
                before == old(self).blocks@,
                key == value.id,
                entry == value@,
                id_keys(before).no_duplicates(),
                value.wf(),
                forall|i: int| 0 <= i < before.len() ==> (#[trigger] before[i]).wf(),
                forall|j: int| 0 <= j < index ==> before[j].id != key,
            decreases self.blocks@.len() - index,
        {
            if self.blocks[index].id == key {
                self.blocks[index] = value;
                proof {
                    let after = self.blocks@;
                    assert(id_keys(after) =~= id_keys(before));
                    assert(id_keys(before)[index as int] == key);
                    assert forall|k: ValOrAny| id_keys(before).contains(k) implies #[trigger]
                        self@.blocks[k] == old(self)@.blocks.insert(key, entry)[k] by {
                        let i = id_keys(before).index_of(k);
                        assert(id_keys(before)[i] == k);
                    }
                    assert(self@.blocks =~= old(self)@.blocks.insert(key, entry));
                }
                return ;
            }
            index += 1;
        }
        self.blocks.push(value);
        proof {
            let after = self.blocks@;
            let keys = id_keys(before);
            assert(id_keys(after) =~= keys.push(key));
            assert(!keys.contains(key));
            assert(id_keys(after)[keys.len() as int] == key);
            assert forall|k: ValOrAny| id_keys(after).contains(k) implies #[trigger]
                self@.blocks[k] == old(self)@.blocks.insert(key, entry)[k] by {
                let i = id_keys(after).index_of(k);
                assert(id_keys(after)[i] == k);
                if k != key {
                    assert(keys[i] == k);
                    let j = keys.index_of(k);
                    assert(keys[j] == k);
                }
            }
            assert forall|k: ValOrAny| keys.contains(k) implies id_keys(after).contains(k) by {
                let j = keys.index_of(k);
                assert(id_keys(after)[j] == k);
            }
            assert(self@.blocks =~= old(self)@.blocks.insert(key, entry));
        }
    }

    /// The table for block id `key`, if there is one.
    pub fn get(&self, key: ValOrAny) -> (r: Option<&BlockId>)
        requires
            self.wf(),
        ensures
            match r {
                Some(table) => self@.blocks.contains_key(key) && self@.blocks[key] == table@,
                None => !self@.blocks.contains_key(key),
            },
    {
        let mut index: usize = 0;
        while index < self.blocks.len()
            invariant
                index <= self.blocks@.len(),
                self.wf(),
                forall|j: int| 0 <= j < index ==> self.blocks@[j].id != key,
            decreases self.blocks@.len() - index,
        {
            if self.blocks[index].id == key {
                proof {
                    let keys = id_keys(self.blocks@);
                    assert(keys[index as int] == key);
                    let i = keys.index_of(key);
                    assert(keys[i] == key);
                }
                return Some(&self.blocks[index]);
            }
            index += 1;
        }
        proof {
            let keys = id_keys(self.blocks@);
            if keys.contains(key) {
                let i = keys.index_of(key);
                assert(keys[i] == key);
            }
        }
        None
    }
}

} // verus!
