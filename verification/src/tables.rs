//! A table of byte strings under byte strings, as the classifier's maps are
//! seen from user space, and the three tables together.
//!
//! This is the model that the reference classifier runs on. Writes that the
//! rule table plans can be carried out on it as they are on the kernel maps.

use crate::error::GuardError;
use crate::maps::{
    add_check, add_ops, add_result, delete_ops, delete_result, has_label, label_index, ops_view,
    FilterRule, MapManager, MapOp, MapOpView, MapTable,
};
use crate::writes::{lemma_run_ends, WriteRun};
use vstd::prelude::*;

verus! {

/// One entry of a table.
pub struct Entry {
    pub key: Vec<u8>,
    pub value: Vec<u8>,
}

/// What an entry holds.
pub struct EntryView {
    pub key: Seq<u8>,
    pub value: Seq<u8>,
}

impl View for Entry {
    type V = EntryView;

    open spec fn view(&self) -> EntryView {
        EntryView { key: self.key@, value: self.value@ }
    }
}

/// What each of `entries` holds.
pub open spec fn entries_view(entries: Seq<Entry>) -> Seq<EntryView> {
    Seq::new(entries.len(), |i: int| entries[i]@)
}

/// The least index of an entry under `key`, or the number of entries where
/// there is none.
pub open spec fn key_index(entries: Seq<EntryView>, key: Seq<u8>) -> int
    decreases entries.len(),
{
    if entries.len() == 0 || entries[0].key == key {
        0
    } else {
        1 + key_index(entries.drop_first(), key)
    }
}

/// Whether the table holds an entry under `key`.
pub open spec fn holds(entries: Seq<EntryView>, key: Seq<u8>) -> bool {
    key_index(entries, key) < entries.len()
}

/// What the table holds under `key`.
pub open spec fn value_at(entries: Seq<EntryView>, key: Seq<u8>) -> Option<Seq<u8>> {
    if holds(entries, key) {
        Some(entries[key_index(entries, key)].value)
    } else {
        None
    }
}

/// Whether no two entries share a key.
pub open spec fn keys_distinct(entries: Seq<EntryView>) -> bool {
    forall|i: int, j: int|
        0 <= i < entries.len() && 0 <= j < entries.len() && i != j ==> entries[i].key
            != entries[j].key
}

/// The table after `value` was put under `key`: over what stood there, or
/// at the end.
pub open spec fn updated(entries: Seq<EntryView>, key: Seq<u8>, value: Seq<u8>) -> Seq<EntryView> {
    if holds(entries, key) {
        entries.update(key_index(entries, key), EntryView { key, value })
    } else {
        entries.push(EntryView { key, value })
    }
}

/// The table after what stood under `key` was removed.
pub open spec fn deleted(entries: Seq<EntryView>, key: Seq<u8>) -> Seq<EntryView> {
    if holds(entries, key) {
        entries.remove(key_index(entries, key))
    } else {
        entries
    }
}

/// `key_index` gives the first entry under the key.
pub proof fn lemma_key_index(entries: Seq<EntryView>, key: Seq<u8>)
    ensures
        0 <= key_index(entries, key) <= entries.len(),
        forall|j: int| 0 <= j < key_index(entries, key) ==> entries[j].key != key,
        holds(entries, key) ==> entries[key_index(entries, key)].key == key,
    decreases entries.len(),
{
    if entries.len() == 0 || entries[0].key == key {
    } else {
        let rest = entries.drop_first();
        lemma_key_index(rest, key);
        assert forall|j: int| 0 <= j < key_index(entries, key) implies entries[j].key != key by {
            if j > 0 {
                assert(entries[j] == rest[j - 1]);
            }
        }
        if holds(entries, key) {
            assert(entries[key_index(entries, key)] == rest[key_index(rest, key)]);
        }
    }
}

/// An index before which no entry is under the key, and at which one is
/// unless the index is the number of entries, is what `key_index` gives.
pub proof fn lemma_key_index_is(entries: Seq<EntryView>, key: Seq<u8>, i: int)
    requires
        0 <= i <= entries.len(),
        forall|j: int| 0 <= j < i ==> entries[j].key != key,
        i < entries.len() ==> entries[i].key == key,
    ensures
        key_index(entries, key) == i,
{
    lemma_key_index(entries, key);
    let k = key_index(entries, key);
    if k < i {
        assert(entries[k].key == key);
    } else if i < k {
        assert(entries[i].key == key);
    }
}

/// What was put under a key is what the table then holds under it, and
/// what it holds under any other key is what it held.
pub proof fn lemma_updated(entries: Seq<EntryView>, key: Seq<u8>, value: Seq<u8>, other: Seq<u8>)
    requires
        keys_distinct(entries),
    ensures
        keys_distinct(updated(entries, key, value)),
        value_at(updated(entries, key, value), key) == Some(value),
        other != key ==> value_at(updated(entries, key, value), other) == value_at(entries, other),
{
    lemma_key_index(entries, key);
    lemma_key_index(entries, other);
    let after = updated(entries, key, value);
    let i = key_index(entries, key);
    assert forall|j: int| 0 <= j < i implies after[j].key != key by {
        assert(after[j] == entries[j]);
    }
    lemma_key_index_is(after, key, i);
    if other != key {
        let k = key_index(entries, other);
        assert forall|j: int| 0 <= j < k implies after[j].key != other by {
            if j != i {
                assert(after[j] == entries[j]);
            }
        }
        if k < entries.len() {
            assert(after[k] == entries[k]);
            lemma_key_index_is(after, other, k);
        } else {
            assert forall|j: int| 0 <= j < after.len() implies after[j].key != other by {
                if j < entries.len() && j != i {
                    assert(after[j] == entries[j]);
                }
            }
            lemma_key_index_is(after, other, after.len() as int);
        }
    }
    assert forall|a: int, b: int|
        0 <= a < after.len() && 0 <= b < after.len() && a != b implies after[a].key
        != after[b].key by {
        if a < entries.len() && b < entries.len() {
            assert(entries[a].key != entries[b].key);
        }
    }
}

/// After a key was removed the table holds nothing under it, and under
/// any other key what it held.
pub proof fn lemma_deleted(entries: Seq<EntryView>, key: Seq<u8>, other: Seq<u8>)
    requires
        keys_distinct(entries),
    ensures
        keys_distinct(deleted(entries, key)),
        value_at(deleted(entries, key), key) is None,
        other != key ==> value_at(deleted(entries, key), other) == value_at(entries, other),
{
    lemma_key_index(entries, key);
    lemma_key_index(entries, other);
    let after = deleted(entries, key);
    let i = key_index(entries, key);
    if holds(entries, key) {
        assert forall|j: int| 0 <= j < after.len() implies after[j].key != key by {
            let a = if j < i { j } else { j + 1 };
            assert(after[j] == entries[a]);
            assert(entries[a].key != entries[i].key);
        }
        lemma_key_index_is(after, key, after.len() as int);
        assert forall|a: int, b: int|
            0 <= a < after.len() && 0 <= b < after.len() && a != b implies after[a].key
            != after[b].key by {
            let x = if a < i { a } else { a + 1 };
            let y = if b < i { b } else { b + 1 };
            assert(after[a] == entries[x]);
            assert(after[b] == entries[y]);
        }
        if other != key {
            let k = key_index(entries, other);
            if k < entries.len() {
                let k2 = if k < i { k } else { k - 1 };
                assert(after[k2] == entries[k]);
                assert forall|j: int| 0 <= j < k2 implies after[j].key != other by {
                    let a = if j < i { j } else { j + 1 };
                    assert(after[j] == entries[a]);
                }
                lemma_key_index_is(after, other, k2);
            } else {
                assert forall|j: int| 0 <= j < after.len() implies after[j].key != other by {
                    let a = if j < i { j } else { j + 1 };
                    assert(after[j] == entries[a]);
                }
                lemma_key_index_is(after, other, after.len() as int);
            }
        }
    }
}

/// Whether two byte strings are equal.
pub fn same_bytes(a: &[u8], b: &[u8]) -> (r: bool)
    ensures
        r == (a@ == b@),
{
    if a.len() != b.len() {
        return false;
    }
    let mut i: usize = 0;
    while i < a.len()
        invariant
            i <= a.len(),
            a.len() == b.len(),
            forall|j: int| 0 <= j < i ==> a@[j] == b@[j],
        decreases a.len() - i,
    {
        if a[i] != b[i] {
            return false;
        }
        i += 1;
    }
    assert(a@ =~= b@);
    true
}

/// A copy of `bytes`.
pub fn copy_bytes(bytes: &[u8]) -> (r: Vec<u8>)
    ensures
        r@ == bytes@,
{
    vstd::slice::slice_to_vec(bytes)
}

/// A table of byte strings under byte strings, no two under one key.
pub struct Table {
    entries: Vec<Entry>,
}

impl View for Table {
    type V = Seq<EntryView>;

    closed spec fn view(&self) -> Seq<EntryView> {
        entries_view(self.entries@)
    }
}

impl Table {
    #[verifier::type_invariant]
    spec fn valid(self) -> bool {
        keys_distinct(entries_view(self.entries@))
    }

    /// A table that holds nothing.
    pub fn new() -> (r: Table)
        ensures
            r@.len() == 0,
    {
        Table { entries: Vec::new() }
    }

    /// The number of entries.
    pub fn len(&self) -> (r: usize)
        ensures
            r == self@.len(),
            keys_distinct(self@),
    {
        proof {
            use_type_invariant(self);
        }
        self.entries.len()
    }

    /// The index of the entry under `key`, or the number of entries.
    pub fn find(&self, key: &[u8]) -> (r: usize)
        ensures
            r == key_index(self@, key@),
            r <= self@.len(),
    {
        let mut i: usize = 0;
        while i < self.entries.len()
            invariant
                i <= self.entries.len(),
                forall|j: int| 0 <= j < i ==> self@[j].key != key@,
            decreases self.entries.len() - i,
        {
            if same_bytes(self.entries[i].key.as_slice(), key) {
                proof {
                    lemma_key_index_is(self@, key@, i as int);
                }
                return i;
            }
            i += 1;
        }
        proof {
            lemma_key_index_is(self@, key@, i as int);
        }
        i
    }

    /// What the table holds under `key`.
    pub fn lookup(&self, key: &[u8]) -> (r: Option<&Vec<u8>>)
        ensures
            match r {
                Some(value) => value_at(self@, key@) == Some(value@),
                None => value_at(self@, key@) is None,
            },
    {
        let i = self.find(key);
        if i < self.entries.len() {
            Some(&self.entries[i].value)
        } else {
            None
        }
    }

    /// Puts `value` under `key`, over what stood there.
    pub fn update(&mut self, key: &[u8], value: &[u8])
        ensures
            final(self)@ == updated(old(self)@, key@, value@),
            keys_distinct(final(self)@),
    {
        proof {
            use_type_invariant(&*self);
            lemma_updated(self@, key@, value@, key@);
        }
        let i = self.find(key);
        let mut taken = Table::new();
        core::mem::swap(self, &mut taken);
        let mut entries = taken.entries;
        let entry = Entry { key: copy_bytes(key), value: copy_bytes(value) };
        if i < entries.len() {
            entries.set(i, entry);
        } else {
            entries.push(entry);
        }
        assert(entries_view(entries@) =~= updated(old(self)@, key@, value@));
        *self = Table { entries };
    }

    /// Removes what stands under `key`, and tells whether anything did.
    pub fn delete(&mut self, key: &[u8]) -> (r: bool)
        ensures
            r == holds(old(self)@, key@),
            final(self)@ == deleted(old(self)@, key@),
            keys_distinct(final(self)@),
    {
        proof {
            use_type_invariant(&*self);
            lemma_deleted(self@, key@, key@);
        }
        let i = self.find(key);
        if i >= self.entries.len() {
            return false;
        }
        let mut taken = Table::new();
        core::mem::swap(self, &mut taken);
        let mut entries = taken.entries;
        let _ = entries.remove(i);
        assert(entries_view(entries@) =~= deleted(old(self)@, key@));
        *self = Table { entries };
        true
    }
}

/// What the three tables hold.
pub struct MapsView {
    pub filter_rules: Seq<EntryView>,
    pub redirect_map: Seq<EntryView>,
    pub stats_map: Seq<EntryView>,
}

impl MapsView {
    /// The table that `table` names.
    pub open spec fn table(self, table: MapTable) -> Seq<EntryView> {
        match table {
            MapTable::FilterRules => self.filter_rules,
            MapTable::RedirectMap => self.redirect_map,
            MapTable::StatsMap => self.stats_map,
        }
    }

    /// The tables with `entries` in place of the table that `table` names.
    pub open spec fn with(self, table: MapTable, entries: Seq<EntryView>) -> MapsView {
        match table {
            MapTable::FilterRules => MapsView { filter_rules: entries, ..self },
            MapTable::RedirectMap => MapsView { redirect_map: entries, ..self },
            MapTable::StatsMap => MapsView { stats_map: entries, ..self },
        }
    }

    /// Whether the write `op` goes through: an update always does, a delete
    /// where there is something to remove.
    pub open spec fn accepts(self, op: MapOpView) -> bool {
        match op {
            MapOpView::Update { .. } => true,
            MapOpView::Delete { table, key } => holds(self.table(table), key),
        }
    }

    /// How many of the writes `ops` go through when they are carried out in
    /// order up to the first that does not, and the tables after them.
    pub open spec fn applied_all(self, ops: Seq<MapOpView>) -> (nat, MapsView)
        decreases ops.len(),
    {
        if ops.len() == 0 || !self.accepts(ops[0]) {
            (0, self)
        } else {
            let rest = self.applied(ops[0]).applied_all(ops.drop_first());
            ((rest.0 + 1) as nat, rest.1)
        }
    }

    /// The tables after each of `ops` was tried in order, whether or not
    /// those before it went through.
    pub open spec fn applied_each(self, ops: Seq<MapOpView>) -> MapsView
        decreases ops.len(),
    {
        if ops.len() == 0 {
            self
        } else {
            self.applied_each(ops.drop_last()).applied(ops.last())
        }
    }

    /// The tables after the write `op`.
    pub open spec fn applied(self, op: MapOpView) -> MapsView {
        match op {
            MapOpView::Update { table, key, value } => self.with(
                table,
                updated(self.table(table), key, value),
            ),
            MapOpView::Delete { table, key } => self.with(table, deleted(self.table(table), key)),
        }
    }
}

/// The three tables that the classifier and the control plane share.
pub struct KernelMaps {
    pub filter_rules: Table,
    pub redirect_map: Table,
    pub stats_map: Table,
}

impl View for KernelMaps {
    type V = MapsView;

    open spec fn view(&self) -> MapsView {
        MapsView {
            filter_rules: self.filter_rules@,
            redirect_map: self.redirect_map@,
            stats_map: self.stats_map@,
        }
    }
}

impl KernelMaps {
    /// Three tables that hold nothing.
    pub fn new() -> (r: KernelMaps)
        ensures
            r@.filter_rules.len() == 0,
            r@.redirect_map.len() == 0,
            r@.stats_map.len() == 0,
    {
        KernelMaps { filter_rules: Table::new(), redirect_map: Table::new(), stats_map: Table::new() }
    }

    /// Carries out the write `op`, and tells whether it went through.
    pub fn apply(&mut self, op: &MapOp) -> (r: bool)
        ensures
            r == old(self)@.accepts(op@),
            final(self)@ == old(self)@.applied(op@),
    {
        match op {
            MapOp::Update { table, key, value } => {
                match table {
                    MapTable::FilterRules => self.filter_rules.update(
                        key.as_slice(),
                        value.as_slice(),
                    ),
                    MapTable::RedirectMap => self.redirect_map.update(
                        key.as_slice(),
                        value.as_slice(),
                    ),
                    MapTable::StatsMap => self.stats_map.update(key.as_slice(), value.as_slice()),
                }
                true
            },
            MapOp::Delete { table, key } => {
                match table {
                    MapTable::FilterRules => self.filter_rules.delete(key.as_slice()),
                    MapTable::RedirectMap => self.redirect_map.delete(key.as_slice()),
                    MapTable::StatsMap => self.stats_map.delete(key.as_slice()),
                }
            },
        }
    }

    /// Carries out `ops` in order up to the first that does not go through,
    /// and returns how many went through.
    pub fn apply_all(&mut self, ops: &Vec<MapOp>) -> (written: usize)
        ensures
            (written as nat, final(self)@) == old(self)@.applied_all(crate::maps::ops_view(ops@)),
            written <= ops@.len(),
    {
        let ghost all = crate::maps::ops_view(ops@);
        let mut i: usize = 0;
        assert(all.skip(0) == all);
        while i < ops.len()
            invariant
                i <= ops.len(),
                all == crate::maps::ops_view(ops@),
                old(self)@.applied_all(all).0 == i + self@.applied_all(all.skip(i as int)).0,
                old(self)@.applied_all(all).1 == self@.applied_all(all.skip(i as int)).1,
            decreases ops.len() - i,
        {
            let ghost rest = all.skip(i as int);
            assert(rest[0] == ops@[i as int]@);
            assert(rest.drop_first() == all.skip(i + 1));
            if !self.apply(&ops[i]) {
                return i;
            }
            i += 1;
        }
        assert(all.skip(i as int).len() == 0);
        i
    }

    /// Carries out `ops` as a run of writes: in order up to the first that
    /// does not go through, and then, where one did not, the writes that
    /// take back those that did. Returns how many of `ops` went through.
    pub fn perform(&mut self, ops: Vec<MapOp>) -> (written: usize)
        ensures
            written == old(self)@.applied_all(crate::maps::ops_view(ops@)).0,
            final(self)@ == old(self)@.applied_all(crate::maps::ops_view(ops@)).1.applied_each(
                crate::maps::recovery_ops(crate::maps::ops_view(ops@), written as nat),
            ),
    {
        let ghost all = crate::maps::ops_view(ops@);
        let ghost start = self@;
        let mut run = WriteRun::new(ops);
        assert(all.skip(0) == all);
        while !run.done()
            invariant
                run@.sound(),
                run@.ops == all,
                !run@.failed ==> start.applied_all(all).0 == run@.written + self@.applied_all(
                    all.skip(run@.written as int),
                ).0 && start.applied_all(all).1 == self@.applied_all(
                    all.skip(run@.written as int),
                ).1,
                run@.failed ==> run@.written == start.applied_all(all).0 && self@
                    == start.applied_all(all).1.applied_each(run@.undo.take(run@.undone as int)),
            decreases run@.left(),
        {
            let next = run.next();
            let op = next.unwrap();
            let ghost before = run@;
            let ghost tables = self@;
            let ok = self.apply(&op);
            run.record(ok);
            proof {
                lemma_run_ends(before, ok);
                if before.failed {
                    let tried = before.undo.take(before.undone as int + 1);
                    assert(tried.drop_last() == before.undo.take(before.undone as int));
                    assert(tried.last() == op@);
                } else {
                    let rest = all.skip(before.written as int);
                    assert(rest[0] == op@);
                    assert(rest.drop_first() == all.skip(before.written as int + 1));
                    if !ok {
                        assert(run@.undo.take(0) == Seq::<MapOpView>::empty());
                    }
                }
            }
        }
        proof {
            if run@.failed {
                assert(run@.undo.take(run@.undone as int) == run@.undo);
            } else {
                assert(all.skip(run@.written as int).len() == 0);
            }
        }
        run.written()
    }

    /// Adds `rule` to `manager` and carries out on these tables the writes
    /// that this takes: the whole of adding a rule, where the tables in
    /// memory stand for the kernel maps. Every write to them goes through,
    /// so the rule is refused only for its label or for an invariant.
    pub fn add_rule(&mut self, manager: &mut MapManager, rule: FilterRule) -> (r: Result<
        (),
        GuardError,
    >)
        ensures
            (r, final(manager)@) == add_result(old(manager)@, rule, add_ops(rule).len()),
            final(self)@ == if add_check(old(manager)@, rule) is None {
                old(self)@.applied_all(add_ops(rule)).1
            } else {
                old(self)@
            },
    {
        let ops = match manager.plan_add(&rule) {
            Ok(ops) => ops,
            Err(_) => {
                let refused = manager.add_rule(rule, 0);
                return refused;
            },
        };
        proof {
            lemma_updates_go_through(self@, add_ops(rule));
        }
        let written = self.perform(ops);
        manager.add_rule(rule, written)
    }

    /// Deletes the rule with `label` from `manager` and carries out on
    /// these tables the write that this takes. Where the tables do not hold
    /// the entry of the rule the write fails, and the rule stays.
    pub fn delete_rule(&mut self, manager: &mut MapManager, label: &str) -> (r: Result<
        (),
        GuardError,
    >)
        ensures
            has_label(old(manager)@, label@) ==> {
                let ops = delete_ops(old(manager)@[label_index(old(manager)@, label@)]);
                &&& (r, final(manager)@) == delete_result(
                    old(manager)@,
                    label@,
                    old(self)@.applied_all(ops).0,
                )
                &&& final(self)@ == old(self)@.applied_all(ops).1
            },
            !has_label(old(manager)@, label@) ==> r == Err::<(), GuardError>(GuardError::NotFound)
                && final(manager)@ == old(manager)@ && final(self)@ == old(self)@,
    {
        let ops = match manager.plan_delete(label) {
            Ok(ops) => ops,
            Err(_) => {
                let refused = manager.delete_rule(label, 0);
                return refused;
            },
        };
        let written = self.perform(ops);
        manager.delete_rule(label, written)
    }

    /// What the table that `table` names holds under `key`.
    pub fn lookup(&self, table: MapTable, key: &[u8]) -> (r: Option<Vec<u8>>)
        ensures
            match r {
                Some(value) => value_at(self@.table(table), key@) == Some(value@),
                None => value_at(self@.table(table), key@) is None,
            },
    {
        let found = match table {
            MapTable::FilterRules => self.filter_rules.lookup(key),
            MapTable::RedirectMap => self.redirect_map.lookup(key),
            MapTable::StatsMap => self.stats_map.lookup(key),
        };
        match found {
            Some(value) => Some(copy_bytes(value.as_slice())),
            None => None,
        }
    }

    /// What the longest-prefix table holds under each of `keys` that is given.
    pub fn read_all(&self, keys: &Vec<Option<Vec<u8>>>) -> (r: Vec<Option<Vec<u8>>>)
        ensures
            r@.len() == keys@.len(),
            forall|i: int|
                0 <= i < r@.len() ==> match #[trigger] r@[i] {
                    Some(value) => keys@[i] matches Some(key) && value_at(
                        self@.filter_rules,
                        key@,
                    ) == Some(value@),
                    None => keys@[i] matches Some(key) ==> value_at(self@.filter_rules, key@)
                        is None,
                },
    {
        let mut out: Vec<Option<Vec<u8>>> = Vec::new();
        let mut i: usize = 0;
        while i < keys.len()
            invariant
                i <= keys.len(),
                out@.len() == i,
                forall|k: int|
                    0 <= k < i ==> match #[trigger] out@[k] {
                        Some(value) => keys@[k] matches Some(key) && value_at(
                            self@.filter_rules,
                            key@,
                        ) == Some(value@),
                        None => keys@[k] matches Some(key) ==> value_at(self@.filter_rules, key@)
                            is None,
                    },
            decreases keys.len() - i,
        {
            let read = match &keys[i] {
                Some(key) => self.lookup(MapTable::FilterRules, key.as_slice()),
                None => None,
            };
            out.push(read);
            i += 1;
        }
        out
    }
}

/// Writes that only put entries all go through.
pub proof fn lemma_updates_go_through(maps: MapsView, ops: Seq<MapOpView>)
    requires
        forall|i: int| 0 <= i < ops.len() ==> #[trigger] ops[i] is Update,
    ensures
        maps.applied_all(ops).0 == ops.len(),
    decreases ops.len(),
{
    if ops.len() > 0 {
        let rest = ops.drop_first();
        assert forall|i: int| 0 <= i < rest.len() implies #[trigger] rest[i] is Update by {
            assert(rest[i] == ops[i + 1]);
        }
        lemma_updates_go_through(maps.applied(ops[0]), rest);
    }
}

} // verus!
