//! A run of writes to the kernel maps, one write at a time.
//!
//! The writes of one operation are carried out in order up to the first that
//! fails. Where one failed, what went through before it is taken back, last
//! write first. A run says which write comes next and is told whether it went
//! through; whoever holds the maps carries it out.

use crate::maps::{ops_view, rollback, undo_ops, MapOp, MapOpView};
use vstd::prelude::*;

verus! {

/// Where a run of writes stands.
pub struct WriteRunView {
    /// The writes of the operation, in order.
    pub ops: Seq<MapOpView>,
    /// How many of them went through.
    pub written: nat,
    /// Whether the write after those failed.
    pub failed: bool,
    /// The writes that take back what went through; none before a failure.
    pub undo: Seq<MapOpView>,
    /// How many of those were carried out.
    pub undone: nat,
}

impl WriteRunView {
    /// A run of `ops` of which nothing was carried out yet.
    pub open spec fn start(ops: Seq<MapOpView>) -> WriteRunView {
        WriteRunView { ops, written: 0, failed: false, undo: Seq::empty(), undone: 0 }
    }

    /// What holds of every run: no more went through than there are
    /// writes, and after a failure the writes that take back are those of
    /// what went through.
    pub open spec fn sound(self) -> bool {
        &&& self.written <= self.ops.len()
        &&& self.undone <= self.undo.len()
        &&& self.failed ==> self.written < self.ops.len() && self.undo == undo_ops(
            self.ops,
            self.written,
        )
        &&& !self.failed ==> self.undo.len() == 0
    }

    /// The write to carry out next: the next of the operation while none
    /// failed, the next of those that take back after one did. None where
    /// the run is over.
    pub open spec fn next(self) -> Option<MapOpView> {
        if !self.failed {
            if self.written < self.ops.len() {
                Some(self.ops[self.written as int])
            } else {
                None
            }
        } else if self.undone < self.undo.len() {
            Some(self.undo[self.undone as int])
        } else {
            None
        }
    }

    /// The run after its next write was tried, `ok` telling whether it went
    /// through. A write of the operation that fails ends the operation and
    /// starts the taking back. One that takes back and fails is passed
    /// over.
    pub open spec fn after(self, ok: bool) -> WriteRunView {
        if self.next() is None {
            self
        } else if self.failed {
            WriteRunView { undone: self.undone + 1, ..self }
        } else if ok {
            WriteRunView { written: self.written + 1, ..self }
        } else {
            WriteRunView { failed: true, undo: undo_ops(self.ops, self.written), ..self }
        }
    }

    /// A bound on the writes that are still to be tried.
    pub open spec fn left(self) -> nat {
        if self.failed {
            if self.undone <= self.undo.len() {
                (self.undo.len() - self.undone) as nat
            } else {
                0
            }
        } else if self.written <= self.ops.len() {
            (2 * self.ops.len() - self.written + 1) as nat
        } else {
            0
        }
    }
}

/// No more writes take back than went through.
pub proof fn lemma_undo_len(ops: Seq<MapOpView>, written: nat)
    ensures
        undo_ops(ops, written).len() <= written,
    decreases written,
{
    if written != 0 && written <= ops.len() {
        lemma_undo_len(ops, (written - 1) as nat);
    }
}

/// A run stays sound, and each write that is tried brings it nearer to
/// its end: every run ends.
pub proof fn lemma_run_ends(run: WriteRunView, ok: bool)
    requires
        run.sound(),
    ensures
        run.after(ok).sound(),
        run.after(ok).ops == run.ops,
        run.next() is Some ==> run.after(ok).left() < run.left(),
        run.next() is None ==> run.after(ok) == run,
{
    lemma_undo_len(run.ops, run.written);
}

/// A run over which every write goes through ends with all of them
/// written and nothing to take back.
pub proof fn lemma_run_without_failure(run: WriteRunView)
    requires
        run.sound(),
        !run.failed,
    ensures
        run.after(true).sound(),
        !run.after(true).failed,
        run.after(true).undo.len() == 0,
        run.next() is None <==> run.written == run.ops.len(),
{
}

/// A copy of `op`.
pub fn copy_op(op: &MapOp) -> (r: MapOp)
    ensures
        r@ == op@,
{
    match op {
        MapOp::Update { table, key, value } => {
            let r = MapOp::Update { table: *table, key: key.clone(), value: value.clone() };
            assert(r@.arrow_Update_key() =~= key@);
            assert(r@.arrow_Update_value() =~= value@);
            r
        },
        MapOp::Delete { table, key } => {
            let r = MapOp::Delete { table: *table, key: key.clone() };
            assert(r@.arrow_Delete_key() =~= key@);
            r
        },
    }
}

/// A run of writes.
pub struct WriteRun {
    ops: Vec<MapOp>,
    written: usize,
    failed: bool,
    undo: Vec<MapOp>,
    undone: usize,
}

impl View for WriteRun {
    type V = WriteRunView;

    closed spec fn view(&self) -> WriteRunView {
        WriteRunView {
            ops: ops_view(self.ops@),
            written: self.written as nat,
            failed: self.failed,
            undo: ops_view(self.undo@),
            undone: self.undone as nat,
        }
    }
}

impl WriteRun {
    /// A run of `ops` of which nothing was carried out yet.
    pub fn new(ops: Vec<MapOp>) -> (r: WriteRun)
        ensures
            r@ == WriteRunView::start(ops_view(ops@)),
    {
        let r = WriteRun { ops, written: 0, failed: false, undo: Vec::new(), undone: 0 };
        assert(r@.undo =~= Seq::<MapOpView>::empty());
        r
    }

    /// The write to carry out next; none where the run is over.
    pub fn next(&self) -> (r: Option<MapOp>)
        ensures
            match r {
                Some(op) => self@.next() == Some(op@),
                None => self@.next() is None,
            },
    {
        if !self.failed {
            if self.written < self.ops.len() {
                Some(copy_op(&self.ops[self.written]))
            } else {
                None
            }
        } else if self.undone < self.undo.len() {
            Some(copy_op(&self.undo[self.undone]))
        } else {
            None
        }
    }

    /// Whether the run is over.
    pub fn done(&self) -> (r: bool)
        ensures
            r == (self@.next() is None),
    {
        if !self.failed {
            self.written >= self.ops.len()
        } else {
            self.undone >= self.undo.len()
        }
    }

    /// Takes note that the next write was tried, `ok` telling whether it
    /// went through. Changes nothing where the run is over.
    pub fn record(&mut self, ok: bool)
        ensures
            final(self)@ == old(self)@.after(ok),
    {
        if self.failed {
            if self.undone < self.undo.len() {
                self.undone = self.undone + 1;
            }
        } else if self.written < self.ops.len() {
            if ok {
                self.written = self.written + 1;
            } else {
                self.undo = rollback(&self.ops, self.written);
                self.failed = true;
            }
        }
    }

    /// How many writes of the operation went through.
    pub fn written(&self) -> (r: usize)
        ensures
            r == self@.written,
    {
        self.written
    }

    /// Whether a write of the operation failed.
    pub fn failed(&self) -> (r: bool)
        ensures
            r == self@.failed,
    {
        self.failed
    }
}

} // verus!
