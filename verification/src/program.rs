//! The instruction set that the lowering targets, and the builder that
//! collects instructions and hands out registers, cursors and labels.

use vstd::prelude::*;
use turso_sqlite3_parser::ast::SortOrder;
use crate::collate::CollationSeq;
use crate::expr::Expr;
use crate::expr::ExprView;
use crate::expr::name_view;

verus! {

/// Where a jump goes: a label that is resolved later, or an instruction's
/// position in the program.
#[derive(Debug, Clone, Copy, PartialEq, Eq, Structural)]
pub enum BranchOffset {
    Label(usize),
    Offset(usize),
}

/// The layout of a pseudo cursor, which decodes one record held in a register.
#[derive(Debug, Clone, Copy, PartialEq, Eq, Structural)]
pub struct PseudoCursorType {
    pub column_count: usize,
}

/// What a cursor reads.
#[derive(Debug, Clone, Copy, PartialEq, Eq, Structural)]
pub enum CursorType {
    /// A sorting device.
    Sorter,
    /// A decoding view over one record.
    Pseudo(PseudoCursorType),
}

/// One instruction of the execution engine.
#[derive(Debug, Clone, PartialEq, Eq)]
pub enum Insn {
    /// Configures a sorter: how many leading columns of each record are sort
    /// keys, and the direction and collation of each of them.
    SorterOpen {
        cursor_id: usize,
        columns: usize,
        order: Vec<SortOrder>,
        collations: Vec<Option<CollationSeq>>,
    },
    /// Adds the record in `record_reg` to the sorter's unsorted rows.
    SorterInsert { cursor_id: usize, record_reg: usize },
    /// Sorts, and moves to the first row; jumps if there is no row.
    SorterSort { cursor_id: usize, pc_if_empty: BranchOffset },
    /// Puts the sorter's current row, as a record, into `dest_reg`.
    SorterData { cursor_id: usize, dest_reg: usize, pseudo_cursor: usize },
    /// Moves to the next row and jumps if there is one; falls through at the end.
    SorterNext { cursor_id: usize, pc_if_next: BranchOffset },
    /// Opens a decoding view of `num_fields` columns over the record in `content_reg`.
    OpenPseudo { cursor_id: usize, content_reg: usize, num_fields: usize },
    /// Puts column `column` of the cursor's current record into `dest`.
    Column { cursor_id: usize, column: usize, dest: usize },
    /// Packs `count` registers from `start_reg` on into one record in `dest_reg`.
    MakeRecord { start_reg: usize, count: usize, dest_reg: usize, index_name: Option<String> },
    /// Hands `count` registers from `start_reg` on to the caller as one output row.
    ResultRow { start_reg: usize, count: usize },
    /// If the register is positive, takes `decrement_by` from it and jumps.
    IfPos { reg: usize, target_pc: BranchOffset, decrement_by: usize },
    /// Takes one from the register and jumps if it has reached zero.
    DecrJumpZero { reg: usize, target_pc: BranchOffset },
    /// Evaluates an expression on the current candidate row into `dest`.
    Eval { expr: Expr, dest: usize },
    /// Jumps if the values in `num_regs` registers from `start_reg` on were
    /// seen before on this cursor; remembers them otherwise.
    Distinct { cursor_id: usize, start_reg: usize, num_regs: usize, pc_if_seen: BranchOffset },
}

/// The mathematical value of an [`Insn`].
pub enum InsnView {
    SorterOpen {
        cursor_id: usize,
        columns: usize,
        order: Seq<SortOrder>,
        collations: Seq<Option<CollationSeq>>,
    },
    SorterInsert { cursor_id: usize, record_reg: usize },
    SorterSort { cursor_id: usize, pc_if_empty: BranchOffset },
    SorterData { cursor_id: usize, dest_reg: usize, pseudo_cursor: usize },
    SorterNext { cursor_id: usize, pc_if_next: BranchOffset },
    OpenPseudo { cursor_id: usize, content_reg: usize, num_fields: usize },
    Column { cursor_id: usize, column: usize, dest: usize },
    MakeRecord { start_reg: usize, count: usize, dest_reg: usize, index_name: Option<Seq<char>> },
    ResultRow { start_reg: usize, count: usize },
    IfPos { reg: usize, target_pc: BranchOffset, decrement_by: usize },
    DecrJumpZero { reg: usize, target_pc: BranchOffset },
    Eval { expr: ExprView, dest: usize },
    Distinct { cursor_id: usize, start_reg: usize, num_regs: usize, pc_if_seen: BranchOffset },
}

impl View for Insn {
    type V = InsnView;

    open spec fn view(&self) -> InsnView {
        match self {
            Insn::SorterOpen { cursor_id, columns, order, collations } => InsnView::SorterOpen {
                cursor_id: *cursor_id,
                columns: *columns,
                order: order@,
                collations: collations@,
            },
            Insn::SorterInsert { cursor_id, record_reg } => InsnView::SorterInsert {
                cursor_id: *cursor_id,
                record_reg: *record_reg,
            },
            Insn::SorterSort { cursor_id, pc_if_empty } => InsnView::SorterSort {
                cursor_id: *cursor_id,
                pc_if_empty: *pc_if_empty,
            },
            Insn::SorterData { cursor_id, dest_reg, pseudo_cursor } => InsnView::SorterData {
                cursor_id: *cursor_id,
                dest_reg: *dest_reg,
                pseudo_cursor: *pseudo_cursor,
            },
            Insn::SorterNext { cursor_id, pc_if_next } => InsnView::SorterNext {
                cursor_id: *cursor_id,
                pc_if_next: *pc_if_next,
            },
            Insn::OpenPseudo { cursor_id, content_reg, num_fields } => InsnView::OpenPseudo {
                cursor_id: *cursor_id,
                content_reg: *content_reg,
                num_fields: *num_fields,
            },
            Insn::Column { cursor_id, column, dest } => InsnView::Column {
                cursor_id: *cursor_id,
                column: *column,
                dest: *dest,
            },
            Insn::MakeRecord { start_reg, count, dest_reg, index_name } => InsnView::MakeRecord {
                start_reg: *start_reg,
                count: *count,
                dest_reg: *dest_reg,
                index_name: name_view(*index_name),
            },
            Insn::ResultRow { start_reg, count } => InsnView::ResultRow {
                start_reg: *start_reg,
                count: *count,
            },
            Insn::IfPos { reg, target_pc, decrement_by } => InsnView::IfPos {
                reg: *reg,
                target_pc: *target_pc,
                decrement_by: *decrement_by,
            },
            Insn::DecrJumpZero { reg, target_pc } => InsnView::DecrJumpZero {
                reg: *reg,
                target_pc: *target_pc,
            },
            Insn::Eval { expr, dest } => InsnView::Eval { expr: expr@, dest: *dest },
            Insn::Distinct { cursor_id, start_reg, num_regs, pc_if_seen } => InsnView::Distinct {
                cursor_id: *cursor_id,
                start_reg: *start_reg,
                num_regs: *num_regs,
                pc_if_seen: *pc_if_seen,
            },
        }
    }
}

/// The jump that a jump becomes once labels are resolved: to the position
/// that its label was resolved to. A jump to a position, and one to a label
/// that is not resolved, stay as they are.
pub open spec fn resolved_target(labels: Seq<Option<usize>>, to: BranchOffset) -> BranchOffset {
    match to {
        BranchOffset::Label(label) => if label < labels.len() && labels[label as int] is Some {
            BranchOffset::Offset(labels[label as int]->Some_0)
        } else {
            to
        },
        BranchOffset::Offset(_) => to,
    }
}

/// An instruction with its jump, if it has one, resolved.
pub open spec fn patched_insn(labels: Seq<Option<usize>>, insn: InsnView) -> InsnView {
    match insn {
        InsnView::SorterSort { cursor_id, pc_if_empty } => InsnView::SorterSort {
            cursor_id,
            pc_if_empty: resolved_target(labels, pc_if_empty),
        },
        InsnView::SorterNext { cursor_id, pc_if_next } => InsnView::SorterNext {
            cursor_id,
            pc_if_next: resolved_target(labels, pc_if_next),
        },
        InsnView::IfPos { reg, target_pc, decrement_by } => InsnView::IfPos {
            reg,
            target_pc: resolved_target(labels, target_pc),
            decrement_by,
        },
        InsnView::DecrJumpZero { reg, target_pc } => InsnView::DecrJumpZero {
            reg,
            target_pc: resolved_target(labels, target_pc),
        },
        InsnView::Distinct { cursor_id, start_reg, num_regs, pc_if_seen } => InsnView::Distinct {
            cursor_id,
            start_reg,
            num_regs,
            pc_if_seen: resolved_target(labels, pc_if_seen),
        },
        _ => insn,
    }
}

/// A program under construction.
#[derive(Debug, Clone, PartialEq, Eq)]
pub struct ProgramBuilder {
    /// The instructions emitted so far.
    pub insns: Vec<Insn>,
    /// The first register that nobody has been given yet.
    pub next_free_register: usize,
    /// The kind of each cursor allocated so far; a cursor's identifier is its
    /// position here.
    pub cursor_ref: Vec<CursorType>,
    /// For each label allocated so far, the instruction position it was
    /// resolved to, once it has been.
    pub label_to_resolved_offset: Vec<Option<usize>>,
}

/// The mathematical value of a [`ProgramBuilder`].
pub struct ProgramView {
    pub code: Seq<InsnView>,
    pub next_register: usize,
    pub cursors: Seq<CursorType>,
    pub labels: Seq<Option<usize>>,
}

impl ProgramView {
    /// This program with one more instruction at its end.
    pub open spec fn emit(self, insn: InsnView) -> ProgramView {
        ProgramView { code: self.code.push(insn), ..self }
    }

    /// This program with more instructions at its end.
    pub open spec fn emit_all(self, insns: Seq<InsnView>) -> ProgramView {
        ProgramView { code: self.code + insns, ..self }
    }

    /// This program with `amount` more registers given out.
    pub open spec fn with_registers(self, amount: usize) -> ProgramView
        recommends
            self.next_register + amount <= usize::MAX,
    {
        ProgramView { next_register: (self.next_register + amount) as usize, ..self }
    }

    /// This program with one more cursor.
    pub open spec fn with_cursor(self, cursor_type: CursorType) -> ProgramView {
        ProgramView { cursors: self.cursors.push(cursor_type), ..self }
    }

    /// This program with one more label, not resolved yet.
    pub open spec fn with_label(self) -> ProgramView {
        ProgramView { labels: self.labels.push(None), ..self }
    }

    /// This program with every jump to a resolved label turned into a jump
    /// to the label's position.
    pub open spec fn patched(self) -> ProgramView {
        ProgramView {
            code: self.code.map_values(|insn: InsnView| patched_insn(self.labels, insn)),
            ..self
        }
    }

    /// Whether `later` is this program with more instructions at its end,
    /// and with more labels allocated or resolved.
    pub open spec fn grows_into(self, later: ProgramView) -> bool {
        &&& self.code.len() <= later.code.len()
        &&& forall|at: int| 0 <= at < self.code.len() ==> later.code[at] == self.code[at]
        &&& self.labels.len() <= later.labels.len()
        &&& forall|label: int|
            0 <= label < self.labels.len() && self.labels[label] is Some ==> later.labels[label]
                == self.labels[label]
    }

    /// This program with a label resolved to an instruction position.
    pub open spec fn with_resolved(self, label: usize, position: usize) -> ProgramView
        recommends
            label < self.labels.len(),
    {
        ProgramView { labels: self.labels.update(label as int, Some(position)), ..self }
    }
}

/// Instructions emitted after others stand behind them.
pub proof fn lemma_emitted_more(before: Seq<InsnView>, done: Seq<InsnView>, more: Seq<InsnView>)
    ensures
        (before + done) + more == before + (done + more),
{
    assert((before + done) + more =~= before + (done + more));
}

/// An instruction emitted after others stands behind them.
pub proof fn lemma_emitted_one(before: Seq<InsnView>, done: Seq<InsnView>, insn: InsnView)
    ensures
        (before + done).push(insn) == before + (done + seq![insn]),
        before.push(insn) == before + seq![insn],
{
    assert((before + done).push(insn) =~= before + (done + seq![insn]));
    assert(before.push(insn) =~= before + seq![insn]);
}

/// Three labels allocated in a row and then resolved stand behind the labels
/// that were there, each with its position.
pub proof fn lemma_three_labels(labels: Seq<Option<usize>>, a: usize, b: usize, c: usize)
    ensures
        ({
            let first = labels.len() as int;
            labels.push(None).push(None).push(None).update(first, Some(a)).update(
                first + 1,
                Some(b),
            ).update(first + 2, Some(c))
        }) == labels + seq![Some(a), Some(b), Some(c)],
{
    let first = labels.len() as int;
    assert(labels.push(None).push(None).push(None).update(first, Some(a)).update(
        first + 1,
        Some(b),
    ).update(first + 2, Some(c)) =~= labels + seq![Some(a), Some(b), Some(c)]);
}

impl View for ProgramBuilder {
    type V = ProgramView;

    open spec fn view(&self) -> ProgramView {
        ProgramView {
            code: self.insns@.map_values(|i: Insn| i@),
            next_register: self.next_free_register,
            cursors: self.cursor_ref@,
            labels: self.label_to_resolved_offset@,
        }
    }
}

impl ProgramBuilder {
    /// An empty program. Register 0 is never given out.
    pub fn new() -> (r: Self)
        ensures
            r@ == (ProgramView {
                code: Seq::empty(),
                next_register: 1,
                cursors: Seq::empty(),
                labels: Seq::empty(),
            }),
    {
        let r = ProgramBuilder {
            insns: Vec::new(),
            next_free_register: 1,
            cursor_ref: Vec::new(),
            label_to_resolved_offset: Vec::new(),
        };
        assert(r@.code =~= Seq::empty());
        r
    }

    /// Gives out one register.
    pub fn alloc_register(&mut self) -> (r: usize)
        requires
            old(self).next_free_register < usize::MAX,
        ensures
            r == old(self).next_free_register,
            final(self)@ == old(self)@.with_registers(1),
    {
        let reg = self.next_free_register;
        self.next_free_register += 1;
        reg
    }

    /// Gives out `amount` registers in a row and returns the first.
    pub fn alloc_registers(&mut self, amount: usize) -> (r: usize)
        requires
            old(self).next_free_register + amount <= usize::MAX,
        ensures
            r == old(self).next_free_register,
            final(self)@ == old(self)@.with_registers(amount),
    {
        let reg = self.next_free_register;
        self.next_free_register += amount;
        reg
    }

    /// Allocates a cursor of the given kind and returns its identifier.
    pub fn alloc_cursor_id(&mut self, cursor_type: CursorType) -> (r: usize)
        ensures
            r == old(self).cursor_ref.len(),
            final(self)@ == old(self)@.with_cursor(cursor_type),
    {
        let cursor = self.cursor_ref.len();
        self.cursor_ref.push(cursor_type);
        cursor
    }

    /// Allocates a label that is resolved later.
    pub fn allocate_label(&mut self) -> (r: BranchOffset)
        ensures
            r == BranchOffset::Label(old(self).label_to_resolved_offset.len()),
            final(self)@ == old(self)@.with_label(),
    {
        let label = self.label_to_resolved_offset.len();
        self.label_to_resolved_offset.push(None);
        BranchOffset::Label(label)
    }

    /// Appends an instruction.
    pub fn emit_insn(&mut self, insn: Insn)
        ensures
            final(self)@ == old(self)@.emit(insn@),
    {
        self.insns.push(insn);
        assert(self@.code =~= old(self)@.code.push(insn@));
    }

    /// The position that the next instruction will have.
    pub fn offset(&self) -> (r: BranchOffset)
        ensures
            r == BranchOffset::Offset(self@.code.len() as usize),
    {
        BranchOffset::Offset(self.insns.len())
    }

    /// Resolves a label to an instruction position.
    pub fn resolve_label(&mut self, label: BranchOffset, to_offset: BranchOffset)
        requires
            label is Label,
            label->Label_0 < old(self).label_to_resolved_offset.len(),
            to_offset is Offset,
        ensures
            final(self)@ == old(self)@.with_resolved(label->Label_0, to_offset->Offset_0),
    {
        match label {
            BranchOffset::Label(n) => match to_offset {
                BranchOffset::Offset(position) => {
                    self.label_to_resolved_offset.set(n, Some(position));
                },
                BranchOffset::Label(_) => {},
            },
            BranchOffset::Offset(_) => {},
        }
    }

    /// Resolves a label to the position that the next instruction will have.
    pub fn preassign_label_to_next_insn(&mut self, label: BranchOffset)
        requires
            label is Label,
            label->Label_0 < old(self).label_to_resolved_offset.len(),
        ensures
            final(self)@ == old(self)@.with_resolved(
                label->Label_0,
                old(self)@.code.len() as usize,
            ),
    {
        let here = self.offset();
        self.resolve_label(label, here);
    }

    /// Appends the instruction that decodes one column of a cursor's record.
    pub fn emit_column(&mut self, cursor_id: usize, column: usize, dest: usize)
        ensures
            final(self)@ == old(self)@.emit(InsnView::Column { cursor_id, column, dest }),
    {
        self.emit_insn(Insn::Column { cursor_id, column, dest });
    }

    /// The jump that `to` becomes once labels are resolved.
    fn resolve_target(&self, to: BranchOffset) -> (r: BranchOffset)
        ensures
            r == resolved_target(self.label_to_resolved_offset@, to),
    {
        match to {
            BranchOffset::Label(label) => {
                if label < self.label_to_resolved_offset.len() {
                    match self.label_to_resolved_offset[label] {
                        Some(position) => BranchOffset::Offset(position),
                        None => to,
                    }
                } else {
                    to
                }
            },
            BranchOffset::Offset(_) => to,
        }
    }

    /// The instruction at `at` with its jump resolved, if it has a jump.
    fn patch_at(&self, at: usize) -> (r: Option<Insn>)
        requires
            at < self.insns.len(),
        ensures
            match r {
                Some(insn) => insn@ == patched_insn(self.label_to_resolved_offset@, self.insns[at as int]@),
                None => self.insns[at as int]@ == patched_insn(
                    self.label_to_resolved_offset@,
                    self.insns[at as int]@,
                ),
            },
    {
        match &self.insns[at] {
            Insn::SorterSort { cursor_id, pc_if_empty } => Some(
                Insn::SorterSort {
                    cursor_id: *cursor_id,
                    pc_if_empty: self.resolve_target(*pc_if_empty),
                },
            ),
            Insn::SorterNext { cursor_id, pc_if_next } => Some(
                Insn::SorterNext {
                    cursor_id: *cursor_id,
                    pc_if_next: self.resolve_target(*pc_if_next),
                },
            ),
            Insn::IfPos { reg, target_pc, decrement_by } => Some(
                Insn::IfPos {
                    reg: *reg,
                    target_pc: self.resolve_target(*target_pc),
                    decrement_by: *decrement_by,
                },
            ),
            Insn::DecrJumpZero { reg, target_pc } => Some(
                Insn::DecrJumpZero { reg: *reg, target_pc: self.resolve_target(*target_pc) },
            ),
            Insn::Distinct { cursor_id, start_reg, num_regs, pc_if_seen } => Some(
                Insn::Distinct {
                    cursor_id: *cursor_id,
                    start_reg: *start_reg,
                    num_regs: *num_regs,
                    pc_if_seen: self.resolve_target(*pc_if_seen),
                },
            ),
            _ => None,
        }
    }

    /// Turns every jump to a resolved label into a jump to the position that
    /// the label was resolved to, in one pass over the instructions. Called
    /// when all code is emitted.
    pub fn resolve_labels(&mut self)
        ensures
            final(self)@ == old(self)@.patched(),
    {
        let ghost before = self@;
        let mut at: usize = 0;
        while at < self.insns.len()
            invariant
                at <= self.insns.len(),
                self.insns.len() == before.code.len(),
                self.label_to_resolved_offset@ == before.labels,
                self.next_free_register == before.next_register,
                self.cursor_ref@ == before.cursors,
                forall|k: int| 0 <= k < at ==> (#[trigger] self.insns[k])@ == patched_insn(
                    before.labels,
                    before.code[k],
                ),
                forall|k: int|
                    at <= k < self.insns.len() ==> (#[trigger] self.insns[k])@ == before.code[k],
            decreases self.insns.len() - at,
        {
            match self.patch_at(at) {
                Some(insn) => {
                    self.insns.set(at, insn);
                },
                None => {},
            }
            at += 1;
        }
        assert(self@.code =~= before.patched().code);
    }
}

} // verus!
