//! A model of the engine that runs the emitted instructions.
//!
//! The machine has one sorter. What is inserted into it is kept in the order
//! of insertion, and what it yields is given as a sequence of records that is
//! sorted already: how the sorter gets from the one to the other is no part
//! of the model. Nor is how an expression is evaluated: a candidate row is
//! given by the value that each expression has on it. A register holds a
//! counter, a value or a record. Where an instruction finds something else
//! in a register than it works on, and on a jump to a label that is not
//! resolved, the machine stands still.

use vstd::prelude::*;
use crate::expr::ExprView;
use crate::program::resolved_target;
use crate::program::BranchOffset;
use crate::program::InsnView;
use crate::program::ProgramView;

verus! {

/// What a register holds.
pub enum Cell<V> {
    /// A counter, as `OFFSET` and `LIMIT` keep one.
    Count(int),
    /// One value of a row.
    Value(V),
    /// A packed record.
    Record(Seq<V>),
}

/// The state of the engine between two instructions.
#[verifier::reject_recursive_types(V)]
pub struct Machine<V> {
    /// The position of the instruction that is run next.
    pub pc: int,
    pub registers: Map<usize, Cell<V>>,
    /// The value of each expression on the candidate row that the scan is on.
    pub row: spec_fn(ExprView) -> V,
    /// The rows that a check for duplicate rows has let through.
    pub seen: Set<Seq<V>>,
    /// The records that were inserted into the sorter, first to last.
    pub inserted: Seq<Seq<V>>,
    /// The records of the sorter, in the order in which it yields them.
    pub rows: Seq<Seq<V>>,
    /// The position of the sorter's current row.
    pub position: int,
    /// For each decoding view that is open, the register whose record it decodes.
    pub views: Map<usize, usize>,
    /// The rows that were output, first to last.
    pub output: Seq<Seq<V>>,
}

/// The position that a jump goes to; none that exists for a label that is
/// not resolved.
pub open spec fn jump_target(labels: Seq<Option<usize>>, to: BranchOffset) -> int {
    match to {
        BranchOffset::Offset(position) => position as int,
        BranchOffset::Label(label) => if label < labels.len() && labels[label as int] is Some {
            labels[label as int]->Some_0 as int
        } else {
            -1
        },
    }
}

/// The value that a register holds, where it holds one.
pub open spec fn value_in<V>(cell: Cell<V>) -> V {
    match cell {
        Cell::Value(v) => v,
        _ => arbitrary(),
    }
}

/// The row that `count` registers from `start_reg` on hold.
pub open spec fn row_in<V>(registers: Map<usize, Cell<V>>, start_reg: usize, count: usize) -> Seq<V> {
    Seq::new(count as nat, |i: int| value_in(registers[(start_reg + i) as usize]))
}

/// The state after one instruction.
pub open spec fn step<V>(program: ProgramView, m: Machine<V>) -> Machine<V> {
    if !(0 <= m.pc < program.code.len()) {
        m
    } else {
        let next = Machine { pc: m.pc + 1, ..m };
        match program.code[m.pc] {
            InsnView::SorterOpen { .. } => Machine { inserted: Seq::empty(), ..next },
            InsnView::Eval { expr, dest } => Machine {
                registers: m.registers.insert(dest, Cell::Value((m.row)(expr))),
                ..next
            },
            InsnView::Distinct { start_reg, num_regs, pc_if_seen, .. } => {
                let row = row_in(m.registers, start_reg, num_regs);
                if m.seen.contains(row) {
                    Machine { pc: jump_target(program.labels, pc_if_seen), ..m }
                } else {
                    Machine { seen: m.seen.insert(row), ..next }
                }
            },
            InsnView::MakeRecord { start_reg, count, dest_reg, .. } => Machine {
                registers: m.registers.insert(
                    dest_reg,
                    Cell::Record(row_in(m.registers, start_reg, count)),
                ),
                ..next
            },
            InsnView::SorterInsert { record_reg, .. } => match m.registers[record_reg] {
                Cell::Record(record) => Machine { inserted: m.inserted.push(record), ..next },
                _ => m,
            },
            InsnView::OpenPseudo { cursor_id, content_reg, .. } => Machine {
                views: m.views.insert(cursor_id, content_reg),
                ..next
            },
            InsnView::SorterSort { pc_if_empty, .. } => if m.rows.len() == 0 {
                Machine { pc: jump_target(program.labels, pc_if_empty), ..m }
            } else {
                Machine { position: 0, ..next }
            },
            InsnView::IfPos { reg, target_pc, decrement_by } => match m.registers[reg] {
                Cell::Count(n) => if n > 0 {
                    Machine {
                        pc: jump_target(program.labels, target_pc),
                        registers: m.registers.insert(reg, Cell::Count(n - decrement_by)),
                        ..m
                    }
                } else {
                    next
                },
                _ => m,
            },
            InsnView::SorterData { dest_reg, .. } => if 0 <= m.position < m.rows.len() {
                Machine {
                    registers: m.registers.insert(dest_reg, Cell::Record(m.rows[m.position])),
                    ..next
                }
            } else {
                m
            },
            InsnView::Column { cursor_id, column, dest } => if m.views.dom().contains(cursor_id) {
                match m.registers[m.views[cursor_id]] {
                    Cell::Record(record) => Machine {
                        registers: m.registers.insert(dest, Cell::Value(record[column as int])),
                        ..next
                    },
                    _ => m,
                }
            } else {
                m
            },
            InsnView::ResultRow { start_reg, count } => Machine {
                output: m.output.push(row_in(m.registers, start_reg, count)),
                ..next
            },
            InsnView::DecrJumpZero { reg, target_pc } => match m.registers[reg] {
                Cell::Count(n) => Machine {
                    pc: if n - 1 == 0 {
                        jump_target(program.labels, target_pc)
                    } else {
                        m.pc + 1
                    },
                    registers: m.registers.insert(reg, Cell::Count(n - 1)),
                    ..m
                },
                _ => m,
            },
            InsnView::SorterNext { pc_if_next, .. } => if m.position + 1 < m.rows.len() {
                Machine {
                    pc: jump_target(program.labels, pc_if_next),
                    position: m.position + 1,
                    ..m
                }
            } else {
                next
            },
        }
    }
}

/// The state after `steps` instructions.
pub open spec fn run<V>(program: ProgramView, m: Machine<V>, steps: nat) -> Machine<V>
    decreases steps,
{
    if steps == 0 {
        m
    } else {
        run(program, step(program, m), (steps - 1) as nat)
    }
}

/// Running on from where a run has got to is one longer run.
pub proof fn lemma_run_on<V>(program: ProgramView, m: Machine<V>, first: nat, then: nat)
    ensures
        run(program, run(program, m, first), then) == run(program, m, first + then),
    decreases first,
{
    if first > 0 {
        lemma_run_on(program, step(program, m), (first - 1) as nat, then);
    }
}

/// A jump goes to the same position before and after labels are resolved.
pub proof fn lemma_resolved_target(labels: Seq<Option<usize>>, to: BranchOffset)
    ensures
        jump_target(labels, resolved_target(labels, to)) == jump_target(labels, to),
{
}

/// A program runs alike before and after its labels are resolved.
pub proof fn lemma_patched_runs_alike<V>(program: ProgramView, m: Machine<V>, steps: nat)
    ensures
        run(program.patched(), m, steps) == run(program, m, steps),
    decreases steps,
{
    if steps > 0 {
        if 0 <= m.pc < program.code.len() {
            match program.code[m.pc] {
                InsnView::SorterSort { pc_if_empty, .. } => {
                    lemma_resolved_target(program.labels, pc_if_empty);
                },
                InsnView::SorterNext { pc_if_next, .. } => {
                    lemma_resolved_target(program.labels, pc_if_next);
                },
                InsnView::IfPos { target_pc, .. } => {
                    lemma_resolved_target(program.labels, target_pc);
                },
                InsnView::DecrJumpZero { target_pc, .. } => {
                    lemma_resolved_target(program.labels, target_pc);
                },
                InsnView::Distinct { pc_if_seen, .. } => {
                    lemma_resolved_target(program.labels, pc_if_seen);
                },
                _ => {},
            }
        }
        assert(step(program.patched(), m) == step(program, m));
        lemma_patched_runs_alike(program, step(program, m), (steps - 1) as nat);
    }
}

/// A draining loop: where its instructions stand in a program, and the
/// cursors and registers that it works with.
pub struct DrainLoop {
    /// The position of the loop's first instruction, which opens the
    /// decoding view.
    pub base: int,
    /// The cursor of the decoding view.
    pub view: usize,
    /// The register that a sorted record is fetched into.
    pub data_reg: usize,
    /// The register that counts the rows still to be skipped, if rows are
    /// skipped.
    pub offset_reg: Option<usize>,
    /// The register that counts the rows still to be output, if they are
    /// counted.
    pub limit_reg: Option<usize>,
    /// The first of the registers that an output row is assembled in.
    pub start_reg: usize,
    /// For each column of an output row, the record column that it is
    /// decoded from.
    pub slots: Seq<usize>,
}

impl DrainLoop {
    /// The first instruction of the loop's body.
    pub open spec fn head(self) -> int {
        self.base + 2
    }

    /// The instruction that fetches the current record.
    pub open spec fn fetch(self) -> int {
        self.head() + if self.offset_reg is Some {
            1int
        } else {
            0int
        }
    }

    /// The instruction that decodes column `i` of the output row.
    pub open spec fn decode(self, i: int) -> int {
        self.fetch() + 1 + i
    }

    /// The instruction that outputs the row.
    pub open spec fn emit_row(self) -> int {
        self.fetch() + 1 + self.slots.len()
    }

    /// The loop's step to the next row.
    pub open spec fn next(self) -> int {
        self.emit_row() + 1 + if self.limit_reg is Some {
            1int
        } else {
            0int
        }
    }

    /// What follows the loop.
    pub open spec fn end(self) -> int {
        self.next() + 1
    }

    /// Whether a register is one of those that an output row is assembled in.
    pub open spec fn in_row(self, reg: usize) -> bool {
        self.start_reg <= reg < self.start_reg + self.slots.len()
    }

    /// Whether the loop's registers are all different ones.
    pub open spec fn registers_apart(self) -> bool {
        &&& self.start_reg + self.slots.len() <= usize::MAX + 1
        &&& !self.in_row(self.data_reg)
        &&& self.offset_reg matches Some(reg) ==> reg != self.data_reg && !self.in_row(reg)
        &&& self.limit_reg matches Some(reg) ==> reg != self.data_reg && !self.in_row(reg)
        &&& self.offset_reg is Some && self.limit_reg is Some ==> self.offset_reg
            != self.limit_reg
    }
}

/// Whether a program holds the instructions of a draining loop where the
/// loop says, with every jump resolved to where it belongs.
pub open spec fn holds_loop(program: ProgramView, l: DrainLoop) -> bool {
    &&& 0 <= l.base
    &&& l.end() <= program.code.len()
    &&& program.code[l.base] matches InsnView::OpenPseudo { cursor_id, content_reg, .. }
        && cursor_id == l.view && content_reg == l.data_reg
    &&& program.code[l.base + 1] matches InsnView::SorterSort { pc_if_empty, .. } && jump_target(
        program.labels,
        pc_if_empty,
    ) == l.end()
    &&& l.offset_reg matches Some(counter) ==> program.code[l.head()] matches InsnView::IfPos {
        reg,
        target_pc,
        decrement_by,
    } && reg == counter && decrement_by == 1 && jump_target(program.labels, target_pc) == l.next()
    &&& program.code[l.fetch()] matches InsnView::SorterData { dest_reg, .. } && dest_reg
        == l.data_reg
    &&& forall|i: int|
        0 <= i < l.slots.len() ==> #[trigger] program.code[l.decode(i)] == (InsnView::Column {
            cursor_id: l.view,
            column: l.slots[i],
            dest: (l.start_reg + i) as usize,
        })
    &&& program.code[l.emit_row()] == (InsnView::ResultRow {
        start_reg: l.start_reg,
        count: l.slots.len() as usize,
    })
    &&& l.limit_reg matches Some(counter) ==> program.code[l.emit_row() + 1]
        matches InsnView::DecrJumpZero { reg, target_pc } && reg == counter && jump_target(
        program.labels,
        target_pc,
    ) == l.end()
    &&& program.code[l.next()] matches InsnView::SorterNext { pc_if_next, .. } && jump_target(
        program.labels,
        pc_if_next,
    ) == l.head()
}

/// The output row that is decoded from a record.
pub open spec fn project<V>(slots: Seq<usize>, record: Seq<V>) -> Seq<V> {
    Seq::new(slots.len(), |i: int| record[slots[i] as int])
}

/// The rows that are left of sorted rows once the first `offset` of them are
/// skipped and, where there is a limit, no more than `limit` are taken.
pub open spec fn window<A>(rows: Seq<A>, offset: nat, limit: Option<nat>) -> Seq<A> {
    let rest = if offset <= rows.len() {
        rows.skip(offset as int)
    } else {
        Seq::empty()
    };
    match limit {
        Some(n) => if n <= rest.len() {
            rest.take(n as int)
        } else {
            rest
        },
        None => rest,
    }
}

/// Skipping and limiting rows is the same before and after each row is
/// turned into another.
pub proof fn lemma_window_of_mapped<A, B>(
    rows: Seq<A>,
    f: spec_fn(A) -> B,
    offset: nat,
    limit: Option<nat>,
)
    ensures
        window(rows.map_values(f), offset, limit) == window(rows, offset, limit).map_values(f),
{
    let mapped = rows.map_values(f);
    if offset <= rows.len() {
        let rest = rows.skip(offset as int);
        assert(mapped.skip(offset as int) =~= rest.map_values(f));
        match limit {
            Some(n) => {
                if n <= rest.len() {
                    assert(rest.map_values(f).take(n as int) =~= rest.take(n as int).map_values(f));
                }
            },
            None => {},
        }
    } else {
        assert(Seq::<A>::empty().map_values(f) =~= Seq::<B>::empty());
        match limit {
            Some(n) => {
                if n == 0 {
                    assert(Seq::<B>::empty().take(0) =~= Seq::<B>::empty());
                    assert(Seq::<A>::empty().take(0) =~= Seq::<A>::empty());
                }
            },
            None => {},
        }
    }
}

/// The output rows of a run of the loop over sorted records.
pub open spec fn drained<V>(
    slots: Seq<usize>,
    rows: Seq<Seq<V>>,
    offset: nat,
    limit: Option<nat>,
) -> Seq<Seq<V>> {
    window(rows, offset, limit).map_values(|record: Seq<V>| project(slots, record))
}

/// Whether the counters of a machine hold the number of rows to skip and the
/// number of rows to output, as far as the loop counts them. Rows that are
/// counted against a limit are counted down from one at least.
pub open spec fn counters_hold<V>(
    l: DrainLoop,
    m: Machine<V>,
    offset: nat,
    limit: Option<nat>,
) -> bool {
    &&& match l.offset_reg {
        Some(reg) => m.registers[reg] == Cell::<V>::Count(offset as int),
        None => offset == 0,
    }
    &&& match l.limit_reg {
        Some(reg) => limit matches Some(n) && n >= 1 && m.registers[reg] == Cell::<V>::Count(
            n as int,
        ),
        None => limit is None,
    }
}

/// With rows left to skip, the first row is skipped and one row fewer is
/// left to skip.
proof fn lemma_window_skips<A>(rows: Seq<A>, p: int, offset: nat, limit: Option<nat>)
    requires
        0 <= p < rows.len(),
        offset > 0,
    ensures
        window(rows.skip(p), offset, limit) == window(
            rows.skip(p + 1),
            (offset - 1) as nat,
            limit,
        ),
{
    let here = rows.skip(p);
    let there = rows.skip(p + 1);
    if offset <= here.len() {
        assert(here.skip(offset as int) =~= there.skip(offset - 1));
    }
}

/// With no row left to skip, the first row is taken, and of the rows behind
/// it one fewer than the limit, where there is a limit.
proof fn lemma_window_takes<A>(rows: Seq<A>, p: int, limit: Option<nat>)
    requires
        0 <= p < rows.len(),
        limit matches Some(n) ==> n >= 1,
    ensures
        window(rows.skip(p), 0, limit) == seq![rows[p]] + window(
            rows.skip(p + 1),
            0,
            match limit {
                Some(n) => Some((n - 1) as nat),
                None => None,
            },
        ),
        window(rows.skip(p + 1), 0, Some(0nat)) == Seq::<A>::empty(),
{
    let here = rows.skip(p);
    let there = rows.skip(p + 1);
    assert(here.skip(0) =~= here);
    assert(there.skip(0) =~= there);
    assert(here =~= seq![rows[p]] + there);
    match limit {
        Some(n) => {
            if n <= here.len() {
                assert(here.take(n as int) =~= seq![rows[p]] + there.take(n - 1));
            }
        },
        None => {},
    }
    assert(there.take(0) =~= Seq::<A>::empty());
}

/// The output rows of a first record and of the records behind it.
proof fn lemma_drained_first<V>(slots: Seq<usize>, first: Seq<V>, rest: Seq<Seq<V>>)
    ensures
        (seq![first] + rest).map_values(|record: Seq<V>| project(slots, record)) == seq![
            project(slots, first),
        ] + rest.map_values(|record: Seq<V>| project(slots, record)),
        Seq::<Seq<V>>::empty().map_values(|record: Seq<V>| project(slots, record)) == Seq::<
            Seq<V>,
        >::empty(),
{
    assert((seq![first] + rest).map_values(|record: Seq<V>| project(slots, record)) =~= seq![
        project(slots, first),
    ] + rest.map_values(|record: Seq<V>| project(slots, record)));
    assert(Seq::<Seq<V>>::empty().map_values(|record: Seq<V>| project(slots, record))
        =~= Seq::<Seq<V>>::empty());
}

/// Whether `m` is what `from` has become once the first `k` columns of the
/// record are decoded into the registers of the output row.
spec fn decoded_upto<V>(l: DrainLoop, from: Machine<V>, record: Seq<V>, k: int, m: Machine<V>) -> bool {
    &&& m.pc == l.decode(k)
    &&& m.rows == from.rows
    &&& m.position == from.position
    &&& m.views == from.views
    &&& m.output == from.output
    &&& forall|reg: usize|
        !(l.start_reg <= reg < l.start_reg + k) ==> #[trigger] m.registers[reg]
            == from.registers[reg]
    &&& forall|i: int|
        0 <= i < k ==> #[trigger] m.registers[(l.start_reg + i) as usize] == Cell::Value(
            record[l.slots[i] as int],
        )
}

/// One instruction is run at a time.
proof fn lemma_run_one<V>(program: ProgramView, m: Machine<V>)
    ensures
        run(program, m, 1) == step(program, m),
{
    reveal_with_fuel(run, 2);
}

/// After as many instructions as the output row has columns, from the first
/// instruction that decodes one, every column is decoded into its register
/// and nothing else has changed.
proof fn lemma_decodes<V>(
    program: ProgramView,
    l: DrainLoop,
    from: Machine<V>,
    record: Seq<V>,
    k: nat,
)
    requires
        holds_loop(program, l),
        l.registers_apart(),
        from.pc == l.decode(0),
        from.views.dom().contains(l.view),
        from.views[l.view] == l.data_reg,
        from.registers[l.data_reg] == Cell::Record(record),
        k <= l.slots.len(),
    ensures
        decoded_upto(l, from, record, k as int, run(program, from, k)),
    decreases k,
{
    if k > 0 {
        let before = run(program, from, (k - 1) as nat);
        lemma_decodes(program, l, from, record, (k - 1) as nat);
        lemma_run_on(program, from, (k - 1) as nat, 1);
        lemma_run_one(program, before);
        let after = step(program, before);
        assert(run(program, from, k) == after);
        assert(program.code[l.decode(k - 1)] == (InsnView::Column {
            cursor_id: l.view,
            column: l.slots[k - 1],
            dest: (l.start_reg + (k - 1)) as usize,
        }));
        assert(before.registers[l.data_reg] == from.registers[l.data_reg]);
        let dest = (l.start_reg + (k - 1)) as usize;
        assert(after.registers == before.registers.insert(
            dest,
            Cell::Value(record[l.slots[k - 1] as int]),
        ));
        assert forall|i: int| 0 <= i < k implies #[trigger] after.registers[(l.start_reg
            + i) as usize] == Cell::Value(record[l.slots[i] as int]) by {
            if i < k - 1 {
                assert(before.registers[(l.start_reg + i) as usize] == Cell::Value(
                    record[l.slots[i] as int],
                ));
            }
        }
    }
}

/// A run of one instruction and then some more is a run of one more.
proof fn lemma_step_then<V>(program: ProgramView, m: Machine<V>, steps: nat)
    ensures
        run(program, m, steps + 1) == run(program, step(program, m), steps),
{
}

/// Whether a machine is about to run the body of the loop on a row of the
/// sorter, with the decoding view open.
pub open spec fn at_head<V>(l: DrainLoop, m: Machine<V>) -> bool {
    &&& m.pc == l.head()
    &&& 0 <= m.position < m.rows.len()
    &&& m.views.dom().contains(l.view)
    &&& m.views[l.view] == l.data_reg
}

/// With no row left to skip, the body of the loop fetches the current
/// record, decodes the output row from it and outputs it. The counters are
/// as they were.
proof fn lemma_outputs_row<V>(program: ProgramView, l: DrainLoop, m: Machine<V>) -> (steps: nat)
    requires
        holds_loop(program, l),
        l.registers_apart(),
        at_head(l, m),
        l.offset_reg matches Some(reg) ==> m.registers[reg] == Cell::<V>::Count(0),
    ensures
        ({
            let after = run(program, m, steps);
            &&& after.pc == l.emit_row() + 1
            &&& after.output == m.output.push(project(l.slots, m.rows[m.position]))
            &&& after.rows == m.rows
            &&& after.position == m.position
            &&& after.views == m.views
            &&& l.offset_reg matches Some(reg) ==> after.registers[reg] == m.registers[reg]
            &&& l.limit_reg matches Some(reg) ==> after.registers[reg] == m.registers[reg]
        }),
{
    let n = l.slots.len();
    let record = m.rows[m.position];
    let ready = if l.offset_reg is Some {
        step(program, m)
    } else {
        m
    };
    assert(ready.pc == l.fetch());
    assert(ready.registers == m.registers);
    let fetched = step(program, ready);
    assert(fetched.pc == l.decode(0));
    assert(fetched.registers == m.registers.insert(l.data_reg, Cell::Record(record)));
    lemma_decodes(program, l, fetched, record, n);
    let decoded = run(program, fetched, n);
    assert(decoded.pc == l.emit_row());
    let shown = step(program, decoded);
    assert(row_in(decoded.registers, l.start_reg, n as usize) =~= project(l.slots, record)) by {
        assert forall|i: int| 0 <= i < n implies row_in(
            decoded.registers,
            l.start_reg,
            n as usize,
        )[i] == project(l.slots, record)[i] by {
            assert(decoded.registers[(l.start_reg + i) as usize] == Cell::Value(
                record[l.slots[i] as int],
            ));
        }
    }
    assert(shown.output == m.output.push(project(l.slots, record)));
    // The steps, counted back from the last.
    lemma_run_one(program, decoded);
    lemma_run_on(program, fetched, n, 1);
    assert(run(program, fetched, n + 1) == shown);
    lemma_step_then(program, ready, n + 1);
    assert(run(program, ready, n + 2) == shown);
    if l.offset_reg is Some {
        lemma_step_then(program, m, n + 2);
        n + 3
    } else {
        n + 2
    }
}

/// From the head of the loop on a row of the sorter, the machine reaches the
/// loop's end, and what it outputs on the way is the rows from the current
/// one on, less those to skip and no more of them than the limit.
proof fn lemma_loop<V>(
    program: ProgramView,
    l: DrainLoop,
    m: Machine<V>,
    offset: nat,
    limit: Option<nat>,
) -> (steps: nat)
    requires
        holds_loop(program, l),
        l.registers_apart(),
        at_head(l, m),
        counters_hold(l, m, offset, limit),
    ensures
        run(program, m, steps).pc == l.end(),
        run(program, m, steps).output == m.output + drained(
            l.slots,
            m.rows.skip(m.position),
            offset,
            limit,
        ),
    decreases m.rows.len() - m.position,
{
    let p = m.position;
    let rest = m.rows.skip(p + 1);
    if offset > 0 {
        let skipped = step(program, m);
        assert(skipped.pc == l.next());
        let moved = step(program, skipped);
        lemma_window_skips(m.rows, p, offset, limit);
        lemma_step_then(program, m, 1);
        lemma_run_one(program, skipped);
        assert(run(program, m, 2) == moved);
        if p + 1 < m.rows.len() {
            let more = lemma_loop(program, l, moved, (offset - 1) as nat, limit);
            lemma_run_on(program, m, 2, more);
            2 + more
        } else {
            assert(rest =~= Seq::<Seq<V>>::empty());
            assert(window(rest, (offset - 1) as nat, limit) =~= Seq::<Seq<V>>::empty());
            assert(m.output + drained(l.slots, m.rows.skip(p), offset, limit) =~= m.output);
            2
        }
    } else {
        let body = lemma_outputs_row(program, l, m);
        let shown = run(program, m, body);
        let row = project(l.slots, m.rows[p]);
        let fewer: Option<nat> = match limit {
            Some(n) => Some((n - 1) as nat),
            None => None,
        };
        lemma_window_takes(m.rows, p, limit);
        lemma_drained_first(l.slots, m.rows[p], window(rest, 0, fewer));
        assert(drained(l.slots, m.rows.skip(p), 0, limit) == seq![row] + drained(
            l.slots,
            rest,
            0,
            fewer,
        ));
        assert(m.output + (seq![row] + drained(l.slots, rest, 0, fewer)) =~= m.output.push(row)
            + drained(l.slots, rest, 0, fewer));
        let counted = if l.limit_reg is Some {
            step(program, shown)
        } else {
            shown
        };
        let counting: nat = if l.limit_reg is Some {
            1
        } else {
            0
        };
        if l.limit_reg is Some {
            lemma_run_one(program, shown);
            lemma_run_on(program, m, body, 1);
        }
        assert(run(program, m, body + counting) == counted);
        assert(counted.output == m.output.push(row));
        if fewer == Some(0nat) {
            assert(counted.pc == l.end());
            assert(drained(l.slots, rest, 0, fewer) =~= Seq::<Seq<V>>::empty());
            assert(m.output.push(row) + Seq::<Seq<V>>::empty() =~= m.output.push(row));
            body + counting
        } else {
            assert(counted.pc == l.next());
            let moved = step(program, counted);
            lemma_run_one(program, counted);
            lemma_run_on(program, m, body + counting, 1);
            assert(run(program, m, body + counting + 1) == moved);
            if p + 1 < m.rows.len() {
                let more = lemma_loop(program, l, moved, 0, fewer);
                lemma_run_on(program, m, body + counting + 1, more);
                body + counting + 1 + more
            } else {
                assert(rest =~= Seq::<Seq<V>>::empty());
                assert(window(rest, 0, fewer) =~= Seq::<Seq<V>>::empty());
                assert(drained(l.slots, rest, 0, fewer) =~= Seq::<Seq<V>>::empty());
                assert(m.output.push(row) + Seq::<Seq<V>>::empty() =~= m.output.push(row));
                body + counting + 1
            }
        }
    }
}

/// A run of a draining loop from its first instruction ends behind the loop.
/// The rows that it outputs are the sorter's rows in the sorter's order, less
/// the first `offset` of them and no more than `limit`, each decoded into the
/// columns of the output row. Rows that are skipped are not counted against
/// the limit. Where the sorter holds no row, the run is over after the two
/// instructions that open the view and start the iteration: no record is
/// fetched or decoded and no row is output.
pub proof fn lemma_drains<V>(
    program: ProgramView,
    l: DrainLoop,
    m: Machine<V>,
    offset: nat,
    limit: Option<nat>,
) -> (steps: nat)
    requires
        holds_loop(program, l),
        l.registers_apart(),
        m.pc == l.base,
        counters_hold(l, m, offset, limit),
    ensures
        run(program, m, steps).pc == l.end(),
        run(program, m, steps).output == m.output + drained(l.slots, m.rows, offset, limit),
        m.rows.len() == 0 ==> steps == 2 && run(program, m, steps).output == m.output && run(
            program,
            m,
            steps,
        ).registers == m.registers,
{
    let opened = step(program, m);
    let started = step(program, opened);
    lemma_step_then(program, m, 1);
    lemma_run_one(program, opened);
    assert(run(program, m, 2) == started);
    if m.rows.len() == 0 {
        assert(window(m.rows, offset, limit) =~= Seq::<Seq<V>>::empty());
        assert(m.output + drained(l.slots, m.rows, offset, limit) =~= m.output);
        2
    } else {
        assert(m.rows.skip(0) =~= m.rows);
        let more = lemma_loop(program, l, started, offset, limit);
        lemma_run_on(program, m, 2, more);
        2 + more
    }
}

/// The instructions that feed one candidate row to the sorter: where they
/// stand in a program, and what they work with.
pub struct FeedBlock {
    /// The position of the first instruction.
    pub base: int,
    /// The expression that each column of the record holds the value of.
    pub exprs: Seq<ExprView>,
    /// The first of the registers that the record is assembled in.
    pub start_reg: usize,
    /// Where a row that was seen before goes on, if rows are checked.
    pub on_duplicate: Option<int>,
    /// The register that holds the packed record.
    pub record_reg: usize,
}

impl FeedBlock {
    /// The instruction that packs the record.
    pub open spec fn pack(self) -> int {
        self.base + self.exprs.len() + if self.on_duplicate is Some {
            1int
        } else {
            0int
        }
    }

    /// What follows the instructions.
    pub open spec fn end(self) -> int {
        self.pack() + 2
    }
}

/// Whether a program holds the instructions of a feed block where the block
/// says.
pub open spec fn holds_feed(program: ProgramView, f: FeedBlock) -> bool {
    &&& 0 <= f.base
    &&& f.end() <= program.code.len()
    &&& f.start_reg + f.exprs.len() <= usize::MAX + 1
    &&& forall|j: int|
        0 <= j < f.exprs.len() ==> #[trigger] program.code[f.base + j] == (InsnView::Eval {
            expr: f.exprs[j],
            dest: (f.start_reg + j) as usize,
        })
    &&& f.on_duplicate matches Some(target) ==> program.code[f.pack() - 1]
        matches InsnView::Distinct { start_reg, num_regs, pc_if_seen, .. } && start_reg
        == f.start_reg && num_regs == f.exprs.len() && jump_target(program.labels, pc_if_seen)
        == target
    &&& program.code[f.pack()] matches InsnView::MakeRecord { start_reg, count, dest_reg, .. }
        && start_reg == f.start_reg && count == f.exprs.len() && dest_reg == f.record_reg
    &&& program.code[f.pack() + 1] matches InsnView::SorterInsert { record_reg, .. } && record_reg
        == f.record_reg
}

/// Whether `m` is what `from` has become once the first `k` expressions are
/// evaluated into the registers of the record.
spec fn evaluated_upto<V>(f: FeedBlock, from: Machine<V>, k: int, m: Machine<V>) -> bool {
    &&& m.pc == f.base + k
    &&& m.row == from.row
    &&& m.seen == from.seen
    &&& m.inserted == from.inserted
    &&& forall|j: int|
        0 <= j < k ==> #[trigger] m.registers[(f.start_reg + j) as usize] == Cell::Value(
            (from.row)(f.exprs[j]),
        )
}

/// After as many instructions as the record has columns, every expression is
/// evaluated into its register.
proof fn lemma_evaluates<V>(program: ProgramView, f: FeedBlock, from: Machine<V>, k: nat)
    requires
        holds_feed(program, f),
        from.pc == f.base,
        k <= f.exprs.len(),
    ensures
        evaluated_upto(f, from, k as int, run(program, from, k)),
    decreases k,
{
    if k > 0 {
        let before = run(program, from, (k - 1) as nat);
        lemma_evaluates(program, f, from, (k - 1) as nat);
        lemma_run_on(program, from, (k - 1) as nat, 1);
        lemma_run_one(program, before);
        let after = step(program, before);
        assert(run(program, from, k) == after);
        assert(program.code[f.base + (k - 1)] == (InsnView::Eval {
            expr: f.exprs[k - 1],
            dest: (f.start_reg + (k - 1)) as usize,
        }));
        assert forall|j: int| 0 <= j < k implies #[trigger] after.registers[(f.start_reg
            + j) as usize] == Cell::Value((from.row)(f.exprs[j])) by {
            if j < k - 1 {
                assert(before.registers[(f.start_reg + j) as usize] == Cell::Value(
                    (from.row)(f.exprs[j]),
                ));
            }
        }
    }
}

/// A run of a feed block from its first instruction inserts one record into
/// the sorter and ends behind the block. The record holds the value that each
/// expression of the block has on the candidate row, in the block's order.
/// Where rows are checked and the values were seen before, nothing is
/// inserted, and the run ends where such a row goes on.
pub proof fn lemma_feeds<V>(program: ProgramView, f: FeedBlock, m: Machine<V>) -> (steps: nat)
    requires
        holds_feed(program, f),
        m.pc == f.base,
    ensures
        ({
            let after = run(program, m, steps);
            let record = f.exprs.map_values(m.row);
            if f.on_duplicate is Some && m.seen.contains(record) {
                &&& after.pc == f.on_duplicate->Some_0
                &&& after.inserted == m.inserted
                &&& after.seen == m.seen
            } else {
                &&& after.pc == f.end()
                &&& after.inserted == m.inserted.push(record)
                &&& after.seen == if f.on_duplicate is Some {
                    m.seen.insert(record)
                } else {
                    m.seen
                }
            }
        }),
{
    let n = f.exprs.len();
    let record = f.exprs.map_values(m.row);
    lemma_evaluates(program, f, m, n);
    let evaluated = run(program, m, n);
    assert(row_in(evaluated.registers, f.start_reg, n as usize) =~= record) by {
        assert forall|j: int| 0 <= j < n implies row_in(
            evaluated.registers,
            f.start_reg,
            n as usize,
        )[j] == record[j] by {
            assert(evaluated.registers[(f.start_reg + j) as usize] == Cell::Value(
                (m.row)(f.exprs[j]),
            ));
        }
    }
    let checked = if f.on_duplicate is Some {
        step(program, evaluated)
    } else {
        evaluated
    };
    let checking: nat = if f.on_duplicate is Some {
        1
    } else {
        0
    };
    if f.on_duplicate is Some {
        lemma_run_one(program, evaluated);
        lemma_run_on(program, m, n, 1);
    }
    assert(run(program, m, n + checking) == checked);
    if f.on_duplicate is Some && m.seen.contains(record) {
        n + checking
    } else {
        assert(checked.pc == f.pack());
        assert(checked.registers == evaluated.registers);
        let packed = step(program, checked);
        let inserted = step(program, packed);
        lemma_run_one(program, checked);
        lemma_run_on(program, m, n + checking, 1);
        lemma_run_one(program, packed);
        lemma_run_on(program, m, n + checking + 1, 1);
        assert(run(program, m, n + checking + 2) == inserted);
        assert(packed.registers[f.record_reg] == Cell::Record(record));
        n + checking + 2
    }
}

} // verus!
