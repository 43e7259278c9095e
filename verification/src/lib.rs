//! A verified interpreter for a minimal tape-based esoteric language: eight
//! single-character operators act on a fixed tape of 30,000 byte cells through
//! a movable, wrapping pointer, with bracket-delimited loops and single-byte
//! console I/O.
//!
//! The engine itself is pure: the program text and the input stream are byte
//! sequences held in the interpreter state, and everything the program emits
//! (characters and diagnostics) is recorded as a sequence of output events.
//! A thin shell around the library does the actual reading and printing.

use vstd::prelude::*;

pub mod engine;

verus! {

/// Number of cells on the tape; fixed for the lifetime of the engine.
pub const TAPE_LEN: usize = 30000;

/// The operator characters, as bytes: `+ - > < . , [ ]`.
pub const OP_INC: u8 = 43;

pub const OP_DEC: u8 = 45;

pub const OP_RIGHT: u8 = 62;

pub const OP_LEFT: u8 = 60;

pub const OP_OUT: u8 = 46;

pub const OP_IN: u8 = 44;

pub const OP_OPEN: u8 = 91;

pub const OP_CLOSE: u8 = 93;

/// Start and end positions of one bracket pair within the source text.
/// `end` is 0 until the matching closing bracket has been seen.
#[derive(Clone, Copy, PartialEq, Eq, Structural, Debug)]
pub struct LoopFrame {
    pub start: usize,
    pub end: usize,
}

/// One thing the program emitted on its output stream.
#[derive(Clone, Copy, PartialEq, Eq, Structural, Debug)]
pub enum OutputEvent {
    /// A cell value that forms a valid single-byte character (below 128).
    Byte(u8),
    /// A cell value that does not form valid single-byte text; the shell
    /// prints a diagnostic line in place of the character.
    NonEncodable,
}

/// The unrecoverable failures of a run. Each aborts execution at once.
#[derive(Clone, Copy, PartialEq, Eq, Structural, Debug)]
pub enum EngineError {
    /// A loop construct attempted to execute while its frame still carried
    /// the unresolved end position 0: its closing bracket was never recorded.
    UnmatchedOpenLoop,
    /// The loop bookkeeping can no longer describe the construct being
    /// closed: a closing bracket arrived with open loops outstanding but no
    /// frame left to complete (the stack had been cleared by a nested
    /// construct), a frame's recorded span was inverted, or the open-loop
    /// counter ran out of range. Irregularly nested programs end here.
    LoopStackCorrupted,
    /// The input stream could not supply the byte that `,` demands.
    InputStreamFailure,
    /// The engine's loop-iteration budget ran out: a machine limit (the
    /// budget starts at the largest machine integer) on how many times loop
    /// bodies can be re-entered in one run. A program whose loop never drives
    /// its guard cell to zero ends here instead of running forever.
    IterationBudgetExhausted,
}

/// The whole interpreter: tape, pointer, source text, loop bookkeeping, and
/// the modelled input and output streams.
pub struct InterpreterState {
    /// The tape; always exactly `TAPE_LEN` cells.
    pub cells: Vec<u8>,
    /// Index of the currently selected cell; always below `TAPE_LEN`.
    pub cell_index: usize,
    /// How many opening brackets are currently open.
    pub loops_opened: usize,
    /// The program text, loaded once and never mutated by execution.
    pub file_content: Vec<u8>,
    /// The loop stack: one frame per opening bracket since the last clear.
    pub loops_data: Vec<LoopFrame>,
    /// The bytes the input stream will yield, in order.
    pub input: Vec<u8>,
    /// How many input bytes have been consumed so far.
    pub input_pos: usize,
    /// Everything emitted so far, oldest first.
    pub output: Vec<OutputEvent>,
    /// How many stray closing brackets have been reported (saturating).
    pub stray_closes: usize,
    /// How many loop-body re-entries the run may still perform.
    pub iteration_budget: usize,
}

/// The eight characters that perform an action; every other character is a
/// comment and produces no effect.
pub open spec fn is_operator(b: u8) -> bool {
    b == OP_INC || b == OP_DEC || b == OP_RIGHT || b == OP_LEFT || b == OP_OUT || b == OP_IN || b == OP_OPEN
        || b == OP_CLOSE
}

/// The part of the interpreter a straight-line (bracket-free) span can
/// touch, with each component in its mathematical form.
#[verifier::ext_equal]
pub struct MachineView {
    pub cells: Seq<u8>,
    pub cell_index: int,
    pub input: Seq<u8>,
    pub input_pos: int,
    pub output: Seq<OutputEvent>,
}

/// What one non-bracket character does to the machine. A `,` is only
/// meaningful when input is available; `straight_run` handles exhaustion.
pub open spec fn straight_step(m: MachineView, b: u8) -> MachineView {
    if b == OP_INC {
        MachineView {
            cells: m.cells.update(
                m.cell_index,
                if m.cells[m.cell_index] == 255 {
                    0u8
                } else {
                    255u8
                },
            ),
            ..m
        }
    } else if b == OP_DEC {
        MachineView {
            cells: m.cells.update(
                m.cell_index,
                if m.cells[m.cell_index] == 0 {
                    255u8
                } else {
                    (m.cells[m.cell_index] - 1) as u8
                },
            ),
            ..m
        }
    } else if b == OP_RIGHT {
        MachineView {
            cell_index: if m.cell_index == TAPE_LEN - 1 {
                0
            } else {
                m.cell_index + 1
            },
            ..m
        }
    } else if b == OP_LEFT {
        MachineView {
            cell_index: if m.cell_index == 0 {
                TAPE_LEN - 1
            } else {
                m.cell_index - 1
            },
            ..m
        }
    } else if b == OP_OUT {
        MachineView {
            output: m.output.push(
                if m.cells[m.cell_index] < 128 {
                    OutputEvent::Byte(m.cells[m.cell_index])
                } else {
                    OutputEvent::NonEncodable
                },
            ),
            ..m
        }
    } else if b == OP_IN {
        MachineView {
            cells: m.cells.update(m.cell_index, m.input[m.input_pos]),
            input_pos: m.input_pos + 1,
            ..m
        }
    } else {
        m
    }
}

/// Execute a bracket-free span `src[lo..hi]` on the machine: the exact
/// meaning of straight-line code, one character after the next, stopping
/// with a failure the moment `,` finds the input exhausted.
pub open spec fn straight_run(m: MachineView, src: Seq<u8>, lo: int, hi: int) -> (
    MachineView,
    Result<(), EngineError>,
)
    decreases hi - lo,
{
    if lo >= hi {
        (m, Ok(()))
    } else {
        let b = src[lo];
        if b == OP_IN && m.input_pos >= m.input.len() {
            (m, Err(EngineError::InputStreamFailure))
        } else {
            straight_run(straight_step(m, b), src, lo + 1, hi)
        }
    }
}

/// One more stray closing bracket is reported; the count keeps its
/// saturation at the machine limit.
pub open spec fn bump_stray(s: int) -> int {
    if s == usize::MAX {
        s
    } else {
        s + 1
    }
}

/// Execute a span `src[lo..hi]` that holds no opening bracket, starting with
/// no loop open: every closing bracket is stray and only reported, and every
/// other character acts as in straight-line code. This is the exact meaning
/// of execution outside loop constructs: a stray `]` never stops the run.
pub open spec fn stray_tolerant_run(
    m: MachineView,
    strays: int,
    src: Seq<u8>,
    lo: int,
    hi: int,
) -> (MachineView, int, Result<(), EngineError>)
    decreases hi - lo,
{
    if lo >= hi {
        (m, strays, Ok(()))
    } else {
        let b = src[lo];
        if b == OP_CLOSE {
            stray_tolerant_run(m, bump_stray(strays), src, lo + 1, hi)
        } else if b == OP_IN && m.input_pos >= m.input.len() {
            (m, strays, Err(EngineError::InputStreamFailure))
        } else {
            stray_tolerant_run(straight_step(m, b), strays, src, lo + 1, hi)
        }
    }
}

/// Execute a whole loop construct whose body `src[lo..hi]` is bracket-free:
/// while the cell under the pointer is non-zero, run the body once more.
/// `fuel` bounds the number of re-entries, exactly as the engine's iteration
/// budget does; a construct that needs more ends in the budget failure.
pub open spec fn straight_loop_run(
    m: MachineView,
    src: Seq<u8>,
    lo: int,
    hi: int,
    fuel: nat,
) -> (MachineView, Result<(), EngineError>)
    decreases fuel,
{
    if m.cells[m.cell_index] == 0 {
        (m, Ok(()))
    } else if fuel == 0 {
        (m, Err(EngineError::IterationBudgetExhausted))
    } else {
        let pass = straight_run(m, src, lo, hi);
        if pass.1 is Err {
            pass
        } else {
            straight_loop_run(pass.0, src, lo, hi, (fuel - 1) as nat)
        }
    }
}

impl InterpreterState {
    /// Structural well-formedness: the tape has its fixed length, the pointer
    /// is on it, and the input cursor has not run past the input.
    pub open spec fn wf(self) -> bool {
        &&& self.cells@.len() == TAPE_LEN
        &&& self.cell_index < TAPE_LEN
        &&& self.input_pos <= self.input@.len()
    }

    /// The value of the currently selected cell.
    pub open spec fn cur_cell(self) -> u8 {
        self.cells@[self.cell_index as int]
    }

    /// The straight-line view of this state.
    pub open spec fn machine_view(self) -> MachineView {
        MachineView {
            cells: self.cells@,
            cell_index: self.cell_index as int,
            input: self.input@,
            input_pos: self.input_pos as int,
            output: self.output@,
        }
    }

    /// The loop stack is compatible with a scan that starts at `lo`: the top
    /// frame, if any, opened no earlier than one position before `lo` (the
    /// construct whose body begins at `lo` opened at `lo - 1`).
    pub open spec fn frames_ok(self, lo: int) -> bool {
        self.loops_data@.len() == 0 || self.loops_data@.last().start + 1 >= lo
    }

    /// Tape and pointer agree with `other`.
    pub open spec fn tape_is(self, other: Self) -> bool {
        self.cells@ == other.cells@ && self.cell_index == other.cell_index
    }

    /// Loop bookkeeping agrees with `other`.
    pub open spec fn loops_are(self, other: Self) -> bool {
        self.loops_opened == other.loops_opened && self.loops_data@ == other.loops_data@
    }

    /// The source text agrees with `other`.
    pub open spec fn source_is(self, other: Self) -> bool {
        self.file_content@ == other.file_content@
    }

    /// The input stream and its cursor agree with `other`.
    pub open spec fn input_is(self, other: Self) -> bool {
        self.input@ == other.input@ && self.input_pos == other.input_pos
    }

    /// Output and diagnostics agree with `other`.
    pub open spec fn output_is(self, other: Self) -> bool {
        self.output@ == other.output@ && self.stray_closes == other.stray_closes
    }

    /// Every observable component agrees with `other`.
    pub open spec fn same_state(self, other: Self) -> bool {
        &&& self.tape_is(other)
        &&& self.loops_are(other)
        &&& self.source_is(other)
        &&& self.input_is(other)
        &&& self.output_is(other)
        &&& self.iteration_budget == other.iteration_budget
    }

    /// A fresh engine: zeroed tape, pointer at 0, no source, no loops open,
    /// no input, nothing emitted.
    pub fn new() -> (s: Self)
        ensures
            s.wf(),
            s.cells@.len() == TAPE_LEN,
            forall|j: int| 0 <= j < TAPE_LEN ==> s.cells@[j] == 0u8,
            s.cell_index == 0,
            s.loops_opened == 0,
            s.loops_data@ == Seq::<LoopFrame>::empty(),
            s.file_content@ == Seq::<u8>::empty(),
            s.input@ == Seq::<u8>::empty(),
            s.input_pos == 0,
            s.output@ == Seq::<OutputEvent>::empty(),
            s.stray_closes == 0,
            s.iteration_budget == usize::MAX,
    {
        let mut cells: Vec<u8> = Vec::new();
        let mut i: usize = 0;
        while i < TAPE_LEN
            invariant
                i <= TAPE_LEN,
                cells@.len() == i,
                forall|j: int| 0 <= j < i ==> cells@[j] == 0u8,
            decreases TAPE_LEN - i,
        {
            cells.push(0);
            i = i + 1;
        }
        InterpreterState {
            cells,
            cell_index: 0,
            loops_opened: 0,
            file_content: Vec::new(),
            loops_data: Vec::new(),
            input: Vec::new(),
            input_pos: 0,
            output: Vec::new(),
            stray_closes: 0,
            iteration_budget: usize::MAX,
        }
    }

    /// Store the program text. The source loader (outside the library) reads
    /// the file; the engine only ever sees the finished byte sequence.
    pub fn load_source(&mut self, text: Vec<u8>)
        ensures
            final(self).file_content@ == text@,
            final(self).tape_is(*old(self)),
            final(self).loops_are(*old(self)),
            final(self).input_is(*old(self)),
            final(self).output_is(*old(self)),
            final(self).iteration_budget == old(self).iteration_budget,
    {
        self.file_content = text;
    }

    /// Supply the bytes the input stream will yield, and rewind its cursor.
    pub fn set_input(&mut self, bytes: Vec<u8>)
        ensures
            final(self).input@ == bytes@,
            final(self).input_pos == 0,
            final(self).tape_is(*old(self)),
            final(self).loops_are(*old(self)),
            final(self).source_is(*old(self)),
            final(self).output_is(*old(self)),
            final(self).iteration_budget == old(self).iteration_budget,
    {
        self.input = bytes;
        self.input_pos = 0;
    }

    /// `+`: a saturating set, not an arithmetic increment. A cell at 255
    /// drops to 0; any other value is set straight to 255.
    pub fn increment(&mut self)
        requires
            old(self).wf(),
        ensures
            final(self).wf(),
            final(self).cells@ == old(self).cells@.update(
                old(self).cell_index as int,
                (if old(self).cur_cell() == 255 {
                    0u8
                } else {
                    255u8
                }),
            ),
            final(self).cell_index == old(self).cell_index,
            final(self).loops_are(*old(self)),
            final(self).source_is(*old(self)),
            final(self).input_is(*old(self)),
            final(self).output_is(*old(self)),
            final(self).iteration_budget == old(self).iteration_budget,
    {
        if self.cells[self.cell_index] == 255 {
            self.cells[self.cell_index] = 0;
        } else {
            self.cells[self.cell_index] = 255;
        }
    }

    /// `-`: a cell at 0 wraps to 255; any other value goes down by one.
    pub fn decrement(&mut self)
        requires
            old(self).wf(),
        ensures
            final(self).wf(),
            final(self).cells@ == old(self).cells@.update(
                old(self).cell_index as int,
                (if old(self).cur_cell() == 0 {
                    255u8
                } else {
                    (old(self).cur_cell() - 1) as u8
                }),
            ),
            final(self).cell_index == old(self).cell_index,
            final(self).loops_are(*old(self)),
            final(self).source_is(*old(self)),
            final(self).input_is(*old(self)),
            final(self).output_is(*old(self)),
            final(self).iteration_budget == old(self).iteration_budget,
    {
        if self.cells[self.cell_index] == 0 {
            self.cells[self.cell_index] = 255;
        } else {
            let v = self.cells[self.cell_index];
            self.cells[self.cell_index] = v - 1;
        }
    }

    /// `>`: move the pointer one cell right, wrapping from the last cell
    /// back to 0.
    pub fn goto_next_cell(&mut self)
        requires
            old(self).wf(),
        ensures
            final(self).wf(),
            final(self).cell_index == (if old(self).cell_index == TAPE_LEN - 1 {
                0usize
            } else {
                (old(self).cell_index + 1) as usize
            }),
            final(self).cells@ == old(self).cells@,
            final(self).loops_are(*old(self)),
            final(self).source_is(*old(self)),
            final(self).input_is(*old(self)),
            final(self).output_is(*old(self)),
            final(self).iteration_budget == old(self).iteration_budget,
    {
        if self.cell_index == TAPE_LEN - 1 {
            self.cell_index = 0;
        } else {
            self.cell_index = self.cell_index + 1;
        }
    }

    /// `<`: move the pointer one cell left, wrapping from 0 to the last cell.
    pub fn goto_previous_cell(&mut self)
        requires
            old(self).wf(),
        ensures
            final(self).wf(),
            final(self).cell_index == (if old(self).cell_index == 0 {
                (TAPE_LEN - 1) as usize
            } else {
                (old(self).cell_index - 1) as usize
            }),
            final(self).cells@ == old(self).cells@,
            final(self).loops_are(*old(self)),
            final(self).source_is(*old(self)),
            final(self).input_is(*old(self)),
            final(self).output_is(*old(self)),
            final(self).iteration_budget == old(self).iteration_budget,
    {
        if self.cell_index == 0 {
            self.cell_index = TAPE_LEN - 1;
        } else {
            self.cell_index = self.cell_index - 1;
        }
    }

    /// `.`: emit the current cell. A value below 128 forms a valid
    /// single-byte character and is emitted as such; anything else is
    /// recorded as non-encodable, for which the shell prints a diagnostic
    /// line instead of a character.
    pub fn print(&mut self)
        requires
            old(self).wf(),
        ensures
            final(self).wf(),
            final(self).output@ == old(self).output@.push(
                if old(self).cur_cell() < 128 {
                    OutputEvent::Byte(old(self).cur_cell())
                } else {
                    OutputEvent::NonEncodable
                },
            ),
            final(self).stray_closes == old(self).stray_closes,
            final(self).tape_is(*old(self)),
            final(self).loops_are(*old(self)),
            final(self).source_is(*old(self)),
            final(self).input_is(*old(self)),
            final(self).iteration_budget == old(self).iteration_budget,
    {
        let b = self.cells[self.cell_index];
        if b < 128 {
            self.output.push(OutputEvent::Byte(b));
        } else {
            self.output.push(OutputEvent::NonEncodable);
        }
    }

    /// `,`: consume exactly one byte from the input stream into the current
    /// cell. An exhausted stream cannot supply that byte, which is fatal.
    pub fn input(&mut self) -> (r: Result<(), EngineError>)
        requires
            old(self).wf(),
        ensures
            final(self).wf(),
            old(self).input_pos < old(self).input@.len() ==> {
                &&& r is Ok
                &&& final(self).cells@ == old(self).cells@.update(
                    old(self).cell_index as int,
                    old(self).input@[old(self).input_pos as int],
                )
                &&& final(self).cell_index == old(self).cell_index
                &&& final(self).input_pos == old(self).input_pos + 1
                &&& final(self).input@ == old(self).input@
            },
            old(self).input_pos >= old(self).input@.len() ==> {
                &&& r == Err::<(), EngineError>(EngineError::InputStreamFailure)
                &&& final(self).same_state(*old(self))
            },
            final(self).loops_are(*old(self)),
            final(self).source_is(*old(self)),
            final(self).output_is(*old(self)),
            final(self).iteration_budget == old(self).iteration_budget,
    {
        if self.input_pos < self.input.len() {
            let b = self.input[self.input_pos];
            self.cells[self.cell_index] = b;
            self.input_pos = self.input_pos + 1;
            Ok(())
        } else {
            Err(EngineError::InputStreamFailure)
        }
    }

    /// `[`: push a new frame with the bracket's position and an unresolved
    /// end, and count one more open loop. A counter already at the machine
    /// limit cannot record another open loop, which is fatal.
    pub fn open_loop(&mut self, current_parser_index: usize) -> (r: Result<(), EngineError>)
        requires
            old(self).wf(),
        ensures
            final(self).wf(),
            old(self).loops_opened < usize::MAX ==> {
                &&& r is Ok
                &&& final(self).loops_data@ == old(self).loops_data@.push(
                    (LoopFrame { start: current_parser_index, end: 0 }),
                )
                &&& final(self).loops_opened == old(self).loops_opened + 1
                &&& final(self).tape_is(*old(self))
                &&& final(self).source_is(*old(self))
                &&& final(self).input_is(*old(self))
                &&& final(self).output_is(*old(self))
                &&& final(self).iteration_budget == old(self).iteration_budget
            },
            old(self).loops_opened == usize::MAX ==> {
                &&& r == Err::<(), EngineError>(EngineError::LoopStackCorrupted)
                &&& final(self).same_state(*old(self))
            },
    {
        if self.loops_opened == usize::MAX {
            return Err(EngineError::LoopStackCorrupted);
        }
        self.loops_data.push(LoopFrame { start: current_parser_index, end: 0 });
        self.loops_opened = self.loops_opened + 1;
        Ok(())
    }
}

} // verus!
