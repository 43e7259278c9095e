//! The dispatch loop and the loop-bracket machinery.
//!
//! `parse` scans a span of the source text character by character and performs
//! each operator's action. Loop constructs are driven by re-interpreting the
//! span strictly between a matched bracket pair, carrying positions within the
//! original text so bracket matching stays consistent across re-entries. The
//! recursion is proved terminating: every re-executed body is a strictly
//! shorter span than the one that contains it. (A single loop construct may
//! still run forever, as the language allows; only each pass over a span is
//! finite.)

use vstd::prelude::*;

use crate::EngineError;
use crate::InterpreterState;
use crate::LoopFrame;
use crate::OP_CLOSE;
use crate::OP_DEC;
use crate::OP_IN;
use crate::OP_INC;
use crate::OP_LEFT;
use crate::OP_OPEN;
use crate::OP_OUT;
use crate::OP_RIGHT;
use crate::MachineView;
use crate::OutputEvent;
use crate::is_operator;
use crate::bump_stray;
use crate::straight_loop_run;
use crate::stray_tolerant_run;
use crate::straight_run;
use crate::straight_step;

verus! {

/// A sequence is a prefix of itself.
proof fn lemma_prefix_refl(a: Seq<OutputEvent>)
    ensures
        a.is_prefix_of(a),
{
    assert(a =~= a.subrange(0, a.len() as int));
}

/// Extending a sequence keeps every prefix it already had.
proof fn lemma_prefix_push(a: Seq<OutputEvent>, b: Seq<OutputEvent>, x: OutputEvent)
    requires
        a.is_prefix_of(b),
    ensures
        a.is_prefix_of(b.push(x)),
{
    assert(a =~= b.push(x).subrange(0, a.len() as int));
}

/// Being a prefix is transitive.
proof fn lemma_prefix_trans(a: Seq<OutputEvent>, b: Seq<OutputEvent>, c: Seq<OutputEvent>)
    requires
        a.is_prefix_of(b),
        b.is_prefix_of(c),
    ensures
        a.is_prefix_of(c),
{
    assert(a =~= c.subrange(0, a.len() as int));
}

/// Running one more character of a straight-line span is one more step on
/// the machine the span has built so far (or the failure that `,` meets on
/// exhausted input); an earlier failure is simply kept.
proof fn lemma_straight_run_snoc(m: MachineView, src: Seq<u8>, lo: int, i: int)
    requires
        lo <= i,
    ensures
        straight_run(m, src, lo, i + 1) == ({
            let prev = straight_run(m, src, lo, i);
            if prev.1 is Err {
                prev
            } else {
                let b = src[i];
                if b == crate::OP_IN && prev.0.input_pos >= prev.0.input.len() {
                    (prev.0, Err::<(), EngineError>(EngineError::InputStreamFailure))
                } else {
                    (straight_step(prev.0, b), Ok::<(), EngineError>(()))
                }
            }
        }),
    decreases i - lo,
{
    reveal_with_fuel(straight_run, 2);
    if lo < i {
        let b0 = src[lo];
        if !(b0 == crate::OP_IN && m.input_pos >= m.input.len()) {
            lemma_straight_run_snoc(straight_step(m, b0), src, lo + 1, i);
        }
    }
}

/// Once a straight-line span has failed, scanning further changes nothing.
proof fn lemma_straight_run_err_absorbs(m: MachineView, src: Seq<u8>, lo: int, i: int, hi: int)
    requires
        lo <= i <= hi,
        straight_run(m, src, lo, i).1 is Err,
    ensures
        straight_run(m, src, lo, hi) == straight_run(m, src, lo, i),
    decreases i - lo,
{
    reveal_with_fuel(straight_run, 2);
    if lo < i {
        let b0 = src[lo];
        if !(b0 == crate::OP_IN && m.input_pos >= m.input.len()) {
            lemma_straight_run_err_absorbs(straight_step(m, b0), src, lo + 1, i, hi);
        }
    }
}

/// Running one more character of a span free of opening brackets, from a
/// state with no loop open, is one more step of the stray-tolerant machine:
/// a closing bracket only bumps the stray count, everything else acts as in
/// straight-line code, and an earlier failure is kept.
proof fn lemma_stray_run_snoc(m: MachineView, s: int, src: Seq<u8>, lo: int, i: int)
    requires
        lo <= i,
    ensures
        stray_tolerant_run(m, s, src, lo, i + 1) == ({
            let prev = stray_tolerant_run(m, s, src, lo, i);
            if prev.2 is Err {
                prev
            } else {
                let b = src[i];
                if b == crate::OP_CLOSE {
                    (prev.0, bump_stray(prev.1), Ok::<(), EngineError>(()))
                } else if b == crate::OP_IN && prev.0.input_pos >= prev.0.input.len() {
                    (prev.0, prev.1, Err::<(), EngineError>(EngineError::InputStreamFailure))
                } else {
                    (straight_step(prev.0, b), prev.1, Ok::<(), EngineError>(()))
                }
            }
        }),
    decreases i - lo,
{
    reveal_with_fuel(stray_tolerant_run, 2);
    if lo < i {
        let b0 = src[lo];
        if b0 == crate::OP_CLOSE {
            lemma_stray_run_snoc(m, bump_stray(s), src, lo + 1, i);
        } else if !(b0 == crate::OP_IN && m.input_pos >= m.input.len()) {
            lemma_stray_run_snoc(straight_step(m, b0), s, src, lo + 1, i);
        }
    }
}

/// Once a stray-tolerant span has failed, scanning further changes nothing.
proof fn lemma_stray_run_err_absorbs(
    m: MachineView,
    s: int,
    src: Seq<u8>,
    lo: int,
    i: int,
    hi: int,
)
    requires
        lo <= i <= hi,
        stray_tolerant_run(m, s, src, lo, i).2 is Err,
    ensures
        stray_tolerant_run(m, s, src, lo, hi) == stray_tolerant_run(m, s, src, lo, i),
    decreases i - lo,
{
    reveal_with_fuel(stray_tolerant_run, 2);
    if lo < i {
        let b0 = src[lo];
        if b0 == crate::OP_CLOSE {
            lemma_stray_run_err_absorbs(m, bump_stray(s), src, lo + 1, i, hi);
        } else if !(b0 == crate::OP_IN && m.input_pos >= m.input.len()) {
            lemma_stray_run_err_absorbs(straight_step(m, b0), s, src, lo + 1, i, hi);
        }
    }
}

impl InterpreterState {
    /// What every step of execution preserves: the source text is immutable,
    /// input is only ever consumed, and output and diagnostics only grow.
    pub open spec fn run_evolution(pre: Self, post: Self) -> bool {
        &&& post.source_is(pre)
        &&& post.input@ == pre.input@
        &&& pre.input_pos <= post.input_pos
        &&& pre.output@.is_prefix_of(post.output@)
        &&& pre.stray_closes <= post.stray_closes
        &&& post.iteration_budget <= pre.iteration_budget
    }

    /// No character of `src[lo..hi]` is a bracket: the span is straight-line
    /// code, whose meaning `straight_run` gives exactly.
    pub open spec fn bracket_free(src: Seq<u8>, lo: int, hi: int) -> bool {
        forall|j: int|
            lo <= j < hi ==> src[j] != crate::OP_OPEN && src[j] != crate::OP_CLOSE
    }

    /// No character of `src[lo..hi]` opens a loop: any closing bracket in
    /// the span is stray once no loop is open.
    pub open spec fn open_bracket_free(src: Seq<u8>, lo: int, hi: int) -> bool {
        forall|j: int| lo <= j < hi ==> src[j] != crate::OP_OPEN
    }

    /// Execute the program: scan the whole source text once.
    ///
    /// A program consisting only of non-operator characters performs no cell
    /// or pointer mutation, emits nothing, and terminates normally: that is
    /// the final `ensures` clause.
    pub fn run(&mut self) -> (r: Result<(), EngineError>)
        requires
            old(self).wf(),
        ensures
            final(self).wf(),
            Self::run_evolution(*old(self), *final(self)),
            (forall|j: int|
                0 <= j < old(self).file_content@.len() ==> !is_operator(
                    old(self).file_content@[j],
                )) ==> (r is Ok && final(self).same_state(*old(self))),
            Self::bracket_free(old(self).file_content@, 0, old(self).file_content@.len() as int)
                ==> ({
                let sr = straight_run(
                    old(self).machine_view(),
                    old(self).file_content@,
                    0,
                    old(self).file_content@.len() as int,
                );
                &&& final(self).machine_view() == sr.0
                &&& r == sr.1
                &&& final(self).loops_are(*old(self))
                &&& final(self).stray_closes == old(self).stray_closes
                &&& final(self).iteration_budget == old(self).iteration_budget
            }),
            (Self::open_bracket_free(
                old(self).file_content@,
                0,
                old(self).file_content@.len() as int,
            ) && old(self).loops_opened == 0 && old(self).loops_data@.len() == 0) ==> ({
                let st = stray_tolerant_run(
                    old(self).machine_view(),
                    old(self).stray_closes as int,
                    old(self).file_content@,
                    0,
                    old(self).file_content@.len() as int,
                );
                &&& final(self).machine_view() == st.0
                &&& final(self).stray_closes as int == st.1
                &&& (st.2 is Ok ==> r == Ok::<(), EngineError>(()))
                &&& (st.2 is Err ==> r == st.2)
                &&& final(self).loops_opened == 0
                &&& final(self).loops_data@.len() == 0
            }),
    {
        let n = self.file_content.len();
        self.parse(0, n)
    }

    /// Scan positions `lo..hi` of the source text and perform each
    /// character's action. During loop re-execution this is entered again on
    /// the span strictly between a bracket pair, with positions still
    /// counted from the start of the whole text.
    pub fn parse(&mut self, lo: usize, hi: usize) -> (r: Result<(), EngineError>)
        requires
            old(self).wf(),
            old(self).frames_ok(lo as int),
            lo <= hi,
            hi <= old(self).file_content@.len(),
        ensures
            final(self).wf(),
            final(self).frames_ok(lo as int),
            Self::run_evolution(*old(self), *final(self)),
            (forall|j: int|
                lo <= j < hi ==> !is_operator(old(self).file_content@[j])) ==> (r is Ok
                && final(self).same_state(*old(self))),
            Self::bracket_free(old(self).file_content@, lo as int, hi as int) ==> ({
                let sr = straight_run(
                    old(self).machine_view(),
                    old(self).file_content@,
                    lo as int,
                    hi as int,
                );
                &&& final(self).machine_view() == sr.0
                &&& r == sr.1
                &&& final(self).loops_are(*old(self))
                &&& final(self).stray_closes == old(self).stray_closes
                &&& final(self).iteration_budget == old(self).iteration_budget
            }),
            // outside any construct, a span without opening brackets means
            // exactly: strays are reported, everything else runs straight
            (Self::open_bracket_free(old(self).file_content@, lo as int, hi as int) && old(
                self,
            ).loops_opened == 0 && old(self).loops_data@.len() == 0) ==> ({
                let st = stray_tolerant_run(
                    old(self).machine_view(),
                    old(self).stray_closes as int,
                    old(self).file_content@,
                    lo as int,
                    hi as int,
                );
                &&& final(self).machine_view() == st.0
                &&& final(self).stray_closes as int == st.1
                &&& (st.2 is Ok ==> r == Ok::<(), EngineError>(()))
                &&& (st.2 is Err ==> r == st.2)
                &&& final(self).loops_opened == 0
                &&& final(self).loops_data@.len() == 0
                &&& final(self).iteration_budget == old(self).iteration_budget
            }),
        decreases old(self).iteration_budget, hi - lo, 2int,
    {
        let mut idx: usize = lo;
        proof {
            lemma_prefix_refl(self.output@);
        }
        while idx < hi
            invariant
                lo <= idx <= hi,
                hi <= self.file_content@.len(),
                self.wf(),
                self.frames_ok(lo as int),
                self.source_is(*old(self)),
                self.input@ == old(self).input@,
                old(self).input_pos <= self.input_pos,
                old(self).output@.is_prefix_of(self.output@),
                old(self).stray_closes <= self.stray_closes,
                self.iteration_budget <= old(self).iteration_budget,
                (forall|j: int|
                    lo <= j < idx ==> !is_operator(old(self).file_content@[j]))
                    ==> self.same_state(*old(self)),
                Self::bracket_free(old(self).file_content@, lo as int, idx as int) ==> ({
                    &&& straight_run(
                        old(self).machine_view(),
                        old(self).file_content@,
                        lo as int,
                        idx as int,
                    ) == (self.machine_view(), Ok::<(), EngineError>(()))
                    &&& self.loops_are(*old(self))
                    &&& self.stray_closes == old(self).stray_closes
                    &&& self.iteration_budget == old(self).iteration_budget
                }),
                (Self::open_bracket_free(old(self).file_content@, lo as int, hi as int)
                    && old(self).loops_opened == 0 && old(self).loops_data@.len() == 0) ==> ({
                    &&& stray_tolerant_run(
                        old(self).machine_view(),
                        old(self).stray_closes as int,
                        old(self).file_content@,
                        lo as int,
                        idx as int,
                    ).0 == self.machine_view()
                    &&& stray_tolerant_run(
                        old(self).machine_view(),
                        old(self).stray_closes as int,
                        old(self).file_content@,
                        lo as int,
                        idx as int,
                    ).1 == self.stray_closes as int
                    &&& stray_tolerant_run(
                        old(self).machine_view(),
                        old(self).stray_closes as int,
                        old(self).file_content@,
                        lo as int,
                        idx as int,
                    ).2 is Ok
                    &&& self.loops_opened == 0
                    &&& self.loops_data@.len() == 0
                    &&& self.iteration_budget == old(self).iteration_budget
                }),
            decreases hi - idx,
        {
            let ghost pre_step = *self;
            let c: u8 = self.file_content[idx];
            if c == OP_INC {
                self.increment();
            } else if c == OP_DEC {
                self.decrement();
            } else if c == OP_RIGHT {
                self.goto_next_cell();
            } else if c == OP_LEFT {
                self.goto_previous_cell();
            } else if c == OP_OUT {
                self.print();
                proof {
                    lemma_prefix_push(
                        old(self).output@,
                        pre_step.output@,
                        self.output@.last(),
                    );
                }
            } else if c == OP_OPEN {
                match self.open_loop(idx) {
                    Err(e) => {
                        return Err(e);
                    },
                    Ok(()) => {},
                }
            } else if c == OP_CLOSE {
                match self.close_loop(idx, Ghost(lo as int), Ghost(hi as int)) {
                    Err(e) => {
                        proof {
                            lemma_prefix_trans(old(self).output@, pre_step.output@, self.output@);
                        }
                        return Err(e);
                    },
                    Ok(()) => {
                        proof {
                            lemma_prefix_trans(old(self).output@, pre_step.output@, self.output@);
                        }
                    },
                }
            } else if c == OP_IN {
                match self.input() {
                    Err(e) => {
                        proof {
                            lemma_straight_run_snoc(
                                old(self).machine_view(),
                                old(self).file_content@,
                                lo as int,
                                idx as int,
                            );
                            if straight_run(
                                old(self).machine_view(),
                                old(self).file_content@,
                                lo as int,
                                idx as int + 1,
                            ).1 is Err {
                                lemma_straight_run_err_absorbs(
                                    old(self).machine_view(),
                                    old(self).file_content@,
                                    lo as int,
                                    idx as int + 1,
                                    hi as int,
                                );
                            }
                            lemma_stray_run_snoc(
                                old(self).machine_view(),
                                old(self).stray_closes as int,
                                old(self).file_content@,
                                lo as int,
                                idx as int,
                            );
                            if stray_tolerant_run(
                                old(self).machine_view(),
                                old(self).stray_closes as int,
                                old(self).file_content@,
                                lo as int,
                                idx as int + 1,
                            ).2 is Err {
                                lemma_stray_run_err_absorbs(
                                    old(self).machine_view(),
                                    old(self).stray_closes as int,
                                    old(self).file_content@,
                                    lo as int,
                                    idx as int + 1,
                                    hi as int,
                                );
                            }
                        }
                        return Err(e);
                    },
                    Ok(()) => {},
                }
            }
            proof {
                lemma_straight_run_snoc(
                    old(self).machine_view(),
                    old(self).file_content@,
                    lo as int,
                    idx as int,
                );
                lemma_stray_run_snoc(
                    old(self).machine_view(),
                    old(self).stray_closes as int,
                    old(self).file_content@,
                    lo as int,
                    idx as int,
                );
            }
            idx = idx + 1;
        }
        Ok(())
    }

    /// Handle one closing bracket at `current_parser_index`.
    ///
    /// With no loop open this is a recoverable syntax condition: it is
    /// reported and scanning continues unchanged otherwise. With open loops,
    /// the bracket completes the top frame; when every frame recorded so far
    /// has been accounted for, the finished construct executes at once.
    pub fn close_loop(
        &mut self,
        current_parser_index: usize,
        Ghost(lo): Ghost<int>,
        Ghost(hi): Ghost<int>,
    ) -> (r: Result<(), EngineError>)
        requires
            old(self).wf(),
            old(self).frames_ok(lo),
            0 <= lo <= current_parser_index < hi,
            hi <= old(self).file_content@.len(),
        ensures
            final(self).wf(),
            final(self).frames_ok(lo),
            Self::run_evolution(*old(self), *final(self)),
            // a stray `]` is reported and execution continues unchanged
            old(self).loops_opened == 0 ==> (r is Ok && final(self).tape_is(*old(self))
                && final(self).loops_are(*old(self)) && final(self).input_is(*old(self))
                && final(self).output@ == old(self).output@ && final(self).stray_closes == (
            if old(self).stray_closes == usize::MAX {
                usize::MAX
            } else {
                (old(self).stray_closes + 1) as usize
            }) && final(self).iteration_budget == old(self).iteration_budget),
            // open loops outstanding but no frame left to complete: fatal
            old(self).loops_opened > 0 && old(self).loops_data@.len() == 0 ==> (r == Err::<
                (),
                EngineError,
            >(EngineError::LoopStackCorrupted) && final(self).same_state(*old(self))),
            // an inner bracket closes: only the top frame's end is recorded
            old(self).loops_opened > 0 && old(self).loops_data@.len() > 0 && old(
                self,
            ).loops_opened != old(self).loops_data@.len() ==> (r is Ok && final(self).tape_is(
                *old(self),
            ) && final(self).input_is(*old(self)) && final(self).output_is(*old(self))
                && final(self).loops_opened == old(self).loops_opened - 1
                && final(self).loops_data@ == old(self).loops_data@.update(
                old(self).loops_data@.len() - 1,
                (LoopFrame {
                    start: old(self).loops_data@.last().start,
                    end: current_parser_index,
                }),
            ) && final(self).iteration_budget == old(self).iteration_budget),
            // a finished construct ran: the guard cell reads zero and the
            // loop stack has been cleared for the next top-level construct
            old(self).loops_opened > 0 && old(self).loops_opened == old(self).loops_data@.len()
                && r is Ok ==> (final(self).cur_cell() == 0 && final(self).loops_data@.len()
                == 0),
            // with a bracket-free body the construct's meaning is exact:
            // re-run the span between the brackets until the guard cell
            // reads zero, each pass being one straight-line execution
            (old(self).loops_opened > 0 && old(self).loops_opened == old(
                self,
            ).loops_data@.len() && Self::bracket_free(
                old(self).file_content@,
                old(self).loops_data@.last().start + 1,
                current_parser_index as int,
            ) && old(self).loops_data@.last().start < current_parser_index) ==> ({
                let sl = straight_loop_run(
                    old(self).machine_view(),
                    old(self).file_content@,
                    old(self).loops_data@.last().start + 1,
                    current_parser_index as int,
                    old(self).iteration_budget as nat,
                );
                &&& final(self).machine_view() == sl.0
                &&& (sl.1 is Ok ==> r == Ok::<(), EngineError>(()))
                &&& (sl.1 is Err ==> r == sl.1)
                &&& (r is Ok ==> final(self).loops_opened == old(self).loops_opened - 1)
            }),
        decreases old(self).iteration_budget, hi - lo, 1int,
    {
        if self.loops_opened == 0 {
            if self.stray_closes < usize::MAX {
                self.stray_closes = self.stray_closes + 1;
            }
            proof {
                lemma_prefix_refl(self.output@);
            }
            return Ok(());
        }
        let loops_cnt = self.loops_data.len();
        if loops_cnt == 0 {
            proof {
                lemma_prefix_refl(self.output@);
            }
            return Err(EngineError::LoopStackCorrupted);
        }
        let start = self.loops_data[loops_cnt - 1].start;
        self.loops_data[loops_cnt - 1] = LoopFrame { start, end: current_parser_index };
        if self.loops_opened == loops_cnt {
            match self.execute_loop_context(Ghost(lo), Ghost(hi)) {
                Err(e) => {
                    return Err(e);
                },
                Ok(()) => {},
            }
        } else {
            proof {
                lemma_prefix_refl(self.output@);
            }
        }
        if self.loops_opened == 0 {
            return Err(EngineError::LoopStackCorrupted);
        }
        self.loops_opened = self.loops_opened - 1;
        Ok(())
    }

    /// Run the construct whose frame sits on top of the stack: while the
    /// current cell is non-zero, re-interpret the span strictly between the
    /// frame's bracket positions. A frame whose end was never resolved means
    /// an unmatched opening bracket, which is fatal; on normal completion
    /// the guard cell reads zero and the whole loop stack is discarded, so
    /// the next top-level construct starts resolution afresh.
    pub fn execute_loop_context(
        &mut self,
        Ghost(lo): Ghost<int>,
        Ghost(hi): Ghost<int>,
    ) -> (r: Result<(), EngineError>)
        requires
            old(self).wf(),
            old(self).loops_opened >= 1,
            old(self).loops_opened == old(self).loops_data@.len(),
            0 <= lo,
            old(self).loops_data@.last().start + 1 >= lo,
            old(self).loops_data@.last().end < hi,
            hi <= old(self).file_content@.len(),
        ensures
            final(self).wf(),
            final(self).frames_ok(lo),
            Self::run_evolution(*old(self), *final(self)),
            r is Ok ==> final(self).cur_cell() == 0 && final(self).loops_data@.len() == 0,
            old(self).loops_data@.last().end == 0 ==> (r == Err::<(), EngineError>(
                EngineError::UnmatchedOpenLoop,
            ) && final(self).same_state(*old(self))),
            // a construct with a bracket-free body means exactly: run the
            // body again while the guard cell is non-zero, budget permitting
            (Self::bracket_free(
                old(self).file_content@,
                old(self).loops_data@.last().start + 1,
                old(self).loops_data@.last().end as int,
            ) && old(self).loops_data@.last().start < old(self).loops_data@.last().end) ==> ({
                let sl = straight_loop_run(
                    old(self).machine_view(),
                    old(self).file_content@,
                    old(self).loops_data@.last().start + 1,
                    old(self).loops_data@.last().end as int,
                    old(self).iteration_budget as nat,
                );
                &&& final(self).machine_view() == sl.0
                &&& r == sl.1
                &&& final(self).loops_opened == old(self).loops_opened
            }),
        decreases old(self).iteration_budget, hi - lo, 0int,
    {
        let frame = self.loops_data[self.loops_opened - 1];
        proof {
            assert(frame == old(self).loops_data@.last());
            lemma_prefix_refl(self.output@);
        }
        if frame.end == 0 {
            return Err(EngineError::UnmatchedOpenLoop);
        }
        let start = frame.start;
        let end = frame.end;
        while self.cells[self.cell_index] > 0
            invariant
                self.wf(),
                self.frames_ok(start as int + 1),
                start as int + 1 >= lo,
                (end as int) < hi,
                end <= self.file_content@.len(),
                start == old(self).loops_data@.last().start,
                end == old(self).loops_data@.last().end,
                end != 0,
                self.source_is(*old(self)),
                self.input@ == old(self).input@,
                old(self).input_pos <= self.input_pos,
                old(self).output@.is_prefix_of(self.output@),
                old(self).stray_closes <= self.stray_closes,
                self.iteration_budget <= old(self).iteration_budget,
                (Self::bracket_free(
                    old(self).file_content@,
                    start as int + 1,
                    end as int,
                ) && start < end) ==> ({
                    &&& straight_loop_run(
                        old(self).machine_view(),
                        old(self).file_content@,
                        start as int + 1,
                        end as int,
                        old(self).iteration_budget as nat,
                    ) == straight_loop_run(
                        self.machine_view(),
                        old(self).file_content@,
                        start as int + 1,
                        end as int,
                        self.iteration_budget as nat,
                    )
                    &&& self.loops_opened == old(self).loops_opened
                }),
            decreases self.iteration_budget,
        {
            if end <= start {
                // an inverted span cannot describe a bracket pair
                return Err(EngineError::LoopStackCorrupted);
            }
            let ghost head = *self;
            if self.iteration_budget == 0 {
                return Err(EngineError::IterationBudgetExhausted);
            }
            self.iteration_budget = self.iteration_budget - 1;
            let ghost mid = *self;
            match self.parse(start + 1, end) {
                Err(e) => {
                    proof {
                        lemma_prefix_trans(old(self).output@, mid.output@, self.output@);
                    }
                    return Err(e);
                },
                Ok(()) => {},
            }
            proof {
                lemma_prefix_trans(old(self).output@, mid.output@, self.output@);
                if Self::bracket_free(old(self).file_content@, start as int + 1, end as int)
                    && start < end {
                    assert(straight_loop_run(
                        head.machine_view(),
                        old(self).file_content@,
                        start as int + 1,
                        end as int,
                        head.iteration_budget as nat,
                    ) == straight_loop_run(
                        self.machine_view(),
                        old(self).file_content@,
                        start as int + 1,
                        end as int,
                        self.iteration_budget as nat,
                    ));
                }
            }
        }
        self.loops_data.clear();
        Ok(())
    }
}

} // verus!
