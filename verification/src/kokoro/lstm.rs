//! A bidirectional long short-term memory layer.
use vstd::prelude::*;
use vstd::string::*;
use crate::device::{Plan, Term, extends, holds};
use crate::device::value::{
    join_rows, lstm_cell_f16_cell, lstm_cell_f16_hidden, lstm_cell_f16_output, matmul_f16,
};
use crate::kokoro::checkpoint::{shown, shown_matrix, shown_vector};
use crate::layout::lemma_cell;
use crate::weights::{
    Absence, Loader, Tensor, lemma_stored1, lemma_stored2, lemma_stores_split, stores,
};

verus! {

/// One direction of the layer, as buffers.
#[derive(Clone, Copy, Debug, PartialEq, Eq, Structural)]
pub struct LstmDirection {
    pub weight_ih: usize,
    pub weight_hh: usize,
    pub bias_ih: usize,
    pub bias_hh: usize,
}

/// A bidirectional layer, as buffers.
#[derive(Clone, Copy, Debug, PartialEq, Eq, Structural)]
pub struct KokoroBiLstm {
    pub forward: LstmDirection,
    pub reverse: LstmDirection,
    pub input_size: usize,
    pub hidden_size: usize,
}

/// The tensors of one direction.
pub open spec fn direction_tensors(
    group: Seq<char>,
    prefix: Seq<char>,
    input: usize,
    hidden: usize,
    reverse: bool,
) -> Seq<Tensor> {
    let suffix = if reverse { "_l0_reverse"@ } else { "_l0"@ };
    let gates = (4 * hidden) as usize;
    seq![
        shown(group, prefix + ".weight_ih"@ + suffix, seq![gates, input]),
        shown(group, prefix + ".weight_hh"@ + suffix, seq![gates, hidden]),
        shown(group, prefix + ".bias_ih"@ + suffix, seq![gates]),
        shown(group, prefix + ".bias_hh"@ + suffix, seq![gates]),
    ]
}

/// The tensors of both directions.
pub open spec fn lstm_tensors(group: Seq<char>, prefix: Seq<char>, input: usize, hidden: usize) -> Seq<
    Tensor,
> {
    direction_tensors(group, prefix, input, hidden, false) + direction_tensors(
        group,
        prefix,
        input,
        hidden,
        true,
    )
}

impl LstmDirection {
    /// The direction whose first tensor is buffer `base`.
    pub open spec fn at(base: int) -> Self {
        LstmDirection {
            weight_ih: base as usize,
            weight_hh: (base + 1) as usize,
            bias_ih: (base + 2) as usize,
            bias_hh: (base + 3) as usize,
        }
    }

    /// Requires the tensors of one direction.
    fn load(
        loader: &mut Loader,
        group: &str,
        prefix: &str,
        input_size: usize,
        hidden_size: usize,
        reverse: bool,
    ) -> (direction: Self)
        requires
            old(loader).wf(),
            4 * hidden_size <= usize::MAX,
            (4 * hidden_size) * input_size <= usize::MAX,
            (4 * hidden_size) * hidden_size <= usize::MAX,
        ensures
            final(loader).wf(),
            direction == Self::at(old(loader).tensors().len() as int),
            final(loader).tensors() == old(loader).tensors() + direction_tensors(
                group@,
                prefix@,
                input_size,
                hidden_size,
                reverse,
            ),
            final(loader).tensors().len() == old(loader).tensors().len() + 4,
    {
        let ghost before = loader.tensors();
        let suffix = if reverse {
            "_l0_reverse"
        } else {
            "_l0"
        };
        let gates: usize = 4 * hidden_size;
        let weight_ih: usize = shown_matrix(
            loader,
            group,
            prefix.to_owned().concat(".weight_ih").concat(suffix).as_str(),
            0,
            gates,
            input_size,
        );
        let weight_hh: usize = shown_matrix(
            loader,
            group,
            prefix.to_owned().concat(".weight_hh").concat(suffix).as_str(),
            0,
            gates,
            hidden_size,
        );
        let bias_ih: usize = shown_vector(
            loader,
            group,
            prefix.to_owned().concat(".bias_ih").concat(suffix).as_str(),
            Absence::MissingKokoro,
            gates,
        );
        let bias_hh: usize = shown_vector(
            loader,
            group,
            prefix.to_owned().concat(".bias_hh").concat(suffix).as_str(),
            Absence::MissingKokoro,
            gates,
        );
        assert(loader.tensors() =~= before + direction_tensors(
            group@,
            prefix@,
            input_size,
            hidden_size,
            reverse,
        ));
        LstmDirection { weight_ih, weight_hh, bias_ih, bias_hh }
    }

    /// The weights exist at their full size.
    pub open spec fn fits(self, plan: Plan, input_size: usize, hidden_size: usize) -> bool {
        &&& holds(plan, self.weight_ih, (4 * hidden_size) * input_size)
        &&& holds(plan, self.weight_hh, (4 * hidden_size) * hidden_size)
        &&& holds(plan, self.bias_ih, 4 * hidden_size)
        &&& holds(plan, self.bias_hh, 4 * hidden_size)
    }
}

/// The running state of one direction.
pub struct LstmState {
    pub hidden: Term,
    pub cell: Term,
    pub output: Term,
}

/// The frame that step `step` works on.
pub open spec fn frame_of(step: int, frames: int, reverse: bool) -> int {
    if reverse {
        frames - 1 - step
    } else {
        step
    }
}

/// The state after the first `n` steps.
pub open spec fn lstm_steps(
    w: LstmDirection,
    plan: Plan,
    gates: Term,
    frames: int,
    hidden_size: u32,
    reverse: bool,
    n: nat,
) -> LstmState
    decreases n,
{
    if n == 0 {
        LstmState {
            hidden: Term::Zeros(hidden_size as nat),
            cell: Term::Zeros(hidden_size as nat),
            output: Term::Zeros((frames * hidden_size) as nat),
        }
    } else {
        let s = lstm_steps(w, plan, gates, frames, hidden_size, reverse, (n - 1) as nat);
        let v = plan.values();
        let t = frame_of(n - 1, frames, reverse) as u32;
        let hidden_gates = matmul_f16(
            s.hidden,
            v[w.weight_hh as int],
            1,
            (4 * hidden_size) as u32,
            hidden_size,
        );
        let ih = v[w.bias_ih as int];
        let hh = v[w.bias_hh as int];
        LstmState {
            hidden: lstm_cell_f16_hidden(
                gates,
                hidden_gates,
                ih,
                hh,
                s.hidden,
                s.cell,
                s.output,
                hidden_size,
                t,
                t,
            ),
            cell: lstm_cell_f16_cell(
                gates,
                hidden_gates,
                ih,
                hh,
                s.hidden,
                s.cell,
                s.output,
                hidden_size,
                t,
                t,
            ),
            output: lstm_cell_f16_output(
                gates,
                hidden_gates,
                ih,
                hh,
                s.hidden,
                s.cell,
                s.output,
                hidden_size,
                t,
                t,
            ),
        }
    }
}

/// The outputs of one direction over `frames` frames.
#[verifier::opaque]
pub open spec fn direction_output(
    w: LstmDirection,
    plan: Plan,
    input: Term,
    frames: int,
    input_size: u32,
    hidden_size: u32,
    reverse: bool,
) -> Term {
    let gates = matmul_f16(
        input,
        plan.values()[w.weight_ih as int],
        frames as u32,
        (4 * hidden_size) as u32,
        input_size,
    );
    lstm_steps(w, plan, gates, frames, hidden_size, reverse, frames as nat).output
}

impl LstmDirection {
    /// Runs one direction. The result names the buffer of its outputs.
    fn run(
        &self,
        plan: &mut Plan,
        input: usize,
        frames: usize,
        input_size: usize,
        hidden_size: usize,
        reverse: bool,
        Ghost(start): Ghost<Plan>,
    ) -> (output: usize)
        requires
            old(plan).wf(),
            extends(start, *old(plan)),
            self.fits(start, input_size, hidden_size),
            holds(*old(plan), input, frames * input_size),
            frames <= u32::MAX,
            input_size <= u32::MAX,
            4 * hidden_size <= u32::MAX,
            frames * (4 * hidden_size) <= usize::MAX,
        ensures
            final(plan).wf(),
            extends(*old(plan), *final(plan)),
            final(plan).values().len() == old(plan).values().len() + 4 + frames,
            old(plan).values().len() <= output < final(plan).values().len(),
            final(plan).sizes()[output as int] == frames * hidden_size,
            final(plan).values()[output as int] == direction_output(
                *self,
                start,
                old(plan).values()[input as int],
                frames as int,
                input_size as u32,
                hidden_size as u32,
                reverse,
            ),
    {
        proof {
            reveal(direction_output);
            assert(frames * hidden_size <= frames * (4 * hidden_size)) by (nonlinear_arith)
                requires
                    frames >= 0,
                    hidden_size >= 0,
            ;
        }
        let ghost entry = *plan;
        let gate_width: usize = 4 * hidden_size;
        let h: u32 = hidden_size as u32;
        let gates: usize = plan.zeros(frames * gate_width);
        plan.matmul_f16(
            input,
            self.weight_ih,
            gates,
            frames as u32,
            gate_width as u32,
            input_size as u32,
        );
        let ghost gate_rows = plan.values()[gates as int];
        let hidden: usize = plan.zeros(hidden_size);
        let cell: usize = plan.zeros(hidden_size);
        let output: usize = plan.zeros(frames * hidden_size);
        for step in 0..frames
            invariant
                plan.wf(),
                extends(start, entry),
                extends(entry, *plan),
                self.fits(start, input_size, hidden_size),
                gates == entry.values().len(),
                hidden == gates + 1,
                cell == gates + 2,
                output == gates + 3,
                plan.values().len() == entry.values().len() + 4 + step,
                plan.sizes()[gates as int] == frames * (4 * hidden_size),
                plan.sizes()[hidden as int] == hidden_size,
                plan.sizes()[cell as int] == hidden_size,
                plan.sizes()[output as int] == frames * hidden_size,
                gate_width == 4 * hidden_size,
                h == hidden_size,
                frames <= u32::MAX,
                4 * hidden_size <= u32::MAX,
                plan.values()[gates as int] == gate_rows,
                ({
                    let s = lstm_steps(
                        *self,
                        start,
                        gate_rows,
                        frames as int,
                        h,
                        reverse,
                        step as nat,
                    );
                    &&& plan.values()[hidden as int] == s.hidden
                    &&& plan.values()[cell as int] == s.cell
                    &&& plan.values()[output as int] == s.output
                }),
        {
            let timestep: usize = if reverse {
                frames - 1 - step
            } else {
                step
            };
            proof {
                if hidden_size > 0 {
                    lemma_cell(frames as int, 4 * hidden_size, timestep as int, 0);
                    lemma_cell(frames as int, hidden_size as int, timestep as int, 0);
                } else {
                    assert((timestep + 1) * (4 * hidden_size) == 0) by (nonlinear_arith)
                        requires
                            hidden_size == 0,
                    ;
                    assert((timestep + 1) * hidden_size == 0) by (nonlinear_arith)
                        requires
                            hidden_size == 0,
                    ;
                    assert(frames * hidden_size == 0) by (nonlinear_arith)
                        requires
                            hidden_size == 0,
                    ;
                    assert(frames * (4 * hidden_size) == 0) by (nonlinear_arith)
                        requires
                            hidden_size == 0,
                    ;
                }
            }
            let hidden_gates: usize = plan.zeros(gate_width);
            plan.matmul_f16(hidden, self.weight_hh, hidden_gates, 1, gate_width as u32, h);
            plan.lstm_cell_f16(
                gates,
                hidden_gates,
                self.bias_ih,
                self.bias_hh,
                hidden,
                cell,
                output,
                h,
                timestep as u32,
                timestep as u32,
            );
        }
        output
    }
}

/// The layer over `frames` frames: the outputs of both directions side by side.
pub open spec fn lstm_output(w: KokoroBiLstm, plan: Plan, input: Term, frames: int) -> Term {
    join_rows(
        direction_output(
            w.forward,
            plan,
            input,
            frames,
            w.input_size as u32,
            w.hidden_size as u32,
            false,
        ),
        direction_output(
            w.reverse,
            plan,
            input,
            frames,
            w.input_size as u32,
            w.hidden_size as u32,
            true,
        ),
        frames as u32,
        w.hidden_size as u32,
        w.hidden_size as u32,
    )
}

/// Rows of that many elements suit the layer.
pub open spec fn lstm_accepts(w: KokoroBiLstm, input_len: usize, frames: usize) -> bool {
    input_len == frames * w.input_size && frames > 0
}

impl KokoroBiLstm {
    /// The layer whose first tensor is buffer `base`.
    pub open spec fn at(base: int, input_size: usize, hidden_size: usize) -> Self {
        KokoroBiLstm {
            forward: LstmDirection::at(base),
            reverse: LstmDirection::at(base + 4),
            input_size,
            hidden_size,
        }
    }

    /// The weights exist at their full size.
    pub open spec fn fits(self, plan: Plan) -> bool {
        &&& self.forward.fits(plan, self.input_size, self.hidden_size)
        &&& self.reverse.fits(plan, self.input_size, self.hidden_size)
    }

    /// Requires the tensors of the layer.
    pub fn load(
        loader: &mut Loader,
        group: &str,
        prefix: &str,
        input_size: usize,
        hidden_size: usize,
    ) -> (layer: Self)
        requires
            old(loader).wf(),
            4 * hidden_size <= usize::MAX,
            (4 * hidden_size) * input_size <= usize::MAX,
            (4 * hidden_size) * hidden_size <= usize::MAX,
        ensures
            final(loader).wf(),
            layer == Self::at(old(loader).tensors().len() as int, input_size, hidden_size),
            final(loader).tensors() == old(loader).tensors() + lstm_tensors(
                group@,
                prefix@,
                input_size,
                hidden_size,
            ),
            final(loader).tensors().len() == old(loader).tensors().len() + 8,
    {
        let ghost before = loader.tensors();
        let forward = LstmDirection::load(loader, group, prefix, input_size, hidden_size, false);
        let reverse = LstmDirection::load(loader, group, prefix, input_size, hidden_size, true);
        assert(loader.tensors() =~= before + lstm_tensors(
            group@,
            prefix@,
            input_size,
            hidden_size,
        ));
        KokoroBiLstm { forward, reverse, input_size, hidden_size }
    }

    /// Everything the layer counts over `frames` frames can be counted.
    pub open spec fn countable(self, frames: usize) -> bool {
        &&& frames * self.input_size <= usize::MAX
        &&& frames <= u32::MAX
        &&& self.input_size <= u32::MAX
        &&& 4 * self.hidden_size <= u32::MAX
        &&& frames * (4 * self.hidden_size) <= usize::MAX
    }

    /// Runs the layer over the `frames` rows of `input`. The result names a
    /// buffer of rows twice as wide as one direction's state.
    pub fn forward(&self, plan: &mut Plan, input: usize, frames: usize) -> (outcome: Result<
        usize,
        String,
    >)
        requires
            old(plan).wf(),
            self.fits(*old(plan)),
            input < old(plan).values().len(),
            self.countable(frames),
        ensures
            final(plan).wf(),
            outcome is Ok <==> lstm_accepts(*self, old(plan).sizes()[input as int], frames),
            match outcome {
                Err(message) => message@ == "invalid Kokoro BiLSTM input geometry"@ && *final(plan)
                    == *old(plan),
                Ok(output) => {
                    &&& extends(*old(plan), *final(plan))
                    &&& old(plan).values().len() <= output < final(plan).values().len()
                    &&& final(plan).sizes()[output as int] == frames * (2 * self.hidden_size)
                    &&& final(plan).values()[output as int] == lstm_output(
                        *self,
                        *old(plan),
                        old(plan).values()[input as int],
                        frames as int,
                    )
                },
            },
    {
        if plan.size(input) != frames * self.input_size || frames == 0 {
            return Err("invalid Kokoro BiLSTM input geometry".to_owned());
        }
        let ghost start = *plan;
        let forward: usize = self.forward.run(
            plan,
            input,
            frames,
            self.input_size,
            self.hidden_size,
            false,
            Ghost(start),
        );
        let reverse: usize = self.reverse.run(
            plan,
            input,
            frames,
            self.input_size,
            self.hidden_size,
            true,
            Ghost(start),
        );
        proof {
            assert(frames * (2 * self.hidden_size) <= frames * (4 * self.hidden_size))
                by (nonlinear_arith)
                requires
                    frames >= 0,
                    self.hidden_size >= 0,
            ;
        }
        let output: usize = plan.zeros(frames * (2 * self.hidden_size));
        let h: u32 = self.hidden_size as u32;
        plan.join_rows(forward, reverse, output, frames as u32, h, h);
        Ok(output)
    }
}

proof fn lemma_steps_at(
    w: LstmDirection,
    a: Plan,
    b: Plan,
    gates: Term,
    frames: int,
    hidden_size: u32,
    reverse: bool,
    n: nat,
)
    requires
        extends(a, b),
        w.weight_hh < a.values().len(),
        w.bias_ih < a.values().len(),
        w.bias_hh < a.values().len(),
    ensures
        lstm_steps(w, a, gates, frames, hidden_size, reverse, n) == lstm_steps(
            w,
            b,
            gates,
            frames,
            hidden_size,
            reverse,
            n,
        ),
    decreases n,
{
    if n > 0 {
        lemma_steps_at(w, a, b, gates, frames, hidden_size, reverse, (n - 1) as nat);
    }
}

/// A longer plan with the same weights gives the same output.
pub proof fn lemma_lstm_output_at(w: KokoroBiLstm, a: Plan, b: Plan, input: Term, frames: int)
    requires
        extends(a, b),
        w.fits(a),
        frames >= 0,
    ensures
        lstm_output(w, a, input, frames) == lstm_output(w, b, input, frames),
{
    reveal(direction_output);
    let input_size = w.input_size as u32;
    let h = w.hidden_size as u32;
    let rows = frames as u32;
    let ahead = matmul_f16(
        input,
        a.values()[w.forward.weight_ih as int],
        rows,
        (4 * h) as u32,
        input_size,
    );
    let back = matmul_f16(
        input,
        a.values()[w.reverse.weight_ih as int],
        rows,
        (4 * h) as u32,
        input_size,
    );
    lemma_steps_at(w.forward, a, b, ahead, frames, h, false, frames as nat);
    lemma_steps_at(w.reverse, a, b, back, frames, h, true, frames as nat);
}

impl LstmDirection {
    /// Loaded weights exist at their full size.
    proof fn lemma_loaded(
        plan: Plan,
        base: int,
        group: Seq<char>,
        prefix: Seq<char>,
        input: usize,
        hidden: usize,
        reverse: bool,
    )
        requires
            4 * hidden <= usize::MAX,
            stores(plan, base, direction_tensors(group, prefix, input, hidden, reverse)),
        ensures
            Self::at(base).fits(plan, input, hidden),
    {
        let tensors = direction_tensors(group, prefix, input, hidden, reverse);
        let gates = (4 * hidden) as usize;
        lemma_stored2(plan, base, tensors, 0, gates, input);
        lemma_stored2(plan, base, tensors, 1, gates, hidden);
        lemma_stored1(plan, base, tensors, 2, gates);
        lemma_stored1(plan, base, tensors, 3, gates);
    }
}

impl KokoroBiLstm {
    /// Loaded weights exist at their full size.
    pub proof fn law_loaded_weights_fit(
        plan: Plan,
        base: int,
        group: Seq<char>,
        prefix: Seq<char>,
        input: usize,
        hidden: usize,
    )
        requires
            4 * hidden <= usize::MAX,
            stores(plan, base, lstm_tensors(group, prefix, input, hidden)),
        ensures
            Self::at(base, input, hidden).fits(plan),
    {
        let a = direction_tensors(group, prefix, input, hidden, false);
        let b = direction_tensors(group, prefix, input, hidden, true);
        lemma_stores_split(plan, base, a, b);
        LstmDirection::lemma_loaded(plan, base, group, prefix, input, hidden, false);
        LstmDirection::lemma_loaded(plan, base + 4, group, prefix, input, hidden, true);
    }
}

} // verus!
