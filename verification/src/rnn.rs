use vstd::prelude::*;
use crate::activation::Activation;
use crate::error::ShapeError;
use crate::linear::{linear_dims_ok, Linear};
use crate::module::{parameter_views, result_view, Init, Module, Parameter, ParameterView};
use crate::tensor::{cat_shape, element_count, elementwise_shape, lemma_count2, Tensor};

verus! {

/// What a recurrent cell makes of an input of shape `x` and a hidden state
/// of shape `h`: the output and the next hidden state. Input and state each
/// go through a linear layer and the activation of the hidden state, their
/// sum is the next state, and the output comes from it through a linear
/// layer and the activation of the output.
pub open spec fn cell_shape<A: Activation, B: Activation>(
    x: Seq<nat>,
    h: Seq<nat>,
    wx: Linear,
    wh: Linear,
    wy: Linear,
    activation_h: A,
    activation_o: B,
) -> Result<(Seq<nat>, Seq<nat>), ShapeError> {
    match wx.forward_spec(x) {
        Err(e) => Err(e),
        Ok(a) => match activation_h.forward_spec(a) {
            Err(e) => Err(e),
            Ok(a) => match wh.forward_spec(h) {
                Err(e) => Err(e),
                Ok(b) => match activation_h.forward_spec(b) {
                    Err(e) => Err(e),
                    Ok(b) => match elementwise_shape(a, b) {
                        Err(e) => Err(e),
                        Ok(next) => match wy.forward_spec(next) {
                            Err(e) => Err(e),
                            Ok(y) => match activation_o.forward_spec(y) {
                                Err(e) => Err(e),
                                Ok(out) => Ok((out, next)),
                            },
                        },
                    },
                },
            },
        },
    }
}

/// The sizes from which a recurrent cell can be built.
pub open spec fn cell_dims_ok(in_dim: nat, hidden_dim: nat, out_dim: nat) -> bool {
    &&& linear_dims_ok(in_dim, hidden_dim)
    &&& linear_dims_ok(hidden_dim, hidden_dim)
    &&& linear_dims_ok(hidden_dim, out_dim)
}

/// One step of a recurrent network.
#[derive(Clone, Copy, Debug)]
pub struct RNNCell<A: Activation, B: Activation> {
    wx: Linear,
    wh: Linear,
    wy: Linear,
    activation_h: A,
    activation_o: B,
}

impl<A: Activation, B: Activation> RNNCell<A, B> {
    /// The layer that takes the input to the hidden size.
    pub closed spec fn wx(self) -> Linear {
        self.wx
    }

    /// The layer that takes the hidden state to the hidden size.
    pub closed spec fn wh(self) -> Linear {
        self.wh
    }

    /// The layer that takes the hidden state to the output size.
    pub closed spec fn wy(self) -> Linear {
        self.wy
    }

    /// The activation of the hidden state.
    pub closed spec fn activation_h(self) -> A {
        self.activation_h
    }

    /// The activation of the output.
    pub closed spec fn activation_o(self) -> B {
        self.activation_o
    }

    /// The cell from inputs of size `in_dim` over a hidden state of size
    /// `hidden_dim` to outputs of size `out_dim`.
    pub open spec fn sized(self, in_dim: nat, hidden_dim: nat, out_dim: nat) -> bool {
        &&& self.wx().in_dim() == in_dim
        &&& self.wx().out_dim() == hidden_dim
        &&& self.wh().in_dim() == hidden_dim
        &&& self.wh().out_dim() == hidden_dim
        &&& self.wy().in_dim() == hidden_dim
        &&& self.wy().out_dim() == out_dim
    }

    /// Whether a cell of these sizes can be built.
    pub fn dims_ok(in_dim: u64, hidden_dim: u64, out_dim: u64) -> (ok: bool)
        ensures
            ok == cell_dims_ok(in_dim as nat, hidden_dim as nat, out_dim as nat),
    {
        Linear::dims_ok(in_dim, hidden_dim) && Linear::dims_ok(hidden_dim, hidden_dim)
            && Linear::dims_ok(hidden_dim, out_dim)
    }

    /// The cell of the given sizes with the given activations.
    pub fn new(in_dim: u64, hidden_dim: u64, out_dim: u64, activation_h: A, activation_o: B) -> (c:
        Self)
        requires
            cell_dims_ok(in_dim as nat, hidden_dim as nat, out_dim as nat),
        ensures
            c.sized(in_dim as nat, hidden_dim as nat, out_dim as nat),
            c.activation_h() == activation_h,
            c.activation_o() == activation_o,
    {
        RNNCell {
            activation_h,
            activation_o,
            wx: Linear::new(in_dim, hidden_dim),
            wy: Linear::new(hidden_dim, out_dim),
            wh: Linear::new(hidden_dim, hidden_dim),
        }
    }

    /// Where both activations take matrices, a step takes a batch of inputs
    /// and a batch of hidden states to a batch of outputs and the next batch
    /// of hidden states.
    pub proof fn lemma_matrix_step(
        self,
        batch: nat,
        in_dim: nat,
        hidden_dim: nat,
        out_dim: nat,
    )
        requires
            self.sized(in_dim, hidden_dim, out_dim),
            batch * hidden_dim <= u64::MAX,
            batch * out_dim <= u64::MAX,
            forall|m: Seq<nat>|
                m.len() == 2 ==> #[trigger] self.activation_h().forward_spec(m) == Ok::<
                    Seq<nat>,
                    ShapeError,
                >(m),
            forall|m: Seq<nat>|
                m.len() == 2 ==> #[trigger] self.activation_o().forward_spec(m) == Ok::<
                    Seq<nat>,
                    ShapeError,
                >(m),
        ensures
            self.forward_spec((seq![batch, in_dim], seq![batch, hidden_dim])) == Ok::<
                (Seq<nat>, Seq<nat>),
                ShapeError,
            >((seq![batch, out_dim], seq![batch, hidden_dim])),
    {
        let x = seq![batch, in_dim];
        let h = seq![batch, hidden_dim];
        let y = seq![batch, out_dim];
        lemma_count2(batch, hidden_dim);
        lemma_count2(batch, out_dim);
        assert(x.drop_last().push(hidden_dim) =~= h);
        assert(h.drop_last().push(hidden_dim) =~= h);
        assert(h.drop_last().push(out_dim) =~= y);
    }

    /// A step leaves the hidden state in the shape that the input's linear
    /// layer gives, and the output in the shape that the output's linear
    /// layer gives from it: the activations change no shape.
    pub proof fn lemma_step(self, x: Seq<nat>, h: Seq<nat>)
        ensures
            self.forward_spec((x, h)) matches Ok((out, next)) ==> {
                &&& self.wx().forward_spec(x) == Ok::<Seq<nat>, ShapeError>(next)
                &&& self.wy().forward_spec(next) == Ok::<Seq<nat>, ShapeError>(out)
            },
    {
        if let Ok(a) = self.wx().forward_spec(x) {
            self.activation_h().lemma_keeps_shape(a);
            if let Ok(b) = self.wh().forward_spec(h) {
                self.activation_h().lemma_keeps_shape(b);
                if let Ok(next) = elementwise_shape(a, b) {
                    if let Ok(y) = self.wy().forward_spec(next) {
                        self.activation_o().lemma_keeps_shape(y);
                    }
                }
            }
        }
    }
}

impl<A: Activation, B: Activation> Module for RNNCell<A, B> {
    type Input = (Tensor, Tensor);

    type Output = (Tensor, Tensor);

    open spec fn forward_spec(&self, input: (Seq<nat>, Seq<nat>)) -> Result<
        (Seq<nat>, Seq<nat>),
        ShapeError,
    > {
        cell_shape(
            input.0,
            input.1,
            self.wx(),
            self.wh(),
            self.wy(),
            self.activation_h(),
            self.activation_o(),
        )
    }

    open spec fn parameters_spec(&self) -> Seq<ParameterView> {
        self.wx().parameters_spec() + self.wh().parameters_spec() + self.wy().parameters_spec()
            + self.activation_h().parameters_spec() + self.activation_o().parameters_spec()
    }

    open spec fn in_mode(&self, training: bool) -> bool {
        self.activation_h().in_mode(training) && self.activation_o().in_mode(training)
    }

    fn train(&mut self) {
        self.activation_h.train();
        self.activation_o.train();
    }

    fn eval(&mut self) {
        self.activation_h.eval();
        self.activation_o.eval();
    }

    fn forward(&self, pair: (Tensor, Tensor)) -> (out: Result<(Tensor, Tensor), ShapeError>) {
        let input = pair.0;
        let hidden = pair.1;
        proof {
            assert(pair@.0 == input@ && pair@.1 == hidden@);
        }
        let input = self.activation_h.apply(self.wx.forward(input)?)?;
        let hidden = self.activation_h.apply(self.wh.forward(hidden)?)?;
        let new_hidden = input.add(&hidden)?;
        let output = self.activation_o.apply(self.wy.forward(new_hidden)?)?;
        Ok((output, new_hidden))
    }

    fn parameters(&self) -> (params: Vec<Parameter>) {
        let mut params = self.wx.parameters();
        let mut wh = self.wh.parameters();
        let mut wy = self.wy.parameters();
        let mut ah = self.activation_h.parameters();
        let mut ao = self.activation_o.parameters();
        let ghost a = params@;
        let ghost b = wh@;
        let ghost c = wy@;
        let ghost d = ah@;
        let ghost e = ao@;
        params.append(&mut wh);
        params.append(&mut wy);
        params.append(&mut ah);
        params.append(&mut ao);
        assert(parameter_views(a + b + c + d + e) =~= parameter_views(a) + parameter_views(b)
            + parameter_views(c) + parameter_views(d) + parameter_views(e));
        params
    }
}

/// The parameter of an initial hidden state.
pub open spec fn initial_state_parameters(hidden_dim: nat) -> Seq<ParameterView> {
    seq![ParameterView { shape: seq![hidden_dim], init: Init::Uniform, trainable: true }]
}

/// What one direction of a recurrent network makes of sequences of shape
/// `x`, first axis the position, second the sequence: each entry goes
/// through the cell together with the hidden state, which starts as the
/// initial state for every sequence.
pub open spec fn direction_shape<A: Activation, B: Activation>(
    x: Seq<nat>,
    cell: RNNCell<A, B>,
    hidden_dim: nat,
) -> Result<Seq<nat>, ShapeError> {
    if x.len() != 3 {
        Err(ShapeError::Mismatch)
    } else if element_count(seq![x[1], hidden_dim]) > u64::MAX {
        Err(ShapeError::TooLarge)
    } else {
        match cell.forward_spec((seq![x[1], x[2]], seq![x[1], hidden_dim])) {
            Err(e) => Err(e),
            Ok((out, next)) => if out.len() != 2 {
                Err(ShapeError::Mismatch)
            } else if element_count(seq![x[0], out[0], out[1]]) > u64::MAX {
                Err(ShapeError::TooLarge)
            } else {
                Ok(seq![x[0], out[0], out[1]])
            },
        }
    }
}

/// A recurrent network over whole sequences, in one direction or in both.
#[derive(Debug)]
pub struct RNN<A: Activation, B: Activation> {
    cell: RNNCell<A, B>,
    initial_hidden: Tensor,
    reverse_cell: Option<RNNCell<A, B>>,
    initial_reverse_hidden: Option<Tensor>,
}

impl<A: Activation, B: Activation> RNN<A, B> {
    /// The cell that reads the sequence from its start.
    pub closed spec fn cell(self) -> RNNCell<A, B> {
        self.cell
    }

    /// The cell that reads the sequence from its end, where there is one.
    pub closed spec fn reverse_cell(self) -> Option<RNNCell<A, B>> {
        self.reverse_cell
    }

    /// The size of the hidden state.
    pub closed spec fn hidden_dim(self) -> nat {
        self.initial_hidden@[0]
    }

    /// Every network that executable code can hold satisfies this.
    #[verifier::type_invariant]
    pub closed spec fn well_formed(self) -> bool {
        &&& self.initial_hidden.well_formed()
        &&& self.initial_hidden@.len() == 1
        &&& self.reverse_cell is Some == self.initial_reverse_hidden is Some
        &&& self.initial_reverse_hidden matches Some(h) ==> h.well_formed() && h@
            == self.initial_hidden@
    }

}

impl<A: Activation + Copy, B: Activation + Copy> RNN<A, B> {
    /// The network of the given sizes with the given activations; with
    /// `bidirectional` it reads each sequence from both ends, with a cell of
    /// its own for each direction.
    pub fn new(
        in_dim: u64,
        hidden_dim: u64,
        out_dim: u64,
        bidirectional: bool,
        activation_h: A,
        activation_o: B,
    ) -> (n: Self)
        requires
            cell_dims_ok(in_dim as nat, hidden_dim as nat, out_dim as nat),
        ensures
            n.well_formed(),
            n.hidden_dim() == hidden_dim,
            n.cell().sized(in_dim as nat, hidden_dim as nat, out_dim as nat),
            n.cell().activation_h() == activation_h,
            n.cell().activation_o() == activation_o,
            n.reverse_cell() is Some == bidirectional,
            n.reverse_cell() matches Some(r) ==> r == n.cell(),
    {
        let cell = RNNCell::new(in_dim, hidden_dim, out_dim, activation_h, activation_o);
        let initial_hidden = Tensor::vector(hidden_dim);
        proof {
            use_type_invariant(&initial_hidden);
        }
        if bidirectional {
            RNN {
                cell,
                initial_hidden,
                reverse_cell: Some(cell),
                initial_reverse_hidden: Some(initial_hidden),
            }
        } else {
            RNN { cell, initial_hidden, reverse_cell: None, initial_reverse_hidden: None }
        }
    }

    /// Whether the network reads each sequence from both ends.
    pub fn is_bidirectional(&self) -> (both: bool)
        ensures
            both == self.reverse_cell() is Some,
    {
        self.reverse_cell.is_some()
    }

    fn direction(x: Tensor, cell: &RNNCell<A, B>, initial_hidden: Tensor) -> (out: Result<
        Tensor,
        ShapeError,
    >)
        requires
            initial_hidden@.len() == 1,
        ensures
            result_view(out) == direction_shape(x@, *cell, initial_hidden@[0]),
    {
        proof {
            use_type_invariant(&x);
            use_type_invariant(&initial_hidden);
            x.lemma_valid();
            initial_hidden.lemma_valid();
        }
        if x.rank() != 3 {
            return Err(ShapeError::Mismatch);
        }
        let seq = match x.dim(0) {
            Some(n) => n,
            None => {
                return Err(ShapeError::Mismatch);
            },
        };
        let batch = match x.dim(1) {
            Some(n) => n,
            None => {
                return Err(ShapeError::Mismatch);
            },
        };
        let ghost hidden_dim = initial_hidden@[0];
        proof {
            assert(initial_hidden@ =~= seq![hidden_dim]);
            assert((seq![1nat] + initial_hidden@).update(0, x@[1]) =~= seq![x@[1], hidden_dim]);
            assert(x@.drop_first() =~= seq![x@[1], x@[2]]);
        }
        let hidden = initial_hidden.unsqueeze_start()?.repeat(0, batch)?;
        let first = x.get(0)?;
        let (curr_output, _) = cell.forward((first, hidden))?;
        if curr_output.rank() != 2 {
            return Err(ShapeError::Mismatch);
        }
        let row = curr_output.unsqueeze_start()?;
        let output = row.repeat(0, seq);
        proof {
            let out = curr_output@;
            assert((seq![1nat] + out).update(0, x@[0]) =~= seq![x@[0], out[0], out[1]]);
        }
        output
    }
}

impl<A: Activation + Copy, B: Activation + Copy> Module for RNN<A, B> {
    type Input = Tensor;

    type Output = Tensor;

    open spec fn forward_spec(&self, input: Seq<nat>) -> Result<Seq<nat>, ShapeError> {
        match direction_shape(input, self.cell(), self.hidden_dim()) {
            Err(e) => Err(e),
            Ok(forward) => match self.reverse_cell() {
                None => Ok(forward),
                Some(cell) => match direction_shape(input, cell, self.hidden_dim()) {
                    Err(e) => Err(e),
                    Ok(backward) => cat_shape(forward, backward, 2),
                },
            },
        }
    }

    open spec fn parameters_spec(&self) -> Seq<ParameterView> {
        let forward = self.cell().parameters_spec() + initial_state_parameters(self.hidden_dim());
        forward + match self.reverse_cell() {
            None => Seq::empty(),
            Some(cell) => cell.parameters_spec() + initial_state_parameters(self.hidden_dim()),
        }
    }

    open spec fn in_mode(&self, training: bool) -> bool {
        self.cell().in_mode(training) && (self.reverse_cell() matches Some(cell)
            ==> cell.in_mode(training))
    }

    fn train(&mut self)
        ensures
            final(self).hidden_dim() == old(self).hidden_dim(),
    {
        proof {
            use_type_invariant(&*self);
        }
        let mut cell = self.cell;
        cell.train();
        let reverse_cell = match self.reverse_cell {
            Some(c) => {
                let mut c = c;
                c.train();
                Some(c)
            },
            None => None,
        };
        *self = RNN {
            cell,
            initial_hidden: self.initial_hidden,
            reverse_cell,
            initial_reverse_hidden: self.initial_reverse_hidden,
        };
    }

    fn eval(&mut self)
        ensures
            final(self).hidden_dim() == old(self).hidden_dim(),
    {
        proof {
            use_type_invariant(&*self);
        }
        let mut cell = self.cell;
        cell.eval();
        let reverse_cell = match self.reverse_cell {
            Some(c) => {
                let mut c = c;
                c.eval();
                Some(c)
            },
            None => None,
        };
        *self = RNN {
            cell,
            initial_hidden: self.initial_hidden,
            reverse_cell,
            initial_reverse_hidden: self.initial_reverse_hidden,
        };
    }

    fn forward(&self, input: Tensor) -> (out: Result<Tensor, ShapeError>) {
        proof {
            use_type_invariant(self);
        }
        let output = RNN::direction(input, &self.cell, self.initial_hidden)?;
        match (&self.reverse_cell, self.initial_reverse_hidden) {
            (Some(cell), Some(hidden)) => {
                let reverse_output = RNN::direction(input, cell, hidden)?;
                output.cat_3(&reverse_output)
            },
            _ => Ok(output),
        }
    }

    fn parameters(&self) -> (params: Vec<Parameter>) {
        proof {
            use_type_invariant(self);
            assert(self.initial_hidden@ =~= seq![self.hidden_dim()]);
        }
        let mut params = self.cell.parameters();
        let ghost a = params@;
        params.push(
            Parameter { shape: self.initial_hidden, init: Init::Uniform, trainable: true },
        );
        assert(parameter_views(params@) =~= parameter_views(a) + initial_state_parameters(
            self.hidden_dim(),
        ));
        match (&self.reverse_cell, self.initial_reverse_hidden) {
            (Some(cell), Some(hidden)) => {
                let mut more = cell.parameters();
                let ghost b = params@;
                let ghost c = more@;
                params.append(&mut more);
                params.push(Parameter { shape: hidden, init: Init::Uniform, trainable: true });
                assert(parameter_views(params@) =~= parameter_views(b) + parameter_views(c)
                    + initial_state_parameters(self.hidden_dim()));
            },
            _ => {
                assert(parameter_views(params@) =~= self.parameters_spec());
            },
        }
        params
    }
}

} // verus!
