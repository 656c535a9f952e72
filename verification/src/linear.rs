use vstd::prelude::*;
use crate::error::{ShapeError, WeightCopyError};
use crate::module::{
    parameter_views, CopyFailure, Init, Module, ModuleCopy, Parameter, ParameterView,
};
use crate::tensor::{element_count, Tensor};

verus! {

/// Shape of `x · Wᵀ + b` for a weight `W` of `out_dim` rows and `in_dim`
/// columns: the last axis of `x` goes from `in_dim` to `out_dim`.
pub open spec fn affine_shape(x: Seq<nat>, in_dim: nat, out_dim: nat) -> Result<
    Seq<nat>,
    ShapeError,
> {
    if x.last() != in_dim {
        Err(ShapeError::Mismatch)
    } else if element_count(x.drop_last().push(out_dim)) > u64::MAX {
        Err(ShapeError::TooLarge)
    } else {
        Ok(x.drop_last().push(out_dim))
    }
}

/// The sizes from which a linear layer can be built.
pub open spec fn linear_dims_ok(in_dim: nat, out_dim: nat) -> bool {
    in_dim >= 1 && out_dim >= 1 && in_dim * out_dim <= u64::MAX
}

/// The parameters of a linear layer: the weight, then the bias.
pub open spec fn linear_parameters(
    in_dim: nat,
    out_dim: nat,
    ws_init: Init,
    bs_init: Init,
    bias_trainable: bool,
) -> Seq<ParameterView> {
    seq![
        ParameterView { shape: seq![out_dim, in_dim], init: ws_init, trainable: true },
        ParameterView { shape: seq![out_dim], init: bs_init, trainable: bias_trainable },
    ]
}

/// An affine map of the last axis: `x · Wᵀ + b`.
#[derive(Clone, Copy, Debug)]
pub struct Linear {
    ws: Tensor,
    bs: Tensor,
    ws_init: Init,
    bs_init: Init,
    bias_trainable: bool,
}

impl Linear {
    /// Every linear layer that executable code can hold satisfies this.
    #[verifier::type_invariant]
    pub closed spec fn well_formed(self) -> bool {
        &&& self.ws.well_formed()
        &&& self.bs.well_formed()
        &&& self.ws@.len() == 2
        &&& self.bs@ == seq![self.ws@[0]]
    }

    /// Size of the last axis of the inputs.
    pub closed spec fn in_dim(self) -> nat {
        self.ws@[1]
    }

    /// Size of the last axis of the outputs.
    pub closed spec fn out_dim(self) -> nat {
        self.ws@[0]
    }

    /// How the weight is filled before training.
    pub closed spec fn ws_init(self) -> Init {
        self.ws_init
    }

    /// How the bias is filled before training.
    pub closed spec fn bs_init(self) -> Init {
        self.bs_init
    }

    /// Whether training changes the bias.
    pub closed spec fn bias_trainable(self) -> bool {
        self.bias_trainable
    }

    /// Whether a layer from `in_dim` to `out_dim` can be built.
    pub fn dims_ok(in_dim: u64, out_dim: u64) -> (ok: bool)
        ensures
            ok == linear_dims_ok(in_dim as nat, out_dim as nat),
    {
        in_dim >= 1 && out_dim >= 1 && in_dim.checked_mul(out_dim).is_some()
    }

    fn build(in_dim: u64, out_dim: u64, ws_init: Init, bs_init: Init, bias_trainable: bool) -> (l:
        Linear)
        requires
            linear_dims_ok(in_dim as nat, out_dim as nat),
        ensures
            l.in_dim() == in_dim,
            l.out_dim() == out_dim,
            l.ws_init() == ws_init,
            l.bs_init() == bs_init,
            l.bias_trainable() == bias_trainable,
            l.well_formed(),
    {
        assert(out_dim * in_dim == in_dim * out_dim) by (nonlinear_arith);
        let ws = Tensor::matrix(out_dim, in_dim);
        let bs = Tensor::vector(out_dim);
        proof {
            use_type_invariant(&ws);
            use_type_invariant(&bs);
        }
        Linear { ws, bs, ws_init, bs_init, bias_trainable }
    }

    /// A layer from `in_dim` to `out_dim` with a small random weight and a
    /// zero bias, both trained.
    pub fn new(in_dim: u64, out_dim: u64) -> (l: Linear)
        requires
            linear_dims_ok(in_dim as nat, out_dim as nat),
        ensures
            l.in_dim() == in_dim,
            l.out_dim() == out_dim,
            l.ws_init() == (Init::Normal { std_milli: 20 }),
            l.bs_init() == Init::Zeros,
            l.bias_trainable(),
            l.well_formed(),
    {
        Linear::build(in_dim, out_dim, Init::Normal { std_milli: 20 }, Init::Zeros, true)
    }

    /// As `new`, but the bias stays zero: training does not touch it.
    pub fn no_bias(in_dim: u64, out_dim: u64) -> (l: Linear)
        requires
            linear_dims_ok(in_dim as nat, out_dim as nat),
        ensures
            l.in_dim() == in_dim,
            l.out_dim() == out_dim,
            l.ws_init() == (Init::Normal { std_milli: 20 }),
            l.bs_init() == Init::Zeros,
            !l.bias_trainable(),
            l.well_formed(),
    {
        Linear::build(in_dim, out_dim, Init::Normal { std_milli: 20 }, Init::Zeros, false)
    }

    /// As `new`, but weight and bias start with a spread scaled by their fan-in.
    pub fn variance_init(in_dim: u64, out_dim: u64) -> (l: Linear)
        requires
            linear_dims_ok(in_dim as nat, out_dim as nat),
        ensures
            l.in_dim() == in_dim,
            l.out_dim() == out_dim,
            l.ws_init() == Init::FanIn,
            l.bs_init() == Init::FanIn,
            l.bias_trainable(),
            l.well_formed(),
    {
        Linear::build(in_dim, out_dim, Init::FanIn, Init::FanIn, true)
    }

    /// The weight: `out_dim` rows of `in_dim` columns.
    pub fn ws(&self) -> (t: Tensor)
        ensures
            t@ == seq![self.out_dim(), self.in_dim()],
    {
        proof {
            use_type_invariant(self);
            assert(self.ws@ =~= seq![self.out_dim(), self.in_dim()]);
        }
        self.ws
    }

    /// The bias: `out_dim` entries.
    pub fn bs(&self) -> (t: Tensor)
        ensures
            t@ == seq![self.out_dim()],
    {
        proof {
            use_type_invariant(self);
        }
        self.bs
    }

}

impl Module for Linear {
    type Input = Tensor;

    type Output = Tensor;

    open spec fn forward_spec(&self, input: Seq<nat>) -> Result<Seq<nat>, ShapeError> {
        affine_shape(input, self.in_dim(), self.out_dim())
    }

    open spec fn parameters_spec(&self) -> Seq<ParameterView> {
        linear_parameters(
            self.in_dim(),
            self.out_dim(),
            self.ws_init(),
            self.bs_init(),
            self.bias_trainable(),
        )
    }

    open spec fn in_mode(&self, training: bool) -> bool {
        true
    }

    fn train(&mut self) {
    }

    fn eval(&mut self) {
    }

    fn forward(&self, input: Tensor) -> (out: Result<Tensor, ShapeError>) {
        proof {
            use_type_invariant(self);
            use_type_invariant(&input);
            input.lemma_valid();
        }
        let wt = self.ws.tr()?;
        let y = input.matmul(&wt)?;
        let out = y.add(&self.bs);
        proof {
            let x = input@;
            let w = wt@;
            assert(w =~= seq![self.in_dim(), self.out_dim()]);
            if x.len() == 1 {
                assert(seq![w[1]] =~= x.drop_last().push(self.out_dim()));
            }
            assert(y@ =~= x.drop_last().push(self.out_dim()));
        }
        out
    }

    fn parameters(&self) -> (params: Vec<Parameter>) {
        proof {
            use_type_invariant(self);
        }
        let mut params: Vec<Parameter> = Vec::new();
        params.push(Parameter { shape: self.ws, init: self.ws_init, trainable: true });
        params.push(
            Parameter { shape: self.bs, init: self.bs_init, trainable: self.bias_trainable },
        );
        proof {
            assert(self.ws@ =~= seq![self.out_dim(), self.in_dim()]);
            assert(parameter_views(params@) =~= self.parameters_spec());
        }
        params
    }
}

impl ModuleCopy for Linear {
    open spec fn copy_spec(&self, source: &Self) -> Result<(), CopyFailure> {
        if self.in_dim() == source.in_dim() && self.out_dim() == source.out_dim() {
            Ok(())
        } else {
            Err(CopyFailure::SizeMismatch)
        }
    }

    fn check_copy(&self, source: &Self) -> (r: Result<(), WeightCopyError>) {
        proof {
            use_type_invariant(self);
            use_type_invariant(source);
            assert(self.ws@ =~= seq![self.out_dim(), self.in_dim()]);
            assert(source.ws@ =~= seq![source.out_dim(), source.in_dim()]);
        }
        if !self.ws.same_shape(&source.ws) || !self.bs.same_shape(&source.bs) {
            Err(WeightCopyError::SizeMismatch)
        } else {
            Ok(())
        }
    }
}

/// Where one linear layer can hand its weights to another, the two own
/// parameters of the same shapes, and so the same number of elements.
pub proof fn lemma_linear_copy(destination: Linear, source: Linear)
    requires
        destination.copy_spec(&source) is Ok,
    ensures
        crate::module::parameter_shapes(destination.parameters_spec())
            == crate::module::parameter_shapes(source.parameters_spec()),
        crate::module::all_elements(destination.parameters_spec()) == crate::module::all_elements(
            source.parameters_spec(),
        ),
{
    let a = destination.parameters_spec();
    let b = source.parameters_spec();
    assert(crate::module::parameter_shapes(a) =~= crate::module::parameter_shapes(b));
    crate::module::lemma_same_shapes_same_elements(a, b);
}

/// Where the sizes of two linear layers differ, the one cannot hand its
/// weights to the other.
pub proof fn lemma_linear_copy_refused(destination: Linear, source: Linear)
    requires
        destination.in_dim() != source.in_dim() || destination.out_dim() != source.out_dim(),
    ensures
        destination.copy_spec(&source) == Err::<(), CopyFailure>(CopyFailure::SizeMismatch),
{
}

} // verus!
