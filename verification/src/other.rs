use vstd::prelude::*;
use crate::error::{ShapeError, WeightCopyError};
use crate::module::{
    parameter_views, CopyFailure, Init, Module, ModuleCopy, Parameter, ParameterView,
};
use crate::tensor::{element_count, Tensor, MAX_RANK};

verus! {

/// The last axes of `x` are the axes `tail`.
pub open spec fn ends_with(x: Seq<nat>, tail: Seq<nat>) -> bool {
    x.len() >= tail.len() && x.subrange(x.len() - tail.len(), x.len() as int) == tail
}

/// Shape after normalising over the last axes, which must be `normalized`.
pub open spec fn layer_norm_shape(x: Seq<nat>, normalized: Seq<nat>) -> Result<
    Seq<nat>,
    ShapeError,
> {
    if ends_with(x, normalized) {
        Ok(x)
    } else {
        Err(ShapeError::Mismatch)
    }
}

/// The parameters of a normalisation over `normalized`: the scale, then the
/// shift, as far as it has them.
pub open spec fn layer_norm_parameters(normalized: Seq<nat>, scale: bool, shift: bool) -> Seq<
    ParameterView,
> {
    (if scale {
        seq![ParameterView { shape: normalized, init: Init::Ones, trainable: true }]
    } else {
        Seq::empty()
    }) + (if shift {
        seq![ParameterView { shape: normalized, init: Init::Zeros, trainable: true }]
    } else {
        Seq::empty()
    })
}

/// Normalisation over the last axes, with a learned scale and shift or without.
#[derive(Clone, Copy, Debug)]
pub struct LayerNorm {
    ws: Option<Tensor>,
    bs: Option<Tensor>,
    normalized_shape: Tensor,
}

impl LayerNorm {
    /// Every normalisation that executable code can hold satisfies this.
    #[verifier::type_invariant]
    pub closed spec fn well_formed(self) -> bool {
        &&& self.normalized_shape.well_formed()
        &&& self.ws matches Some(w) ==> w.well_formed() && w@ == self.normalized_shape@
        &&& self.bs matches Some(b) ==> b.well_formed() && b@ == self.normalized_shape@
    }

    /// The axes that are normalised over.
    pub closed spec fn normalized(self) -> Seq<nat> {
        self.normalized_shape@
    }

    /// Whether there is a learned scale.
    pub closed spec fn has_scale(self) -> bool {
        self.ws is Some
    }

    /// Whether there is a learned shift.
    pub closed spec fn has_shift(self) -> bool {
        self.bs is Some
    }

    /// Normalisation over `normalized_shape` with a learned scale and shift.
    pub fn new(normalized_shape: Tensor) -> (l: LayerNorm)
        ensures
            l.normalized() == normalized_shape@,
            l.has_scale(),
            l.has_shift(),
            l.well_formed(),
    {
        proof {
            use_type_invariant(&normalized_shape);
        }
        LayerNorm { ws: Some(normalized_shape), bs: Some(normalized_shape), normalized_shape }
    }

    /// Normalisation over `normalized_shape` and nothing more.
    pub fn plain(normalized_shape: Tensor) -> (l: LayerNorm)
        ensures
            l.normalized() == normalized_shape@,
            !l.has_scale(),
            !l.has_shift(),
            l.well_formed(),
    {
        proof {
            use_type_invariant(&normalized_shape);
        }
        LayerNorm { ws: None, bs: None, normalized_shape }
    }

    /// The learned scale, where there is one.
    pub fn ws(&self) -> (t: Option<Tensor>)
        ensures
            t is Some == self.has_scale(),
            t matches Some(w) ==> w@ == self.normalized(),
    {
        proof {
            use_type_invariant(self);
        }
        self.ws
    }

    /// The learned shift, where there is one.
    pub fn bs(&self) -> (t: Option<Tensor>)
        ensures
            t is Some == self.has_shift(),
            t matches Some(b) ==> b@ == self.normalized(),
    {
        proof {
            use_type_invariant(self);
        }
        self.bs
    }

    /// The axes that are normalised over.
    pub fn normalized_shape(&self) -> (t: Tensor)
        ensures
            t@ == self.normalized(),
    {
        self.normalized_shape
    }
}

impl Module for LayerNorm {
    type Input = Tensor;

    type Output = Tensor;

    open spec fn forward_spec(&self, input: Seq<nat>) -> Result<Seq<nat>, ShapeError> {
        layer_norm_shape(input, self.normalized())
    }

    open spec fn parameters_spec(&self) -> Seq<ParameterView> {
        layer_norm_parameters(self.normalized(), self.has_scale(), self.has_shift())
    }

    open spec fn in_mode(&self, training: bool) -> bool {
        true
    }

    fn train(&mut self) {
    }

    fn eval(&mut self) {
    }

    fn forward(&self, input: Tensor) -> (out: Result<Tensor, ShapeError>) {
        proof {
            use_type_invariant(self);
        }
        let n = self.normalized_shape.rank();
        let r = input.rank();
        if r < n {
            return Err(ShapeError::Mismatch);
        }
        let ghost x = input@;
        let ghost tail = self.normalized_shape@;
        let mut i: usize = 0;
        while i < n
            invariant
                i <= n <= r,
                r == x.len(),
                n == tail.len(),
                x == input@,
                tail == self.normalized_shape@,
                forall|k: int| 0 <= k < i ==> x[r - n + k] == tail[k],
            decreases n - i,
        {
            let a = input.dim(r - n + i);
            let b = self.normalized_shape.dim(i);
            if a != b {
                proof {
                    let sub = x.subrange(x.len() - tail.len(), x.len() as int);
                    assert(sub[i as int] == x[r - n + i]);
                }
                return Err(ShapeError::Mismatch);
            }
            i = i + 1;
        }
        assert(x.subrange(x.len() - tail.len(), x.len() as int) =~= tail);
        Ok(input)
    }

    fn parameters(&self) -> (params: Vec<Parameter>) {
        proof {
            use_type_invariant(self);
        }
        let mut params: Vec<Parameter> = Vec::new();
        if let Some(w) = self.ws {
            params.push(Parameter { shape: w, init: Init::Ones, trainable: true });
        }
        if let Some(b) = self.bs {
            params.push(Parameter { shape: b, init: Init::Zeros, trainable: true });
        }
        assert(parameter_views(params@) =~= self.parameters_spec());
        params
    }
}

impl ModuleCopy for LayerNorm {
    /// A scale or shift that only one side has is passed over.
    open spec fn copy_spec(&self, source: &Self) -> Result<(), CopyFailure> {
        if (self.has_scale() && source.has_scale() || self.has_shift() && source.has_shift())
            && self.normalized() != source.normalized() {
            Err(CopyFailure::SizeMismatch)
        } else {
            Ok(())
        }
    }

    fn check_copy(&self, source: &Self) -> (r: Result<(), WeightCopyError>) {
        proof {
            use_type_invariant(self);
            use_type_invariant(source);
        }
        if let Some(bs_dest) = self.bs {
            if let Some(bs_source) = source.bs {
                if !bs_dest.same_shape(&bs_source) {
                    return Err(WeightCopyError::SizeMismatch);
                }
            }
        }
        if let Some(ws_dest) = self.ws {
            if let Some(ws_source) = source.ws {
                if !ws_dest.same_shape(&ws_source) {
                    return Err(WeightCopyError::SizeMismatch);
                }
            }
        }
        Ok(())
    }
}

/// Shape of the vectors looked up for the indices of shape `indices`: one
/// more axis, of size `dim`.
pub open spec fn embedding_shape(indices: Seq<nat>, dim: nat) -> Result<Seq<nat>, ShapeError> {
    if indices.len() >= MAX_RANK {
        Err(ShapeError::Invalid)
    } else if element_count(indices.push(dim)) > u64::MAX {
        Err(ShapeError::TooLarge)
    } else {
        Ok(indices.push(dim))
    }
}

/// The sizes from which a table can be built.
pub open spec fn table_dims_ok(rows: nat, cols: nat) -> bool {
    rows >= 1 && cols >= 1 && rows * cols <= u64::MAX
}

/// A table of learned vectors, one for each index.
#[derive(Clone, Copy, Debug)]
pub struct Embedding {
    ws: Tensor,
}

impl Embedding {
    /// Every table that executable code can hold satisfies this.
    #[verifier::type_invariant]
    pub closed spec fn well_formed(self) -> bool {
        self.ws.well_formed() && self.ws@.len() == 2
    }

    /// How many indices there are.
    pub closed spec fn num_embeddings(self) -> nat {
        self.ws@[0]
    }

    /// The size of each vector.
    pub closed spec fn embedding_dim(self) -> nat {
        self.ws@[1]
    }

    /// Whether a table of `num_embeddings` vectors of size `embedding_dim`
    /// can be built.
    pub fn dims_ok(num_embeddings: u64, embedding_dim: u64) -> (ok: bool)
        ensures
            ok == table_dims_ok(num_embeddings as nat, embedding_dim as nat),
    {
        num_embeddings >= 1 && embedding_dim >= 1 && num_embeddings.checked_mul(
            embedding_dim,
        ).is_some()
    }

    /// A table of `num_embeddings` vectors of size `embedding_dim`.
    pub fn new(num_embeddings: u64, embedding_dim: u64) -> (e: Embedding)
        requires
            table_dims_ok(num_embeddings as nat, embedding_dim as nat),
        ensures
            e.num_embeddings() == num_embeddings,
            e.embedding_dim() == embedding_dim,
            e.well_formed(),
    {
        let ws = Tensor::matrix(num_embeddings, embedding_dim);
        proof {
            use_type_invariant(&ws);
        }
        Embedding { ws }
    }

    /// The table: one row for each index.
    pub fn ws(&self) -> (t: Tensor)
        ensures
            t@ == seq![self.num_embeddings(), self.embedding_dim()],
    {
        proof {
            use_type_invariant(self);
            assert(self.ws@ =~= seq![self.num_embeddings(), self.embedding_dim()]);
        }
        self.ws
    }

    /// Whether `token` is an index of the table.
    pub fn accepts_token(&self, token: i64) -> (ok: bool)
        ensures
            ok == (0 <= token < self.num_embeddings()),
    {
        proof {
            use_type_invariant(self);
        }
        match self.ws.dim(0) {
            Some(n) => token >= 0 && (token as u64) < n,
            None => false,
        }
    }

    /// A well-formed table has sizes from which it can be built.
    pub proof fn lemma_dims(self)
        requires
            self.well_formed(),
        ensures
            table_dims_ok(self.num_embeddings(), self.embedding_dim()),
    {
        self.ws.lemma_valid();
        let w = self.ws@;
        assert(element_count(w) == w[0] * w[1]) by (nonlinear_arith)
            requires
                element_count(w) == w[0] * w[1] * 1 * 1 * 1,
        ;
    }
}

impl Module for Embedding {
    type Input = Tensor;

    type Output = Tensor;

    open spec fn forward_spec(&self, input: Seq<nat>) -> Result<Seq<nat>, ShapeError> {
        embedding_shape(input, self.embedding_dim())
    }

    open spec fn parameters_spec(&self) -> Seq<ParameterView> {
        seq![
            ParameterView {
                shape: seq![self.num_embeddings(), self.embedding_dim()],
                init: Init::Normal { std_milli: 1000 },
                trainable: true,
            },
        ]
    }

    open spec fn in_mode(&self, training: bool) -> bool {
        true
    }

    fn train(&mut self) {
    }

    fn eval(&mut self) {
    }

    fn forward(&self, input: Tensor) -> (out: Result<Tensor, ShapeError>) {
        proof {
            use_type_invariant(self);
            use_type_invariant(&input);
            input.lemma_valid();
        }
        let wide = input.unsqueeze_end()?;
        let dim = match self.ws.dim(1) {
            Some(d) => d,
            None => {
                return Err(ShapeError::Invalid);
            },
        };
        let out = wide.repeat(input.rank(), dim);
        proof {
            self.lemma_dims();
            assert(input@.push(1).update(input@.len() as int, dim as nat) =~= input@.push(
                dim as nat,
            ));
        }
        out
    }

    fn parameters(&self) -> (params: Vec<Parameter>) {
        proof {
            use_type_invariant(self);
            assert(self.ws@ =~= seq![self.num_embeddings(), self.embedding_dim()]);
        }
        let mut params: Vec<Parameter> = Vec::new();
        params.push(
            Parameter { shape: self.ws, init: Init::Normal { std_milli: 1000 }, trainable: true },
        );
        assert(parameter_views(params@) =~= self.parameters_spec());
        params
    }
}

impl ModuleCopy for Embedding {
    open spec fn copy_spec(&self, source: &Self) -> Result<(), CopyFailure> {
        if self.num_embeddings() == source.num_embeddings() && self.embedding_dim()
            == source.embedding_dim() {
            Ok(())
        } else {
            Err(CopyFailure::SizeMismatch)
        }
    }

    fn check_copy(&self, source: &Self) -> (r: Result<(), WeightCopyError>) {
        proof {
            use_type_invariant(self);
            use_type_invariant(source);
            assert(self.ws@ =~= seq![self.num_embeddings(), self.embedding_dim()]);
            assert(source.ws@ =~= seq![source.num_embeddings(), source.embedding_dim()]);
        }
        if !self.ws.same_shape(&source.ws) {
            Err(WeightCopyError::SizeMismatch)
        } else {
            Ok(())
        }
    }
}

} // verus!
