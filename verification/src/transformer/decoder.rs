use vstd::prelude::*;
use crate::error::{ShapeError, WeightCopyError};
use crate::linear::Linear;
use crate::module::{
    lemma_trainable_elements_concat, parameter_views, result_view, trainable_elements,
    CopyFailure, Module, ModuleCopy, Parameter, ParameterView,
};
use crate::other::{table_dims_ok, Embedding, LayerNorm};
use crate::tensor::{element_count, lemma_count_monotone, Tensor};
use crate::transformer::base::{
    attention_dims_ok, attention_parameters, block_dims_ok, embedding_norm, lemma_ends_with_one,
    lemma_heads, lemma_split_heads, norm_parameters, plain_linear, plain_linear_parameters,
    position_parameters, score_shape, wrong_encoding_text, PositionTable,
    PositionalEncoding, SelfAttention,
};
use crate::transformer::encoder::{
    lemma_attention_elements, lemma_linear_elements, lemma_norm_elements,
    lemma_position_elements, lemma_repeated_elements, linear_elements, position_elements,
    repeated, table_parameters,
};

verus! {

/// Whether queries of shape `x` can attend to an encoder's output of shape
/// `enc`: both are batches of sequences of embeddings, with as many
/// sequences in the one as in the other. Where the future is masked, the
/// square mask must cover the scores.
pub open spec fn cross_inputs_ok(x: Seq<nat>, enc: Seq<nat>, n_embd: nat, causal: bool) -> bool {
    &&& x.len() == 3
    &&& enc.len() == 3
    &&& x[2] == n_embd
    &&& enc[2] == n_embd
    &&& x[0] == enc[0]
    &&& causal ==> x[1] == enc[1] || x[1] == 1
}

/// Shape after attention of the sequences `x` over the encoder's output `enc`.
pub open spec fn cross_attention_shape(
    x: Seq<nat>,
    enc: Seq<nat>,
    n_embd: nat,
    n_head: nat,
    causal: bool,
) -> Result<Seq<nat>, ShapeError> {
    if !cross_inputs_ok(x, enc, n_embd, causal) {
        Err(ShapeError::Mismatch)
    } else if element_count(score_shape(x[0], n_head, x[1], enc[1])) > u64::MAX {
        Err(ShapeError::TooLarge)
    } else {
        Ok(x)
    }
}

/// Attention of a decoder's sequence over an encoder's output: the queries
/// come from the one, keys and values from the other.
#[derive(Clone, Copy, Debug)]
pub struct DecoderSelfAttention {
    n_head: u64,
    n_embd: u64,
    key: Linear,
    query: Linear,
    value: Linear,
    proj: Linear,
    train: bool,
    causal_mask: bool,
}

impl DecoderSelfAttention {
    /// Every such layer that executable code can hold satisfies this.
    #[verifier::type_invariant]
    pub closed spec fn well_formed(self) -> bool {
        &&& attention_dims_ok(self.n_embd as nat, self.n_head as nat)
        &&& plain_linear(self.key, self.n_embd as nat, self.n_embd as nat)
        &&& plain_linear(self.query, self.n_embd as nat, self.n_embd as nat)
        &&& plain_linear(self.value, self.n_embd as nat, self.n_embd as nat)
        &&& plain_linear(self.proj, self.n_embd as nat, self.n_embd as nat)
    }

    /// The size of an embedding.
    pub closed spec fn n_embd(self) -> nat {
        self.n_embd as nat
    }

    /// The number of heads.
    pub closed spec fn n_head(self) -> nat {
        self.n_head as nat
    }

    /// Whether the future is masked.
    pub closed spec fn causal(self) -> bool {
        self.causal_mask
    }

    /// Whether the layer is in training.
    pub closed spec fn training(self) -> bool {
        self.train
    }

    /// An attention layer over embeddings of size `n_embd` with `n_head`
    /// heads, in training.
    pub fn new(n_embd: u64, n_head: u64, causal_mask: bool) -> (a: DecoderSelfAttention)
        requires
            attention_dims_ok(n_embd as nat, n_head as nat),
        ensures
            a.n_embd() == n_embd,
            a.n_head() == n_head,
            a.causal() == causal_mask,
            a.training(),
            a.well_formed(),
    {
        DecoderSelfAttention {
            n_embd,
            n_head,
            key: Linear::new(n_embd, n_embd),
            query: Linear::new(n_embd, n_embd),
            value: Linear::new(n_embd, n_embd),
            proj: Linear::new(n_embd, n_embd),
            train: true,
            causal_mask,
        }
    }

    /// Whether the future is masked.
    pub fn is_causal(&self) -> (causal: bool)
        ensures
            causal == self.causal(),
    {
        self.causal_mask
    }

    /// The number of heads.
    pub fn heads(&self) -> (n: u64)
        ensures
            n == self.n_head(),
    {
        self.n_head
    }

    /// The size of an embedding.
    pub fn width(&self) -> (n: u64)
        ensures
            n == self.n_embd(),
    {
        self.n_embd
    }

    /// Whether the layer is in training.
    pub fn is_training(&self) -> (training: bool)
        ensures
            training == self.training(),
    {
        self.train
    }

    fn split_heads(&self, x: Tensor) -> (r: Result<Tensor, ShapeError>)
        requires
            x@.len() == 3,
            x@[2] == self.n_embd(),
        ensures
            result_view(r) == Ok::<Seq<nat>, ShapeError>(
                seq![x@[0], self.n_head(), x@[1], self.n_embd() / self.n_head()],
            ),
    {
        proof {
            use_type_invariant(self);
            use_type_invariant(&x);
            x.lemma_valid();
            lemma_heads(self.n_embd as nat, self.n_head as nat);
        }
        let b = match x.dim(0) {
            Some(d) => d,
            None => {
                return Err(ShapeError::Mismatch);
            },
        };
        let t = match x.dim(1) {
            Some(d) => d,
            None => {
                return Err(ShapeError::Mismatch);
            },
        };
        let sizes: [u64; 4] = [b, t, self.n_head, self.n_embd / self.n_head];
        let ghost d = (self.n_embd / self.n_head) as nat;
        proof {
            let want = seq![b as nat, t as nat, self.n_head as nat, d];
            assert(sizes@.map_values(|d: u64| d as nat) =~= want);
            lemma_split_heads(b as nat, t as nat, self.n_head as nat, d, self.n_embd as nat);
            assert(x@ =~= seq![b as nat, t as nat, self.n_embd as nat]);
        }
        let split = x.reshape(&sizes)?;
        let out = split.transpose(1, 2);
        proof {
            let want = seq![b as nat, t as nat, self.n_head as nat, d];
            assert(want.update(1, want[2]).update(2, want[1]) =~= seq![
                b as nat,
                self.n_head as nat,
                t as nat,
                d,
            ]);
        }
        out
    }
}

impl Module for DecoderSelfAttention {
    type Input = (Tensor, Tensor);

    type Output = Tensor;

    open spec fn forward_spec(&self, input: (Seq<nat>, Seq<nat>)) -> Result<
        Seq<nat>,
        ShapeError,
    > {
        cross_attention_shape(input.0, input.1, self.n_embd(), self.n_head(), self.causal())
    }

    open spec fn parameters_spec(&self) -> Seq<ParameterView> {
        attention_parameters(self.n_embd())
    }

    open spec fn in_mode(&self, training: bool) -> bool {
        self.training() == training
    }

    fn train(&mut self)
        ensures
            final(self).training(),
            final(self).n_embd() == old(self).n_embd(),
            final(self).n_head() == old(self).n_head(),
            final(self).causal() == old(self).causal(),
    {
        proof {
            use_type_invariant(&*self);
        }
        self.train = true;
    }

    fn eval(&mut self)
        ensures
            !final(self).training(),
            final(self).n_embd() == old(self).n_embd(),
            final(self).n_head() == old(self).n_head(),
            final(self).causal() == old(self).causal(),
    {
        proof {
            use_type_invariant(&*self);
        }
        self.train = false;
    }

    fn forward(&self, pair: (Tensor, Tensor)) -> (out: Result<Tensor, ShapeError>) {
        let input = pair.0;
        let encoder_output = pair.1;
        proof {
            assert(pair@.0 == input@ && pair@.1 == encoder_output@);
            use_type_invariant(self);
            use_type_invariant(&input);
            use_type_invariant(&encoder_output);
            input.lemma_valid();
            encoder_output.lemma_valid();
            lemma_heads(self.n_embd as nat, self.n_head as nat);
        }
        if input.rank() != 3 || encoder_output.rank() != 3 {
            return Err(ShapeError::Mismatch);
        }
        if input.last_dim() != self.n_embd || encoder_output.last_dim() != self.n_embd {
            return Err(ShapeError::Mismatch);
        }
        let sz_b = input.dim(0);
        let sz_t = input.dim(1);
        let enc_sz_b = encoder_output.dim(0);
        let enc_sz_t = encoder_output.dim(1);
        if sz_b != enc_sz_b {
            return Err(ShapeError::Mismatch);
        }
        if self.causal_mask && sz_t != enc_sz_t && sz_t != Some(1) {
            return Err(ShapeError::Mismatch);
        }
        let ghost x = input@;
        let ghost e = encoder_output@;
        let ghost b = x[0];
        let ghost t = x[1];
        let ghost s = e[1];
        let ghost h = self.n_head as nat;
        let ghost c = self.n_embd as nat;
        let ghost d = c / h;
        proof {
            assert(x =~= seq![b, t, c]);
            assert(e =~= seq![b, s, c]);
            assert(x.drop_last().push(c) =~= x);
            assert(e.drop_last().push(c) =~= e);
        }
        let k = self.split_heads(self.key.forward(encoder_output)?)?;
        let q = self.split_heads(self.query.forward(input)?)?;
        let v = self.split_heads(self.value.forward(encoder_output)?)?;
        let kt = k.transpose(2, 3)?;
        proof {
            assert(kt@ =~= seq![b, h, d, s]);
            assert(q@.drop_last().push(kt@.last()) =~= score_shape(b, h, t, s));
        }
        let mut att = q.matmul(&kt)?;
        if self.causal_mask {
            let size = match sz_t {
                Some(n) => n,
                None => {
                    return Err(ShapeError::Mismatch);
                },
            };
            proof {
                assert(size == t);
                assert(t == s || t == 1);
                lemma_count_monotone(score_shape(1, 1, t, t), score_shape(b, h, t, t));
                if t == 1 {
                    lemma_count_monotone(score_shape(1, 1, 1, 1), score_shape(b, h, 1, s));
                }
            }
            let mask = SelfAttention::generate_mask(size)?;
            att = att.masked_fill(&mask)?;
        }
        proof {
            assert(att@.drop_last().push(v@.last()) =~= seq![b, h, t, d]);
            lemma_split_heads(b, t, h, d, c);
        }
        let ys = att.matmul(&v)?;
        let merged = ys.transpose(1, 2)?;
        proof {
            assert(merged@ =~= seq![b, t, h, d]);
        }
        let sizes: [u64; 3] = [
            match sz_b {
                Some(n) => n,
                None => 1,
            },
            match sz_t {
                Some(n) => n,
                None => 1,
            },
            self.n_embd,
        ];
        proof {
            assert(sizes@.map_values(|d: u64| d as nat) =~= x);
        }
        let flat = merged.reshape(&sizes)?;
        self.proj.forward(flat)
    }

    fn parameters(&self) -> (params: Vec<Parameter>) {
        proof {
            use_type_invariant(self);
        }
        let mut params = self.key.parameters();
        let mut q = self.query.parameters();
        let mut v = self.value.parameters();
        let mut p = self.proj.parameters();
        let ghost a = params@;
        let ghost b = q@;
        let ghost c = v@;
        let ghost d = p@;
        params.append(&mut q);
        params.append(&mut v);
        params.append(&mut p);
        assert(parameter_views(a + b + c + d) =~= parameter_views(a) + parameter_views(b)
            + parameter_views(c) + parameter_views(d));
        params
    }
}

impl ModuleCopy for DecoderSelfAttention {
    open spec fn copy_spec(&self, source: &Self) -> Result<(), CopyFailure> {
        if self.n_embd() == source.n_embd() {
            Ok(())
        } else {
            Err(CopyFailure::SizeMismatch)
        }
    }

    fn check_copy(&self, source: &Self) -> (r: Result<(), WeightCopyError>) {
        proof {
            use_type_invariant(self);
            use_type_invariant(source);
        }
        self.key.check_copy(&source.key)?;
        self.query.check_copy(&source.query)?;
        self.value.check_copy(&source.value)?;
        self.proj.check_copy(&source.proj)?;
        Ok(())
    }
}

/// Shape after a decoder block, for sequences of shape `x` and an encoder's
/// output of shape `enc`.
pub open spec fn decoder_block_shape(x: Seq<nat>, enc: Seq<nat>, n_embd: nat, n_head: nat) -> Result<
    Seq<nat>,
    ShapeError,
> {
    if !cross_inputs_ok(x, enc, n_embd, false) {
        Err(ShapeError::Mismatch)
    } else if element_count(score_shape(x[0], n_head, x[1], x[1])) > u64::MAX || element_count(
        score_shape(x[0], n_head, x[1], enc[1]),
    ) > u64::MAX || element_count(seq![x[0], x[1], 2 * n_embd]) > u64::MAX {
        Err(ShapeError::TooLarge)
    } else {
        Ok(x)
    }
}

/// The parameters of a decoder block: three normalisations, the attention of
/// the sequence over itself, its attention over the encoder's output, and
/// the two layers of the feed-forward part.
pub open spec fn decoder_block_parameters(n_embd: nat) -> Seq<ParameterView> {
    norm_parameters(n_embd) + norm_parameters(n_embd) + norm_parameters(n_embd)
        + attention_parameters(n_embd) + attention_parameters(n_embd) + plain_linear_parameters(
        n_embd,
        2 * n_embd,
    ) + plain_linear_parameters(2 * n_embd, n_embd)
}

/// Number of elements of a decoder block.
pub open spec fn decoder_block_elements(n_embd: nat) -> nat {
    6 * n_embd + 8 * linear_elements(n_embd, n_embd) + linear_elements(n_embd, 2 * n_embd)
        + linear_elements(2 * n_embd, n_embd)
}

/// The elements of a decoder block, counted part by part.
pub proof fn lemma_decoder_block_elements(n_embd: nat)
    ensures
        trainable_elements(decoder_block_parameters(n_embd)) == decoder_block_elements(n_embd),
{
    let n = norm_parameters(n_embd);
    let at = attention_parameters(n_embd);
    let l1 = plain_linear_parameters(n_embd, 2 * n_embd);
    let l2 = plain_linear_parameters(2 * n_embd, n_embd);
    lemma_norm_elements(n_embd);
    lemma_attention_elements(n_embd);
    lemma_linear_elements(n_embd, 2 * n_embd);
    lemma_linear_elements(2 * n_embd, n_embd);
    lemma_trainable_elements_concat(n, n);
    lemma_trainable_elements_concat(n + n, n);
    lemma_trainable_elements_concat(n + n + n, at);
    lemma_trainable_elements_concat(n + n + n + at, at);
    lemma_trainable_elements_concat(n + n + n + at + at, l1);
    lemma_trainable_elements_concat(n + n + n + at + at + l1, l2);
}

/// One block of a transformer decoder: attention of the sequence over
/// itself, attention over the encoder's output, and a feed-forward part,
/// each added to what came in and normalised.
#[derive(Clone, Copy, Debug)]
pub struct TransformerDecoderBlock {
    norm1: LayerNorm,
    norm2: LayerNorm,
    norm3: LayerNorm,
    attn: SelfAttention,
    attn2: DecoderSelfAttention,
    linear1: Linear,
    linear2: Linear,
    train: bool,
}

impl TransformerDecoderBlock {
    /// Every block that executable code can hold satisfies this.
    #[verifier::type_invariant]
    pub closed spec fn well_formed(self) -> bool {
        &&& self.attn.well_formed()
        &&& self.attn2.well_formed()
        &&& self.attn.training() == self.train
        &&& self.attn2.training() == self.train
        &&& self.attn2.n_embd() == self.attn.n_embd()
        &&& self.attn2.n_head() == self.attn.n_head()
        &&& !self.attn2.causal()
        &&& block_dims_ok(self.attn.n_embd(), self.attn.n_head())
        &&& embedding_norm(self.norm1, self.attn.n_embd())
        &&& embedding_norm(self.norm2, self.attn.n_embd())
        &&& embedding_norm(self.norm3, self.attn.n_embd())
        &&& plain_linear(self.linear1, self.attn.n_embd(), 2 * self.attn.n_embd())
        &&& plain_linear(self.linear2, 2 * self.attn.n_embd(), self.attn.n_embd())
    }

    /// The size of an embedding.
    pub closed spec fn n_embd(self) -> nat {
        self.attn.n_embd()
    }

    /// The number of heads.
    pub closed spec fn n_head(self) -> nat {
        self.attn.n_head()
    }

    /// Whether the sequence sees only its own past.
    pub closed spec fn causal(self) -> bool {
        self.attn.causal()
    }

    /// Whether the block, and with it both its attentions, is in training.
    pub closed spec fn training(self) -> bool {
        self.train
    }

    /// A block over embeddings of size `n_embd` with `n_head` heads, in training.
    pub fn new(n_embd: u64, n_head: u64, causal_mask: bool) -> (b: TransformerDecoderBlock)
        requires
            block_dims_ok(n_embd as nat, n_head as nat),
        ensures
            b.n_embd() == n_embd,
            b.n_head() == n_head,
            b.causal() == causal_mask,
            b.training(),
            b.well_formed(),
    {
        proof {
            assert(n_embd * (2 * n_embd) == 2 * n_embd * n_embd) by (nonlinear_arith);
            assert((2 * n_embd) * n_embd == 2 * n_embd * n_embd) by (nonlinear_arith);
            assert(2 * n_embd <= 2 * n_embd * n_embd) by (nonlinear_arith)
                requires
                    n_embd >= 1,
            ;
        }
        let shape = Tensor::vector(n_embd);
        TransformerDecoderBlock {
            norm1: LayerNorm::new(shape),
            norm2: LayerNorm::new(shape),
            norm3: LayerNorm::new(shape),
            attn: SelfAttention::new(n_embd, n_head, causal_mask),
            attn2: DecoderSelfAttention::new(n_embd, n_head, false),
            linear1: Linear::new(n_embd, 2 * n_embd),
            linear2: Linear::new(2 * n_embd, n_embd),
            train: true,
        }
    }

    /// The attention of the sequence over itself.
    pub fn attention(&self) -> (a: SelfAttention)
        ensures
            a.n_embd() == self.n_embd(),
            a.n_head() == self.n_head(),
            a.causal() == self.causal(),
            a.training() == self.training(),
    {
        proof {
            use_type_invariant(self);
        }
        self.attn
    }

    /// The attention over the encoder's output.
    pub fn cross_attention(&self) -> (a: DecoderSelfAttention)
        ensures
            a.n_embd() == self.n_embd(),
            a.n_head() == self.n_head(),
            !a.causal(),
            a.training() == self.training(),
    {
        proof {
            use_type_invariant(self);
        }
        self.attn2
    }

    /// Whether the block is in training.
    pub fn is_training(&self) -> (training: bool)
        ensures
            training == self.training(),
    {
        self.train
    }

    fn with_mode(&self, training: bool) -> (b: TransformerDecoderBlock)
        ensures
            b.training() == training,
            b.n_embd() == self.n_embd(),
            b.n_head() == self.n_head(),
            b.causal() == self.causal(),
            b.well_formed(),
    {
        proof {
            use_type_invariant(self);
        }
        let mut attn = self.attn;
        let mut attn2 = self.attn2;
        if training {
            attn.train();
            attn2.train();
        } else {
            attn.eval();
            attn2.eval();
        }
        proof {
            use_type_invariant(&attn);
            use_type_invariant(&attn2);
        }
        TransformerDecoderBlock {
            norm1: self.norm1,
            norm2: self.norm2,
            norm3: self.norm3,
            attn,
            attn2,
            linear1: self.linear1,
            linear2: self.linear2,
            train: training,
        }
    }
}

impl Module for TransformerDecoderBlock {
    type Input = (Tensor, Tensor);

    type Output = Tensor;

    open spec fn forward_spec(&self, input: (Seq<nat>, Seq<nat>)) -> Result<
        Seq<nat>,
        ShapeError,
    > {
        decoder_block_shape(input.0, input.1, self.n_embd(), self.n_head())
    }

    open spec fn parameters_spec(&self) -> Seq<ParameterView> {
        decoder_block_parameters(self.n_embd())
    }

    open spec fn in_mode(&self, training: bool) -> bool {
        self.training() == training
    }

    fn train(&mut self)
        ensures
            final(self).training(),
            final(self).n_embd() == old(self).n_embd(),
            final(self).n_head() == old(self).n_head(),
            final(self).causal() == old(self).causal(),
    {
        let trained = self.with_mode(true);
        *self = trained;
    }

    fn eval(&mut self)
        ensures
            !final(self).training(),
            final(self).n_embd() == old(self).n_embd(),
            final(self).n_head() == old(self).n_head(),
            final(self).causal() == old(self).causal(),
    {
        let evaluated = self.with_mode(false);
        *self = evaluated;
    }

    fn forward(&self, pair: (Tensor, Tensor)) -> (out: Result<Tensor, ShapeError>) {
        let input = pair.0;
        let encoder_output = pair.1;
        proof {
            assert(pair@.0 == input@ && pair@.1 == encoder_output@);
            use_type_invariant(self);
            use_type_invariant(&input);
            use_type_invariant(&encoder_output);
            input.lemma_valid();
            encoder_output.lemma_valid();
            lemma_ends_with_one(input@, self.n_embd());
        }
        if input.rank() != 3 || encoder_output.rank() != 3 {
            return Err(ShapeError::Mismatch);
        }
        let n_embd = self.attn.width();
        if input.last_dim() != n_embd || encoder_output.last_dim() != n_embd {
            return Err(ShapeError::Mismatch);
        }
        if input.dim(0) != encoder_output.dim(0) {
            return Err(ShapeError::Mismatch);
        }
        let ghost x = input@;
        let ghost c = self.n_embd();
        proof {
            assert(x =~= seq![x[0], x[1], x[2]]);
            assert(x.drop_last().push(2 * c) =~= seq![x[0], x[1], 2 * c]);
        }
        let attended = self.attn.forward(input)?;
        let x1 = input.add(&self.norm1.forward(attended)?)?;
        let crossed = self.attn2.forward((x1, encoder_output))?;
        let x2 = self.norm2.forward(x1.add(&crossed)?)?;
        let hidden = self.linear1.forward(x2)?.gelu();
        proof {
            assert(hidden@.drop_last().push(c) =~= x);
        }
        let ys = self.linear2.forward(hidden)?;
        self.norm3.forward(x2.add(&ys)?)
    }

    fn parameters(&self) -> (params: Vec<Parameter>) {
        proof {
            use_type_invariant(self);
        }
        let mut params = self.norm1.parameters();
        let mut n2 = self.norm2.parameters();
        let mut n3 = self.norm3.parameters();
        let mut at = self.attn.parameters();
        let mut at2 = self.attn2.parameters();
        let mut l1 = self.linear1.parameters();
        let mut l2 = self.linear2.parameters();
        let ghost a = params@;
        let ghost b = n2@;
        let ghost c = n3@;
        let ghost d = at@;
        let ghost e = at2@;
        let ghost f = l1@;
        let ghost g = l2@;
        params.append(&mut n2);
        params.append(&mut n3);
        params.append(&mut at);
        params.append(&mut at2);
        params.append(&mut l1);
        params.append(&mut l2);
        assert(parameter_views(a + b + c + d + e + f + g) =~= parameter_views(a)
            + parameter_views(b) + parameter_views(c) + parameter_views(d) + parameter_views(e)
            + parameter_views(f) + parameter_views(g));
        params
    }
}

impl ModuleCopy for TransformerDecoderBlock {
    open spec fn copy_spec(&self, source: &Self) -> Result<(), CopyFailure> {
        if self.n_embd() == source.n_embd() {
            Ok(())
        } else {
            Err(CopyFailure::SizeMismatch)
        }
    }

    fn check_copy(&self, source: &Self) -> (r: Result<(), WeightCopyError>) {
        proof {
            use_type_invariant(self);
            use_type_invariant(source);
        }
        self.attn.check_copy(&source.attn)?;
        self.attn2.check_copy(&source.attn2)?;
        self.norm1.check_copy(&source.norm1)?;
        self.norm2.check_copy(&source.norm2)?;
        self.norm3.check_copy(&source.norm3)?;
        self.linear1.check_copy(&source.linear1)?;
        self.linear2.check_copy(&source.linear2)
    }
}

/// What a decoder is built from.
#[derive(Clone, Copy, Debug)]
pub struct TransformerDecoderProps {
    /// The size of an embedding.
    pub n_embd: u64,
    /// The number of attention heads.
    pub n_head: u64,
    /// The number of blocks.
    pub n_layers: usize,
    /// The number of tokens.
    pub vocab_size: u64,
    /// The kind of positional encoding.
    pub positional_encoding: PositionalEncoding,
    /// The longest sequence.
    pub max_len: u64,
    /// Whether each position sees only what came before.
    pub causal_mask: bool,
}

/// The settings from which a decoder can be built.
pub open spec fn decoder_props_ok(p: TransformerDecoderProps) -> bool {
    &&& p.n_layers >= 1
    &&& block_dims_ok(p.n_embd as nat, p.n_head as nat)
    &&& table_dims_ok(p.vocab_size as nat, p.n_embd as nat)
    &&& table_dims_ok(p.max_len as nat, p.n_embd as nat)
}

impl TransformerDecoderProps {
    /// Whether a decoder can be built from these settings.
    pub fn is_valid(&self) -> (ok: bool)
        ensures
            ok == decoder_props_ok(*self),
    {
        self.n_layers >= 1 && crate::transformer::base::TransformerBlock::dims_ok(
            self.n_embd,
            self.n_head,
        ) && Embedding::dims_ok(self.vocab_size, self.n_embd) && Embedding::dims_ok(
            self.max_len,
            self.n_embd,
        )
    }
}

/// Shape of a decoder's answer to token sequences of shape `x` and an
/// encoder's output of shape `enc`: one embedding for each token.
pub open spec fn decoder_shape(
    x: Seq<nat>,
    enc: Seq<nat>,
    kind: PositionalEncoding,
    max_len: nat,
    n_embd: nat,
    n_head: nat,
) -> Result<Seq<nat>, ShapeError> {
    if x.len() != 2 || enc.len() != 3 || enc[2] != n_embd || enc[0] != x[0] {
        Err(ShapeError::Mismatch)
    } else if kind is Rotary {
        Err(ShapeError::NotImplemented)
    } else if x[1] > max_len {
        Err(ShapeError::OutOfRange)
    } else {
        decoder_block_shape(seq![x[0], x[1], n_embd], enc, n_embd, n_head)
    }
}

/// The parameters of a decoder: the token table, the positional table where
/// it is learned, the last normalisation, and block after block.
pub open spec fn decoder_parameters(
    vocab_size: nat,
    kind: PositionalEncoding,
    max_len: nat,
    n_embd: nat,
    n_layers: nat,
) -> Seq<ParameterView> {
    table_parameters(vocab_size, n_embd) + position_parameters(kind, max_len, n_embd)
        + norm_parameters(n_embd) + repeated(decoder_block_parameters(n_embd), n_layers)
}

/// Number of elements of a decoder that training changes.
pub open spec fn decoder_elements(
    vocab_size: nat,
    kind: PositionalEncoding,
    max_len: nat,
    n_embd: nat,
    n_layers: nat,
) -> nat {
    vocab_size * n_embd + position_elements(kind, max_len, n_embd) + 2 * n_embd + n_layers
        * decoder_block_elements(n_embd)
}

/// The number of trainable elements of a decoder is the sum over its parts.
pub proof fn lemma_decoder_elements(
    vocab_size: nat,
    kind: PositionalEncoding,
    max_len: nat,
    n_embd: nat,
    n_layers: nat,
)
    ensures
        trainable_elements(decoder_parameters(vocab_size, kind, max_len, n_embd, n_layers))
            == decoder_elements(vocab_size, kind, max_len, n_embd, n_layers),
{
    let tab = table_parameters(vocab_size, n_embd);
    let pos = position_parameters(kind, max_len, n_embd);
    let norm = norm_parameters(n_embd);
    let blocks = repeated(decoder_block_parameters(n_embd), n_layers);
    assert(tab.drop_last() =~= Seq::<ParameterView>::empty());
    crate::tensor::lemma_count2(vocab_size, n_embd);
    assert(trainable_elements(tab) == vocab_size * n_embd) by {
        reveal_with_fuel(trainable_elements, 2);
    }
    lemma_position_elements(kind, max_len, n_embd);
    lemma_norm_elements(n_embd);
    lemma_decoder_block_elements(n_embd);
    lemma_repeated_elements(decoder_block_parameters(n_embd), n_layers);
    lemma_trainable_elements_concat(tab, pos);
    lemma_trainable_elements_concat(tab + pos, norm);
    lemma_trainable_elements_concat(tab + pos + norm, blocks);
}

/// A stack of decoder blocks over embedded tokens, each of which also looks
/// at an encoder's output.
#[derive(Debug)]
pub struct TransformerDecoder {
    token_embedding: Embedding,
    position_embedding: PositionTable,
    layernorm: LayerNorm,
    blocks: Vec<TransformerDecoderBlock>,
    n_embed: u64,
    n_head: u64,
    causal_mask: bool,
    train: bool,
}

impl TransformerDecoder {
    /// Every decoder that executable code can hold satisfies this.
    #[verifier::type_invariant]
    pub closed spec fn well_formed(self) -> bool {
        &&& self.blocks@.len() >= 1
        &&& block_dims_ok(self.n_embed as nat, self.n_head as nat)
        &&& self.token_embedding.well_formed()
        &&& self.token_embedding.embedding_dim() == self.n_embed
        &&& self.position_embedding.well_formed()
        &&& self.position_embedding.n_embd() == self.n_embed
        &&& embedding_norm(self.layernorm, self.n_embed as nat)
        &&& forall|i: int|
            0 <= i < self.blocks@.len() ==> {
                let b = #[trigger] self.blocks@[i];
                &&& b.well_formed()
                &&& b.n_embd() == self.n_embed
                &&& b.n_head() == self.n_head
                &&& b.causal() == self.causal_mask
                &&& b.training() == self.train
            }
    }

    /// The size of an embedding.
    pub closed spec fn n_embd(self) -> nat {
        self.n_embed as nat
    }

    /// The number of attention heads.
    pub closed spec fn n_head(self) -> nat {
        self.n_head as nat
    }

    /// The number of blocks.
    pub closed spec fn n_layers(self) -> nat {
        self.blocks@.len()
    }

    /// The number of tokens.
    pub closed spec fn vocab_size(self) -> nat {
        self.token_embedding.num_embeddings()
    }

    /// The kind of positional encoding.
    pub closed spec fn positional_encoding(self) -> PositionalEncoding {
        self.position_embedding.kind()
    }

    /// The longest sequence.
    pub closed spec fn max_len(self) -> nat {
        self.position_embedding.max_len()
    }

    /// Whether each position sees only what came before.
    pub closed spec fn causal(self) -> bool {
        self.causal_mask
    }

    /// Whether the decoder, and with it every block, is in training.
    pub closed spec fn training(self) -> bool {
        self.train
    }

    /// The decoder that `new` makes from `props`.
    pub open spec fn built_from(self, props: TransformerDecoderProps) -> bool {
        &&& self.n_embd() == props.n_embd
        &&& self.n_head() == props.n_head
        &&& self.n_layers() == props.n_layers
        &&& self.vocab_size() == props.vocab_size
        &&& self.positional_encoding() == props.positional_encoding
        &&& self.max_len() == props.max_len
        &&& self.causal() == props.causal_mask
        &&& self.training()
        &&& self.well_formed()
    }

    /// The decoder with the settings `props`, in training.
    pub fn new(props: TransformerDecoderProps) -> (d: TransformerDecoder)
        requires
            decoder_props_ok(props),
        ensures
            d.built_from(props),
    {
        let mut blocks: Vec<TransformerDecoderBlock> = Vec::new();
        let mut i: usize = 0;
        while i < props.n_layers
            invariant
                i <= props.n_layers,
                block_dims_ok(props.n_embd as nat, props.n_head as nat),
                blocks@.len() == i,
                forall|k: int|
                    0 <= k < i ==> {
                        let b = #[trigger] blocks@[k];
                        &&& b.well_formed()
                        &&& b.n_embd() == props.n_embd
                        &&& b.n_head() == props.n_head
                        &&& b.causal() == props.causal_mask
                        &&& b.training()
                    },
            decreases props.n_layers - i,
        {
            blocks.push(
                TransformerDecoderBlock::new(props.n_embd, props.n_head, props.causal_mask),
            );
            i = i + 1;
        }
        TransformerDecoder {
            token_embedding: Embedding::new(props.vocab_size, props.n_embd),
            position_embedding: PositionTable::new(
                props.positional_encoding,
                props.max_len,
                props.n_embd,
            ),
            layernorm: LayerNorm::new(Tensor::vector(props.n_embd)),
            blocks,
            n_embed: props.n_embd,
            n_head: props.n_head,
            causal_mask: props.causal_mask,
            train: true,
        }
    }

    /// The settings of the decoder.
    pub fn props(&self) -> (p: TransformerDecoderProps)
        ensures
            p.n_embd == self.n_embd(),
            p.n_head == self.n_head(),
            p.n_layers == self.n_layers(),
            p.vocab_size == self.vocab_size(),
            p.positional_encoding == self.positional_encoding(),
            p.max_len == self.max_len(),
            p.causal_mask == self.causal(),
            decoder_props_ok(p),
    {
        proof {
            use_type_invariant(self);
            self.token_embedding.lemma_dims();
            self.position_embedding.lemma_dims();
        }
        let table = self.token_embedding.ws();
        let vocab_size = match table.dim(0) {
            Some(n) => n,
            None => 1,
        };
        TransformerDecoderProps {
            n_embd: self.n_embed,
            n_head: self.n_head,
            n_layers: self.blocks.len(),
            vocab_size,
            positional_encoding: self.position_embedding.encoding(),
            max_len: self.position_embedding.positions(),
            causal_mask: self.causal_mask,
        }
    }

    /// Whether the decoder is in training.
    pub fn is_training(&self) -> (training: bool)
        ensures
            training == self.training(),
    {
        self.train
    }

    /// The token table.
    pub fn token_embedding(&self) -> (e: Embedding)
        ensures
            e.num_embeddings() == self.vocab_size(),
            e.embedding_dim() == self.n_embd(),
    {
        proof {
            use_type_invariant(self);
        }
        self.token_embedding
    }

    /// The same decoder, in training or in evaluation.
    pub fn with_mode(&self, training: bool) -> (d: TransformerDecoder)
        ensures
            d.training() == training,
            d.n_embd() == self.n_embd(),
            d.n_head() == self.n_head(),
            d.n_layers() == self.n_layers(),
            d.vocab_size() == self.vocab_size(),
            d.positional_encoding() == self.positional_encoding(),
            d.max_len() == self.max_len(),
            d.causal() == self.causal(),
            d.well_formed(),
    {
        proof {
            use_type_invariant(self);
        }
        let mut blocks: Vec<TransformerDecoderBlock> = Vec::new();
        let mut i: usize = 0;
        while i < self.blocks.len()
            invariant
                i <= self.blocks@.len(),
                self.well_formed(),
                blocks@.len() == i,
                forall|k: int|
                    0 <= k < i ==> {
                        let b = #[trigger] blocks@[k];
                        &&& b.well_formed()
                        &&& b.n_embd() == self.n_embed
                        &&& b.n_head() == self.n_head
                        &&& b.causal() == self.causal_mask
                        &&& b.training() == training
                    },
            decreases self.blocks.len() - i,
        {
            let block = &self.blocks[i];
            assert(block == self.blocks@[i as int]);
            blocks.push(block.with_mode(training));
            i = i + 1;
        }
        TransformerDecoder {
            token_embedding: self.token_embedding,
            position_embedding: self.position_embedding,
            layernorm: self.layernorm,
            blocks,
            n_embed: self.n_embed,
            n_head: self.n_head,
            causal_mask: self.causal_mask,
            train: training,
        }
    }

    /// The trainable elements of the decoder, counted part by part.
    pub proof fn lemma_parameter_count(self)
        ensures
            trainable_elements(self.parameters_spec()) == decoder_elements(
                self.vocab_size(),
                self.positional_encoding(),
                self.max_len(),
                self.n_embd(),
                self.n_layers(),
            ),
    {
        lemma_decoder_elements(
            self.vocab_size(),
            self.positional_encoding(),
            self.max_len(),
            self.n_embd(),
            self.n_layers(),
        );
    }
}

impl Module for TransformerDecoder {
    type Input = (Tensor, Tensor);

    type Output = Tensor;

    open spec fn forward_spec(&self, input: (Seq<nat>, Seq<nat>)) -> Result<
        Seq<nat>,
        ShapeError,
    > {
        decoder_shape(
            input.0,
            input.1,
            self.positional_encoding(),
            self.max_len(),
            self.n_embd(),
            self.n_head(),
        )
    }

    open spec fn parameters_spec(&self) -> Seq<ParameterView> {
        decoder_parameters(
            self.vocab_size(),
            self.positional_encoding(),
            self.max_len(),
            self.n_embd(),
            self.n_layers(),
        )
    }

    open spec fn in_mode(&self, training: bool) -> bool {
        self.training() == training
    }

    fn train(&mut self)
        ensures
            final(self).training(),
            final(self).n_embd() == old(self).n_embd(),
            final(self).n_head() == old(self).n_head(),
            final(self).n_layers() == old(self).n_layers(),
            final(self).vocab_size() == old(self).vocab_size(),
            final(self).positional_encoding() == old(self).positional_encoding(),
            final(self).max_len() == old(self).max_len(),
            final(self).causal() == old(self).causal(),
    {
        let trained = self.with_mode(true);
        *self = trained;
    }

    fn eval(&mut self)
        ensures
            !final(self).training(),
            final(self).n_embd() == old(self).n_embd(),
            final(self).n_head() == old(self).n_head(),
            final(self).n_layers() == old(self).n_layers(),
            final(self).vocab_size() == old(self).vocab_size(),
            final(self).positional_encoding() == old(self).positional_encoding(),
            final(self).max_len() == old(self).max_len(),
            final(self).causal() == old(self).causal(),
    {
        let evaluated = self.with_mode(false);
        *self = evaluated;
    }

    fn forward(&self, pair: (Tensor, Tensor)) -> (out: Result<Tensor, ShapeError>) {
        let input = pair.0;
        let encoder_output = pair.1;
        proof {
            assert(pair@.0 == input@ && pair@.1 == encoder_output@);
            use_type_invariant(self);
            use_type_invariant(&input);
            use_type_invariant(&encoder_output);
            input.lemma_valid();
            encoder_output.lemma_valid();
        }
        if input.rank() != 2 || encoder_output.rank() != 3 {
            return Err(ShapeError::Mismatch);
        }
        if encoder_output.last_dim() != self.n_embed || encoder_output.dim(0) != input.dim(0) {
            return Err(ShapeError::Mismatch);
        }
        let batch_size = match input.dim(0) {
            Some(n) => n,
            None => {
                return Err(ShapeError::Mismatch);
            },
        };
        let sz_t = match input.dim(1) {
            Some(n) => n,
            None => {
                return Err(ShapeError::Mismatch);
            },
        };
        let ghost xs = seq![input@[0], input@[1], self.n_embd()];
        proof {
            assert(input@ =~= seq![input@[0], input@[1]]);
            assert(input@.push(self.n_embd()) =~= xs);
            lemma_count_monotone(xs, seq![xs[0], xs[1], 2 * xs[2]]);
        }
        let pos_emb = match self.position_embedding.lookup(batch_size, sz_t) {
            Ok(p) => p,
            Err(e) => {
                return Err(e);
            },
        };
        let tok_emb = self.token_embedding.forward(input)?;
        let mut x = tok_emb.add(&pos_emb)?;
        let mut i: usize = 0;
        while i < self.blocks.len()
            invariant
                i <= self.blocks@.len(),
                self.well_formed(),
                x@ == xs,
                xs.len() == 3,
                xs[2] == self.n_embd(),
                cross_inputs_ok(xs, encoder_output@, self.n_embd(), false),
                self.forward_spec(pair@) == decoder_block_shape(
                    xs,
                    encoder_output@,
                    self.n_embd(),
                    self.n_head(),
                ),
                i >= 1 ==> decoder_block_shape(
                    xs,
                    encoder_output@,
                    self.n_embd(),
                    self.n_head(),
                ) is Ok,
            decreases self.blocks.len() - i,
        {
            let block = &self.blocks[i];
            assert(block == self.blocks@[i as int]);
            x = block.forward((x, encoder_output))?;
            i = i + 1;
        }
        proof {
            lemma_ends_with_one(xs, self.n_embd());
        }
        self.layernorm.forward(x)
    }

    fn parameters(&self) -> (params: Vec<Parameter>) {
        proof {
            use_type_invariant(self);
        }
        let mut params = self.token_embedding.parameters();
        let mut pos = self.position_embedding.parameters();
        let mut norm = self.layernorm.parameters();
        let ghost a = params@;
        let ghost b = pos@;
        let ghost c = norm@;
        params.append(&mut pos);
        params.append(&mut norm);
        let ghost head = table_parameters(self.vocab_size(), self.n_embd()) + position_parameters(
            self.positional_encoding(),
            self.max_len(),
            self.n_embd(),
        ) + norm_parameters(self.n_embd());
        let ghost part = decoder_block_parameters(self.n_embd());
        assert(parameter_views(a + b + c) =~= parameter_views(a) + parameter_views(b)
            + parameter_views(c));
        assert(parameter_views(params@) =~= head + repeated(part, 0));
        let mut i: usize = 0;
        while i < self.blocks.len()
            invariant
                i <= self.blocks@.len(),
                self.well_formed(),
                part == decoder_block_parameters(self.n_embd()),
                parameter_views(params@) == head + repeated(part, i as nat),
            decreases self.blocks.len() - i,
        {
            let block = &self.blocks[i];
            assert(block == self.blocks@[i as int]);
            let mut more = block.parameters();
            let ghost before = params@;
            let ghost added = more@;
            params.append(&mut more);
            proof {
                assert(parameter_views(before + added) =~= parameter_views(before)
                    + parameter_views(added));
                assert(head + repeated(part, i as nat) + part =~= head + repeated(
                    part,
                    (i + 1) as nat,
                ));
            }
            i = i + 1;
        }
        params
    }
}

impl ModuleCopy for TransformerDecoder {
    open spec fn copy_spec(&self, source: &Self) -> Result<(), CopyFailure> {
        if self.n_layers() != source.n_layers() || self.vocab_size() != source.vocab_size()
            || self.n_embd() != source.n_embd() {
            Err(CopyFailure::SizeMismatch)
        } else if self.positional_encoding() != source.positional_encoding() {
            Err(CopyFailure::Other(wrong_encoding_text()))
        } else if !(self.positional_encoding() is Rotary) && self.max_len() != source.max_len() {
            Err(CopyFailure::SizeMismatch)
        } else {
            Ok(())
        }
    }

    fn check_copy(&self, source: &Self) -> (r: Result<(), WeightCopyError>) {
        proof {
            use_type_invariant(self);
            use_type_invariant(source);
        }
        if self.blocks.len() != source.blocks.len() {
            return Err(WeightCopyError::SizeMismatch);
        }
        self.token_embedding.check_copy(&source.token_embedding)?;
        self.position_embedding.check_copy(&source.position_embedding)?;
        self.layernorm.check_copy(&source.layernorm)?;
        let mut i: usize = 0;
        while i < self.blocks.len()
            invariant
                i <= self.blocks@.len(),
                self.blocks@.len() == source.blocks@.len(),
                self.well_formed(),
                source.well_formed(),
                self.n_embed == source.n_embed,
            decreases self.blocks.len() - i,
        {
            let block = &self.blocks[i];
            assert(block == self.blocks@[i as int]);
            let other = &source.blocks[i];
            assert(other == source.blocks@[i as int]);
            block.check_copy(other)?;
            i = i + 1;
        }
        Ok(())
    }
}

/// Where one decoder can hand its weights to another, the two own the same
/// parameters, and so the same number of trainable elements.
pub proof fn lemma_decoder_copy(destination: TransformerDecoder, source: TransformerDecoder)
    requires
        destination.copy_spec(&source) is Ok,
    ensures
        destination.parameters_spec() == source.parameters_spec(),
{
}

} // verus!
