use vstd::prelude::*;
use crate::error::{ShapeError, WeightCopyError};
use crate::linear::{affine_shape, linear_dims_ok, Linear};
use crate::module::{
    lemma_trainable_elements_concat, parameter_views, trainable_elements, CopyFailure, Module,
    ModuleCopy, Parameter, ParameterView,
};
use crate::tensor::Tensor;
use crate::transformer::base::{plain_linear, plain_linear_parameters, PositionalEncoding};
use crate::transformer::encoder::{
    encoder_props_ok, lemma_linear_elements, linear_elements, TransformerEncoder,
    TransformerEncoderProps,
};

verus! {

/// What a language model is built from.
#[derive(Clone, Copy, Debug)]
pub struct LanguageModelProps {
    /// The size of an embedding.
    pub n_embd: u64,
    /// The number of attention heads.
    pub n_head: u64,
    /// The number of blocks.
    pub n_layers: usize,
    /// The number of tokens.
    pub vocab_size: u64,
    /// The kind of positional encoding.
    pub positional_encoding: PositionalEncoding,
    /// The longest sequence.
    pub max_len: u64,
}

/// The settings of the encoder inside a language model: each position sees
/// only what came before.
pub open spec fn lm_encoder_props(p: LanguageModelProps) -> TransformerEncoderProps {
    TransformerEncoderProps {
        n_embd: p.n_embd,
        n_head: p.n_head,
        n_layers: p.n_layers,
        vocab_size: p.vocab_size,
        positional_encoding: p.positional_encoding,
        max_len: p.max_len,
        causal_mask: true,
    }
}

/// The settings from which a language model can be built.
pub open spec fn lm_props_ok(p: LanguageModelProps) -> bool {
    encoder_props_ok(lm_encoder_props(p))
}

impl LanguageModelProps {
    /// Whether a language model can be built from these settings.
    pub fn is_valid(&self) -> (ok: bool)
        ensures
            ok == lm_props_ok(*self),
    {
        self.encoder_props().is_valid()
    }

    /// The settings of the encoder inside.
    pub fn encoder_props(&self) -> (p: TransformerEncoderProps)
        ensures
            p == lm_encoder_props(*self),
    {
        TransformerEncoderProps {
            n_embd: self.n_embd,
            n_head: self.n_head,
            n_layers: self.n_layers,
            vocab_size: self.vocab_size,
            positional_encoding: self.positional_encoding,
            max_len: self.max_len,
            causal_mask: true,
        }
    }
}

/// A causally masked encoder with a head that gives a score to each token of
/// the vocabulary at each position.
#[derive(Debug)]
pub struct LanguageModel {
    transformer: TransformerEncoder,
    head: Linear,
}

impl LanguageModel {
    /// Every language model that executable code can hold satisfies this.
    #[verifier::type_invariant]
    pub closed spec fn well_formed(self) -> bool {
        &&& self.transformer.well_formed()
        &&& plain_linear(self.head, self.transformer.n_embd(), self.head.out_dim())
    }

    /// The encoder inside.
    pub closed spec fn transformer_view(self) -> TransformerEncoder {
        self.transformer
    }

    /// How many scores the head gives at each position.
    pub closed spec fn head_size(self) -> nat {
        self.head.out_dim()
    }

    /// The language model with the settings `props`, in training.
    pub fn new(props: LanguageModelProps) -> (m: LanguageModel)
        requires
            lm_props_ok(props),
        ensures
            m.transformer_view().built_from(lm_encoder_props(props)),
            m.head_size() == props.vocab_size,
            m.well_formed(),
    {
        assert(props.vocab_size * props.n_embd == props.n_embd * props.vocab_size)
            by (nonlinear_arith);
        LanguageModel {
            transformer: TransformerEncoder::new(props.encoder_props()),
            head: Linear::new(props.n_embd, props.vocab_size),
        }
    }

    /// The language model on top of `encoder`, which keeps its weights.
    pub fn from_encoder(encoder: TransformerEncoder, vocab_size: u64) -> (m: LanguageModel)
        requires
            linear_dims_ok(encoder.n_embd(), vocab_size as nat),
        ensures
            m.transformer_view() == encoder,
            m.head_size() == vocab_size,
            m.well_formed(),
    {
        proof {
            use_type_invariant(&encoder);
        }
        let n_embd = encoder.props().n_embd;
        LanguageModel { head: Linear::new(n_embd, vocab_size), transformer: encoder }
    }

    /// The encoder inside.
    pub fn transformer(&self) -> (e: &TransformerEncoder)
        ensures
            *e == self.transformer_view(),
    {
        &self.transformer
    }

    /// The head: from an embedding to a score for each token.
    pub fn head(&self) -> (l: Linear)
        ensures
            l.in_dim() == self.transformer_view().n_embd(),
            l.out_dim() == self.head_size(),
    {
        proof {
            use_type_invariant(self);
        }
        self.head
    }

    /// The trainable elements of the model: those of the encoder and of the head.
    pub proof fn lemma_parameter_count(self)
        ensures
            trainable_elements(self.parameters_spec()) == trainable_elements(
                self.transformer_view().parameters_spec(),
            ) + linear_elements(self.transformer_view().n_embd(), self.head_size()),
    {
        lemma_linear_elements(self.transformer_view().n_embd(), self.head_size());
        lemma_trainable_elements_concat(
            self.transformer_view().parameters_spec(),
            plain_linear_parameters(self.transformer_view().n_embd(), self.head_size()),
        );
    }
}

impl Module for LanguageModel {
    type Input = Tensor;

    type Output = Tensor;

    open spec fn forward_spec(&self, input: Seq<nat>) -> Result<Seq<nat>, ShapeError> {
        match self.transformer_view().forward_spec(input) {
            Ok(hidden) => affine_shape(
                hidden,
                self.transformer_view().n_embd(),
                self.head_size(),
            ),
            Err(e) => Err(e),
        }
    }

    open spec fn parameters_spec(&self) -> Seq<ParameterView> {
        self.transformer_view().parameters_spec() + plain_linear_parameters(
            self.transformer_view().n_embd(),
            self.head_size(),
        )
    }

    open spec fn in_mode(&self, training: bool) -> bool {
        self.transformer_view().in_mode(training)
    }

    fn train(&mut self)
        ensures
            final(self).transformer_view().training(),
            final(self).head_size() == old(self).head_size(),
    {
        proof {
            use_type_invariant(&*self);
        }
        let transformer = self.transformer.with_mode(true);
        *self = LanguageModel { transformer, head: self.head };
    }

    fn eval(&mut self)
        ensures
            !final(self).transformer_view().training(),
            final(self).head_size() == old(self).head_size(),
    {
        proof {
            use_type_invariant(&*self);
        }
        let transformer = self.transformer.with_mode(false);
        *self = LanguageModel { transformer, head: self.head };
    }

    fn forward(&self, input: Tensor) -> (out: Result<Tensor, ShapeError>) {
        proof {
            use_type_invariant(self);
        }
        let hidden = self.transformer.forward(input)?;
        self.head.forward(hidden)
    }

    fn parameters(&self) -> (params: Vec<Parameter>) {
        proof {
            use_type_invariant(self);
        }
        let mut params = self.transformer.parameters();
        let mut head = self.head.parameters();
        let ghost a = params@;
        let ghost b = head@;
        params.append(&mut head);
        assert(parameter_views(a + b) =~= parameter_views(a) + parameter_views(b));
        params
    }
}

impl ModuleCopy for LanguageModel {
    open spec fn copy_spec(&self, source: &Self) -> Result<(), CopyFailure> {
        match self.transformer_view().copy_spec(&source.transformer_view()) {
            Err(e) => Err(e),
            Ok(_) => if self.head_size() == source.head_size() {
                Ok(())
            } else {
                Err(CopyFailure::SizeMismatch)
            },
        }
    }

    fn check_copy(&self, source: &Self) -> (r: Result<(), WeightCopyError>) {
        proof {
            use_type_invariant(self);
            use_type_invariant(source);
        }
        self.transformer.check_copy(&source.transformer)?;
        self.head.check_copy(&source.head)
    }
}

/// Where one language model can hand its weights to another, the two own
/// the same parameters.
pub proof fn lemma_language_model_copy(destination: LanguageModel, source: LanguageModel)
    requires
        destination.copy_spec(&source) is Ok,
    ensures
        destination.parameters_spec() == source.parameters_spec(),
{
}

} // verus!
