use vstd::prelude::*;
use crate::error::{ShapeError, WeightCopyError};
use crate::linear::{linear_dims_ok, Linear};
use crate::module::{
    lemma_trainable_elements_concat, parameter_views, trainable_elements, CopyFailure, Init,
    Module, ModuleCopy, Parameter, ParameterView,
};
use crate::other::{table_dims_ok, Embedding, LayerNorm};
use crate::tensor::{
    element_count, lemma_count1, lemma_count2, lemma_count3, lemma_count_monotone, Tensor,
};
use crate::transformer::base::{
    attention_parameters, block_dims_ok, block_parameters, block_shape, embedding_norm,
    lemma_ends_with_one, norm_parameters, plain_linear, plain_linear_parameters,
    position_parameters, score_shape, wrong_encoding_text, PositionTable, PositionalEncoding,
    TransformerBlock,
};

verus! {

/// What an encoder is built from.
#[derive(Clone, Copy, Debug)]
pub struct TransformerEncoderProps {
    /// The size of an embedding.
    pub n_embd: u64,
    /// The number of attention heads.
    pub n_head: u64,
    /// The number of blocks.
    pub n_layers: usize,
    /// The number of tokens.
    pub vocab_size: u64,
    /// The kind of positional encoding.
    pub positional_encoding: PositionalEncoding,
    /// The longest sequence.
    pub max_len: u64,
    /// Whether each position sees only what came before.
    pub causal_mask: bool,
}

/// The settings from which an encoder can be built: at least one block,
/// heads that share the embedding evenly, and tables that can be counted.
pub open spec fn encoder_props_ok(p: TransformerEncoderProps) -> bool {
    &&& p.n_layers >= 1
    &&& block_dims_ok(p.n_embd as nat, p.n_head as nat)
    &&& table_dims_ok(p.vocab_size as nat, p.n_embd as nat)
    &&& table_dims_ok(p.max_len as nat, p.n_embd as nat)
}

impl TransformerEncoderProps {
    /// Whether an encoder can be built from these settings.
    pub fn is_valid(&self) -> (ok: bool)
        ensures
            ok == encoder_props_ok(*self),
    {
        self.n_layers >= 1 && TransformerBlock::dims_ok(self.n_embd, self.n_head)
            && Embedding::dims_ok(self.vocab_size, self.n_embd) && Embedding::dims_ok(
            self.max_len,
            self.n_embd,
        )
    }
}

/// Shape after the blocks of an encoder, for embedded sequences of shape `xs`.
pub open spec fn encoder_hidden_shape(
    xs: Seq<nat>,
    kind: PositionalEncoding,
    max_len: nat,
    n_embd: nat,
    n_head: nat,
) -> Result<Seq<nat>, ShapeError> {
    if xs.len() != 3 || xs[2] != n_embd {
        Err(ShapeError::Mismatch)
    } else if kind is Rotary {
        Err(ShapeError::NotImplemented)
    } else if xs[1] > max_len {
        Err(ShapeError::OutOfRange)
    } else {
        block_shape(xs, n_embd, n_head)
    }
}

/// Shape of an encoder's answer to token sequences of shape `x`: one
/// embedding for each token.
pub open spec fn encoder_shape(
    x: Seq<nat>,
    kind: PositionalEncoding,
    max_len: nat,
    n_embd: nat,
    n_head: nat,
) -> Result<Seq<nat>, ShapeError> {
    if x.len() != 2 {
        Err(ShapeError::Mismatch)
    } else {
        encoder_hidden_shape(seq![x[0], x[1], n_embd], kind, max_len, n_embd, n_head)
    }
}

/// `part`, `n` times in a row.
pub open spec fn repeated(part: Seq<ParameterView>, n: nat) -> Seq<ParameterView>
    decreases n,
{
    if n == 0 {
        Seq::empty()
    } else {
        repeated(part, (n - 1) as nat) + part
    }
}

/// The parameter of a token table.
pub open spec fn table_parameters(vocab_size: nat, n_embd: nat) -> Seq<ParameterView> {
    seq![
        ParameterView {
            shape: seq![vocab_size, n_embd],
            init: Init::Normal { std_milli: 1000 },
            trainable: true,
        },
    ]
}

/// The parameters of an encoder: the token table, the positional table where
/// it is learned, the last normalisation, and block after block.
pub open spec fn encoder_parameters(
    vocab_size: nat,
    kind: PositionalEncoding,
    max_len: nat,
    n_embd: nat,
    n_layers: nat,
) -> Seq<ParameterView> {
    table_parameters(vocab_size, n_embd) + position_parameters(kind, max_len, n_embd)
        + norm_parameters(n_embd) + repeated(block_parameters(n_embd), n_layers)
}

/// Number of elements of a linear layer from `n` to `m`.
pub open spec fn linear_elements(n: nat, m: nat) -> nat {
    m * n + m
}

/// Number of elements of a transformer block.
pub open spec fn block_elements(n_embd: nat) -> nat {
    4 * n_embd + 4 * linear_elements(n_embd, n_embd) + linear_elements(n_embd, 2 * n_embd)
        + linear_elements(2 * n_embd, n_embd)
}

/// Number of elements of a positional encoding that training changes.
pub open spec fn position_elements(kind: PositionalEncoding, max_len: nat, n_embd: nat) -> nat {
    if kind is Learned {
        max_len * n_embd
    } else {
        0
    }
}

/// Number of elements of an encoder that training changes.
pub open spec fn encoder_elements(
    vocab_size: nat,
    kind: PositionalEncoding,
    max_len: nat,
    n_embd: nat,
    n_layers: nat,
) -> nat {
    vocab_size * n_embd + position_elements(kind, max_len, n_embd) + 2 * n_embd + n_layers
        * block_elements(n_embd)
}

/// A linear layer from `n` to `m` holds `m * n + m` trainable elements.
pub proof fn lemma_linear_elements(n: nat, m: nat)
    ensures
        trainable_elements(plain_linear_parameters(n, m)) == linear_elements(n, m),
{
    let p = plain_linear_parameters(n, m);
    assert(p.drop_last() =~= seq![p[0]]);
    assert(p.drop_last().drop_last() =~= Seq::<ParameterView>::empty());
    lemma_count2(m, n);
    lemma_count1(m);
    reveal_with_fuel(trainable_elements, 3);
}

/// A normalisation over embeddings holds two elements for each entry.
pub proof fn lemma_norm_elements(n_embd: nat)
    ensures
        trainable_elements(norm_parameters(n_embd)) == 2 * n_embd,
{
    let p = norm_parameters(n_embd);
    assert(p.len() == 2);
    assert(p.drop_last() =~= seq![p[0]]);
    assert(p.drop_last().drop_last() =~= Seq::<ParameterView>::empty());
    lemma_count1(n_embd);
    reveal_with_fuel(trainable_elements, 3);
}

/// The elements of an attention layer are those of its four linear layers.
pub proof fn lemma_attention_elements(n_embd: nat)
    ensures
        trainable_elements(attention_parameters(n_embd)) == 4 * linear_elements(n_embd, n_embd),
{
    let l = plain_linear_parameters(n_embd, n_embd);
    lemma_linear_elements(n_embd, n_embd);
    lemma_trainable_elements_concat(l, l);
    lemma_trainable_elements_concat(l + l, l);
    lemma_trainable_elements_concat(l + l + l, l);
}

/// The elements of a block, counted part by part.
pub proof fn lemma_block_elements(n_embd: nat)
    ensures
        trainable_elements(block_parameters(n_embd)) == block_elements(n_embd),
{
    let n1 = norm_parameters(n_embd);
    let at = attention_parameters(n_embd);
    let l1 = plain_linear_parameters(n_embd, 2 * n_embd);
    let l2 = plain_linear_parameters(2 * n_embd, n_embd);
    lemma_norm_elements(n_embd);
    lemma_attention_elements(n_embd);
    lemma_linear_elements(n_embd, 2 * n_embd);
    lemma_linear_elements(2 * n_embd, n_embd);
    lemma_trainable_elements_concat(n1, n1);
    lemma_trainable_elements_concat(n1 + n1, at);
    lemma_trainable_elements_concat(n1 + n1 + at, l1);
    lemma_trainable_elements_concat(n1 + n1 + at + l1, l2);
}

/// The elements of `n` copies of a part are `n` times those of the part.
pub proof fn lemma_repeated_elements(part: Seq<ParameterView>, n: nat)
    ensures
        trainable_elements(repeated(part, n)) == n * trainable_elements(part),
    decreases n,
{
    let each = trainable_elements(part);
    if n > 0 {
        lemma_repeated_elements(part, (n - 1) as nat);
        lemma_trainable_elements_concat(repeated(part, (n - 1) as nat), part);
        assert((n - 1) * each + each == n * each) by (nonlinear_arith)
            requires
                n >= 1,
        ;
    } else {
        assert(n * each == 0) by (nonlinear_arith)
            requires
                n == 0,
        ;
    }
}

/// The elements of a positional encoding: those of the table where it is learned.
pub proof fn lemma_position_elements(kind: PositionalEncoding, max_len: nat, n_embd: nat)
    ensures
        trainable_elements(position_parameters(kind, max_len, n_embd)) == position_elements(
            kind,
            max_len,
            n_embd,
        ),
{
    let p = position_parameters(kind, max_len, n_embd);
    if kind is Learned {
        assert(p.drop_last() =~= Seq::<ParameterView>::empty());
        lemma_count3(1, max_len, n_embd);
        assert(1 * max_len * n_embd == max_len * n_embd) by (nonlinear_arith);
        reveal_with_fuel(trainable_elements, 2);
    }
}

/// The number of trainable elements of an encoder is the sum over its parts:
/// one row of the token table for each token, one row of the positional
/// table for each position where that table is learned, scale and shift of
/// the last normalisation, and the blocks.
pub proof fn lemma_encoder_elements(
    vocab_size: nat,
    kind: PositionalEncoding,
    max_len: nat,
    n_embd: nat,
    n_layers: nat,
)
    ensures
        trainable_elements(encoder_parameters(vocab_size, kind, max_len, n_embd, n_layers))
            == encoder_elements(vocab_size, kind, max_len, n_embd, n_layers),
{
    let tab = table_parameters(vocab_size, n_embd);
    let pos = position_parameters(kind, max_len, n_embd);
    let norm = norm_parameters(n_embd);
    let blocks = repeated(block_parameters(n_embd), n_layers);
    assert(tab.drop_last() =~= Seq::<ParameterView>::empty());
    lemma_count2(vocab_size, n_embd);
    assert(trainable_elements(tab) == vocab_size * n_embd) by {
        reveal_with_fuel(trainable_elements, 2);
    }
    lemma_position_elements(kind, max_len, n_embd);
    lemma_norm_elements(n_embd);
    lemma_block_elements(n_embd);
    lemma_repeated_elements(block_parameters(n_embd), n_layers);
    lemma_trainable_elements_concat(tab, pos);
    lemma_trainable_elements_concat(tab + pos, norm);
    lemma_trainable_elements_concat(tab + pos + norm, blocks);
}

/// A stack of transformer blocks over embedded tokens.
#[derive(Debug)]
pub struct TransformerEncoder {
    token_embedding: Embedding,
    position_embedding: PositionTable,
    layernorm: LayerNorm,
    blocks: Vec<TransformerBlock>,
    n_embed: u64,
    n_head: u64,
    causal_mask: bool,
    train: bool,
}

impl TransformerEncoder {
    /// Every encoder that executable code can hold satisfies this.
    #[verifier::type_invariant]
    pub closed spec fn well_formed(self) -> bool {
        &&& self.blocks@.len() >= 1
        &&& block_dims_ok(self.n_embed as nat, self.n_head as nat)
        &&& self.token_embedding.well_formed()
        &&& self.token_embedding.embedding_dim() == self.n_embed
        &&& self.position_embedding.well_formed()
        &&& self.position_embedding.n_embd() == self.n_embed
        &&& embedding_norm(self.layernorm, self.n_embed as nat)
        &&& forall|i: int|
            0 <= i < self.blocks@.len() ==> {
                let b = #[trigger] self.blocks@[i];
                &&& b.well_formed()
                &&& b.n_embd() == self.n_embed
                &&& b.n_head() == self.n_head
                &&& b.causal() == self.causal_mask
                &&& b.training() == self.train
            }
    }

    /// The size of an embedding.
    pub closed spec fn n_embd(self) -> nat {
        self.n_embed as nat
    }

    /// The number of attention heads.
    pub closed spec fn n_head(self) -> nat {
        self.n_head as nat
    }

    /// The number of blocks.
    pub closed spec fn n_layers(self) -> nat {
        self.blocks@.len()
    }

    /// The number of tokens.
    pub closed spec fn vocab_size(self) -> nat {
        self.token_embedding.num_embeddings()
    }

    /// The kind of positional encoding.
    pub closed spec fn positional_encoding(self) -> PositionalEncoding {
        self.position_embedding.kind()
    }

    /// The longest sequence.
    pub closed spec fn max_len(self) -> nat {
        self.position_embedding.max_len()
    }

    /// Whether each position sees only what came before.
    pub closed spec fn causal(self) -> bool {
        self.causal_mask
    }

    /// Whether the encoder, and with it every block, is in training.
    pub closed spec fn training(self) -> bool {
        self.train
    }

    /// The encoder that `new` makes from `props`.
    pub open spec fn built_from(self, props: TransformerEncoderProps) -> bool {
        &&& self.n_embd() == props.n_embd
        &&& self.n_head() == props.n_head
        &&& self.n_layers() == props.n_layers
        &&& self.vocab_size() == props.vocab_size
        &&& self.positional_encoding() == props.positional_encoding
        &&& self.max_len() == props.max_len
        &&& self.causal() == props.causal_mask
        &&& self.training()
        &&& self.well_formed()
    }

    /// The encoder with the settings `props`, in training.
    pub fn new(props: TransformerEncoderProps) -> (e: TransformerEncoder)
        requires
            encoder_props_ok(props),
        ensures
            e.built_from(props),
    {
        let mut blocks: Vec<TransformerBlock> = Vec::new();
        let mut i: usize = 0;
        while i < props.n_layers
            invariant
                i <= props.n_layers,
                block_dims_ok(props.n_embd as nat, props.n_head as nat),
                blocks@.len() == i,
                forall|k: int|
                    0 <= k < i ==> {
                        let b = #[trigger] blocks@[k];
                        &&& b.well_formed()
                        &&& b.n_embd() == props.n_embd
                        &&& b.n_head() == props.n_head
                        &&& b.causal() == props.causal_mask
                        &&& b.training()
                    },
            decreases props.n_layers - i,
        {
            blocks.push(TransformerBlock::new(props.n_embd, props.n_head, props.causal_mask));
            i = i + 1;
        }
        TransformerEncoder {
            token_embedding: Embedding::new(props.vocab_size, props.n_embd),
            position_embedding: PositionTable::new(
                props.positional_encoding,
                props.max_len,
                props.n_embd,
            ),
            layernorm: LayerNorm::new(Tensor::vector(props.n_embd)),
            blocks,
            n_embed: props.n_embd,
            n_head: props.n_head,
            causal_mask: props.causal_mask,
            train: true,
        }
    }

    /// The settings of the encoder.
    pub fn props(&self) -> (p: TransformerEncoderProps)
        ensures
            p.n_embd == self.n_embd(),
            p.n_head == self.n_head(),
            p.n_layers == self.n_layers(),
            p.vocab_size == self.vocab_size(),
            p.positional_encoding == self.positional_encoding(),
            p.max_len == self.max_len(),
            p.causal_mask == self.causal(),
            encoder_props_ok(p),
    {
        proof {
            use_type_invariant(self);
            self.token_embedding.lemma_dims();
            self.position_embedding.lemma_dims();
        }
        let table = self.token_embedding.ws();
        let vocab_size = match table.dim(0) {
            Some(n) => n,
            None => 1,
        };
        let max_len = self.position_embedding.positions();
        TransformerEncoderProps {
            n_embd: self.n_embed,
            n_head: self.n_head,
            n_layers: self.blocks.len(),
            vocab_size,
            positional_encoding: self.position_embedding.encoding(),
            max_len,
            causal_mask: self.causal_mask,
        }
    }

    /// Whether the encoder is in training.
    pub fn is_training(&self) -> (training: bool)
        ensures
            training == self.training(),
    {
        self.train
    }

    /// The token table.
    pub fn token_embedding(&self) -> (e: Embedding)
        ensures
            e.num_embeddings() == self.vocab_size(),
            e.embedding_dim() == self.n_embd(),
    {
        proof {
            use_type_invariant(self);
        }
        self.token_embedding
    }

    /// The positional encoding.
    pub fn position_embedding(&self) -> (p: PositionTable)
        ensures
            p.kind() == self.positional_encoding(),
            p.max_len() == self.max_len(),
            p.n_embd() == self.n_embd(),
    {
        proof {
            use_type_invariant(self);
        }
        self.position_embedding
    }

    fn run_blocks(&self, xs: Tensor) -> (out: Result<Tensor, ShapeError>)
        ensures
            crate::module::result_view(out) == block_shape(xs@, self.n_embd(), self.n_head()),
    {
        proof {
            use_type_invariant(self);
            use_type_invariant(&xs);
            xs.lemma_valid();
            lemma_ends_with_one(xs@, self.n_embd());
        }
        let mut x = xs;
        let mut i: usize = 0;
        while i < self.blocks.len()
            invariant
                i <= self.blocks@.len(),
                self.well_formed(),
                x@ == xs@,
                i >= 1 ==> block_shape(xs@, self.n_embd(), self.n_head()) is Ok,
            decreases self.blocks.len() - i,
        {
            let block = &self.blocks[i];
            assert(block == self.blocks@[i as int]);
            x = block.forward(x)?;
            i = i + 1;
        }
        self.layernorm.forward(x)
    }

    /// Shape of the encoder's answer to sequences that are embedded already:
    /// the positional signal is added, the blocks and the last normalisation
    /// follow.
    pub fn forward_no_embed(&self, xs: &Tensor) -> (out: Result<Tensor, ShapeError>)
        ensures
            crate::module::result_view(out) == encoder_hidden_shape(
                xs@,
                self.positional_encoding(),
                self.max_len(),
                self.n_embd(),
                self.n_head(),
            ),
    {
        proof {
            use_type_invariant(self);
            use_type_invariant(xs);
            xs.lemma_valid();
        }
        if xs.rank() != 3 || xs.last_dim() != self.n_embed {
            return Err(ShapeError::Mismatch);
        }
        let batch_size = match xs.dim(0) {
            Some(n) => n,
            None => {
                return Err(ShapeError::Mismatch);
            },
        };
        let sz_t = match xs.dim(1) {
            Some(n) => n,
            None => {
                return Err(ShapeError::Mismatch);
            },
        };
        proof {
            assert(xs@ =~= seq![xs@[0], xs@[1], xs@[2]]);
            lemma_count_monotone(xs@, seq![xs@[0], xs@[1], 2 * xs@[2]]);
        }
        let pos_emb = match self.position_embedding.lookup(batch_size, sz_t) {
            Ok(p) => p,
            Err(e) => {
                return Err(e);
            },
        };
        let x = xs.add(&pos_emb)?;
        self.run_blocks(x)
    }

    /// The trainable elements of the encoder, counted part by part.
    pub proof fn lemma_parameter_count(self)
        ensures
            trainable_elements(self.parameters_spec()) == encoder_elements(
                self.vocab_size(),
                self.positional_encoding(),
                self.max_len(),
                self.n_embd(),
                self.n_layers(),
            ),
    {
        lemma_encoder_elements(
            self.vocab_size(),
            self.positional_encoding(),
            self.max_len(),
            self.n_embd(),
            self.n_layers(),
        );
    }
}

impl Module for TransformerEncoder {
    type Input = Tensor;

    type Output = Tensor;

    open spec fn forward_spec(&self, input: Seq<nat>) -> Result<Seq<nat>, ShapeError> {
        encoder_shape(
            input,
            self.positional_encoding(),
            self.max_len(),
            self.n_embd(),
            self.n_head(),
        )
    }

    open spec fn parameters_spec(&self) -> Seq<ParameterView> {
        encoder_parameters(
            self.vocab_size(),
            self.positional_encoding(),
            self.max_len(),
            self.n_embd(),
            self.n_layers(),
        )
    }

    open spec fn in_mode(&self, training: bool) -> bool {
        self.training() == training
    }

    fn train(&mut self)
        ensures
            final(self).training(),
            final(self).n_embd() == old(self).n_embd(),
            final(self).n_head() == old(self).n_head(),
            final(self).n_layers() == old(self).n_layers(),
            final(self).vocab_size() == old(self).vocab_size(),
            final(self).positional_encoding() == old(self).positional_encoding(),
            final(self).max_len() == old(self).max_len(),
            final(self).causal() == old(self).causal(),
    {
        let trained = self.with_mode(true);
        *self = trained;
    }

    fn eval(&mut self)
        ensures
            !final(self).training(),
            final(self).n_embd() == old(self).n_embd(),
            final(self).n_head() == old(self).n_head(),
            final(self).n_layers() == old(self).n_layers(),
            final(self).vocab_size() == old(self).vocab_size(),
            final(self).positional_encoding() == old(self).positional_encoding(),
            final(self).max_len() == old(self).max_len(),
            final(self).causal() == old(self).causal(),
    {
        let evaluated = self.with_mode(false);
        *self = evaluated;
    }

    fn forward(&self, input: Tensor) -> (out: Result<Tensor, ShapeError>) {
        proof {
            use_type_invariant(self);
            use_type_invariant(&input);
            input.lemma_valid();
        }
        if input.rank() != 2 {
            return Err(ShapeError::Mismatch);
        }
        let batch_size = match input.dim(0) {
            Some(n) => n,
            None => {
                return Err(ShapeError::Mismatch);
            },
        };
        let sz_t = match input.dim(1) {
            Some(n) => n,
            None => {
                return Err(ShapeError::Mismatch);
            },
        };
        let ghost xs = seq![input@[0], input@[1], self.n_embd()];
        proof {
            assert(input@ =~= seq![input@[0], input@[1]]);
            assert(input@.push(self.n_embd()) =~= xs);
            lemma_count_monotone(xs, seq![xs[0], xs[1], 2 * xs[2]]);
        }
        let pos_emb = match self.position_embedding.lookup(batch_size, sz_t) {
            Ok(p) => p,
            Err(e) => {
                return Err(e);
            },
        };
        let tok_emb = self.token_embedding.forward(input)?;
        let x = tok_emb.add(&pos_emb)?;
        self.run_blocks(x)
    }

    fn parameters(&self) -> (params: Vec<Parameter>) {
        proof {
            use_type_invariant(self);
        }
        let mut params = self.token_embedding.parameters();
        let mut pos = self.position_embedding.parameters();
        let mut norm = self.layernorm.parameters();
        let ghost a = params@;
        let ghost b = pos@;
        let ghost c = norm@;
        params.append(&mut pos);
        params.append(&mut norm);
        let ghost head = table_parameters(self.vocab_size(), self.n_embd()) + position_parameters(
            self.positional_encoding(),
            self.max_len(),
            self.n_embd(),
        ) + norm_parameters(self.n_embd());
        let ghost part = block_parameters(self.n_embd());
        assert(parameter_views(a + b + c) =~= parameter_views(a) + parameter_views(b)
            + parameter_views(c));
        assert(parameter_views(params@) =~= head + repeated(part, 0));
        let mut i: usize = 0;
        while i < self.blocks.len()
            invariant
                i <= self.blocks@.len(),
                self.well_formed(),
                part == block_parameters(self.n_embd()),
                parameter_views(params@) == head + repeated(part, i as nat),
            decreases self.blocks.len() - i,
        {
            let block = &self.blocks[i];
            assert(block == self.blocks@[i as int]);
            let mut more = block.parameters();
            let ghost before = params@;
            let ghost added = more@;
            params.append(&mut more);
            proof {
                assert(parameter_views(before + added) =~= parameter_views(before)
                    + parameter_views(added));
                assert(head + repeated(part, i as nat) + part =~= head + repeated(
                    part,
                    (i + 1) as nat,
                ));
            }
            i = i + 1;
        }
        params
    }
}

impl TransformerEncoder {
    /// The same encoder, in training or in evaluation.
    pub fn with_mode(&self, training: bool) -> (e: TransformerEncoder)
        ensures
            e.training() == training,
            e.n_embd() == self.n_embd(),
            e.n_head() == self.n_head(),
            e.n_layers() == self.n_layers(),
            e.vocab_size() == self.vocab_size(),
            e.positional_encoding() == self.positional_encoding(),
            e.max_len() == self.max_len(),
            e.causal() == self.causal(),
            e.well_formed(),
    {
        proof {
            use_type_invariant(self);
        }
        let mut blocks: Vec<TransformerBlock> = Vec::new();
        let mut i: usize = 0;
        while i < self.blocks.len()
            invariant
                i <= self.blocks@.len(),
                self.well_formed(),
                blocks@.len() == i,
                forall|k: int|
                    0 <= k < i ==> {
                        let b = #[trigger] blocks@[k];
                        &&& b.well_formed()
                        &&& b.n_embd() == self.n_embed
                        &&& b.n_head() == self.n_head
                        &&& b.causal() == self.causal_mask
                        &&& b.training() == training
                    },
            decreases self.blocks.len() - i,
        {
            let mut block = self.blocks[i];
            assert(block == self.blocks@[i as int]);
            if training {
                block.train();
            } else {
                block.eval();
            }
            proof {
                use_type_invariant(&block);
            }
            blocks.push(block);
            i = i + 1;
        }
        TransformerEncoder {
            token_embedding: self.token_embedding,
            position_embedding: self.position_embedding,
            layernorm: self.layernorm,
            blocks,
            n_embed: self.n_embed,
            n_head: self.n_head,
            causal_mask: self.causal_mask,
            train: training,
        }
    }
}

impl ModuleCopy for TransformerEncoder {
    open spec fn copy_spec(&self, source: &Self) -> Result<(), CopyFailure> {
        if self.n_layers() != source.n_layers() || self.vocab_size() != source.vocab_size()
            || self.n_embd() != source.n_embd() {
            Err(CopyFailure::SizeMismatch)
        } else if self.positional_encoding() != source.positional_encoding() {
            Err(CopyFailure::Other(wrong_encoding_text()))
        } else if !(self.positional_encoding() is Rotary) && self.max_len() != source.max_len() {
            Err(CopyFailure::SizeMismatch)
        } else {
            Ok(())
        }
    }

    fn check_copy(&self, source: &Self) -> (r: Result<(), WeightCopyError>) {
        proof {
            use_type_invariant(self);
            use_type_invariant(source);
        }
        if self.blocks.len() != source.blocks.len() {
            return Err(WeightCopyError::SizeMismatch);
        }
        self.token_embedding.check_copy(&source.token_embedding)?;
        self.position_embedding.check_copy(&source.position_embedding)?;
        self.layernorm.check_copy(&source.layernorm)?;
        let mut i: usize = 0;
        while i < self.blocks.len()
            invariant
                i <= self.blocks@.len(),
                self.blocks@.len() == source.blocks@.len(),
                self.well_formed(),
                source.well_formed(),
                self.n_embed == source.n_embed,
            decreases self.blocks.len() - i,
        {
            let block = &self.blocks[i];
            assert(block == self.blocks@[i as int]);
            let other = &source.blocks[i];
            assert(other == source.blocks@[i as int]);
            block.check_copy(other)?;
            i = i + 1;
        }
        Ok(())
    }
}

/// What an aggregator is built from.
#[derive(Clone, Copy, Debug)]
pub struct TransformerAggregatorProps {
    /// The size of an embedding.
    pub n_embd: u64,
    /// The number of attention heads.
    pub n_head: u64,
    /// The number of blocks.
    pub n_layers: usize,
    /// The size of the vector that sums a sequence up.
    pub aggregation_size: u64,
    /// The number of tokens.
    pub vocab_size: u64,
    /// The kind of positional encoding.
    pub positional_encoding: PositionalEncoding,
    /// The longest sequence, the aggregation token counted in.
    pub max_len: u64,
}

/// The settings of the encoder inside an aggregator: it masks nothing.
pub open spec fn aggregator_encoder_props(p: TransformerAggregatorProps) -> TransformerEncoderProps {
    TransformerEncoderProps {
        n_embd: p.n_embd,
        n_head: p.n_head,
        n_layers: p.n_layers,
        vocab_size: p.vocab_size,
        positional_encoding: p.positional_encoding,
        max_len: p.max_len,
        causal_mask: false,
    }
}

/// The settings from which an aggregator can be built.
pub open spec fn aggregator_props_ok(p: TransformerAggregatorProps) -> bool {
    encoder_props_ok(aggregator_encoder_props(p)) && linear_dims_ok(
        p.n_embd as nat,
        p.aggregation_size as nat,
    )
}

impl TransformerAggregatorProps {
    /// Whether an aggregator can be built from these settings.
    pub fn is_valid(&self) -> (ok: bool)
        ensures
            ok == aggregator_props_ok(*self),
    {
        self.encoder_props().is_valid() && Linear::dims_ok(self.n_embd, self.aggregation_size)
    }

    /// The settings of the encoder inside.
    pub fn encoder_props(&self) -> (p: TransformerEncoderProps)
        ensures
            p == aggregator_encoder_props(*self),
    {
        TransformerEncoderProps {
            n_embd: self.n_embd,
            n_head: self.n_head,
            n_layers: self.n_layers,
            vocab_size: self.vocab_size,
            positional_encoding: self.positional_encoding,
            max_len: self.max_len,
            causal_mask: false,
        }
    }
}

/// Shape of an aggregator's answer to token sequences of shape `x`: one
/// vector of size `aggregation_size` for each sequence. The sequences grow by
/// the aggregation token before they go through the encoder.
pub open spec fn aggregator_shape(
    x: Seq<nat>,
    kind: PositionalEncoding,
    max_len: nat,
    n_embd: nat,
    n_head: nat,
    aggregation_size: nat,
) -> Result<Seq<nat>, ShapeError> {
    if x.len() != 2 {
        Err(ShapeError::Mismatch)
    } else if kind is Rotary {
        Err(ShapeError::NotImplemented)
    } else if x[1] + 1 > max_len {
        Err(ShapeError::OutOfRange)
    } else if element_count(seq![x[0], x[1] + 1, 2 * n_embd]) > u64::MAX || element_count(
        score_shape(x[0], n_head, x[1] + 1, x[1] + 1),
    ) > u64::MAX || element_count(seq![x[0], aggregation_size]) > u64::MAX {
        Err(ShapeError::TooLarge)
    } else {
        Ok(seq![x[0], aggregation_size])
    }
}

/// The parameter of the aggregation token.
pub open spec fn aggregation_parameters(n_embd: nat) -> Seq<ParameterView> {
    seq![
        ParameterView {
            shape: seq![n_embd],
            init: Init::Normal { std_milli: 200 },
            trainable: true,
        },
    ]
}

/// An encoder that sums each sequence up in one vector: a learned token is
/// put in front of the sequence, and what the encoder makes of that token
/// goes through a linear head.
#[derive(Debug)]
pub struct TransformerAggregator {
    encoder: TransformerEncoder,
    aggregation_embedding: Tensor,
    head: Linear,
}

impl TransformerAggregator {
    /// Every aggregator that executable code can hold satisfies this.
    #[verifier::type_invariant]
    pub closed spec fn well_formed(self) -> bool {
        &&& self.encoder.well_formed()
        &&& self.aggregation_embedding.well_formed()
        &&& self.aggregation_embedding@ == seq![self.encoder.n_embd()]
        &&& self.head.well_formed()
        &&& plain_linear(self.head, self.encoder.n_embd(), self.head.out_dim())
    }

    /// The encoder inside.
    pub closed spec fn encoder_view(self) -> TransformerEncoder {
        self.encoder
    }

    /// The size of the vector that sums a sequence up.
    pub closed spec fn aggregation_size(self) -> nat {
        self.head.out_dim()
    }

    /// The aggregator with the settings `props`, in training.
    pub fn new(props: TransformerAggregatorProps) -> (a: TransformerAggregator)
        requires
            aggregator_props_ok(props),
        ensures
            a.encoder_view().built_from(aggregator_encoder_props(props)),
            a.aggregation_size() == props.aggregation_size,
            a.well_formed(),
    {
        let encoder = TransformerEncoder::new(props.encoder_props());
        let head = Linear::new(props.n_embd, props.aggregation_size);
        let aggregation_embedding = Tensor::vector(props.n_embd);
        proof {
            use_type_invariant(&aggregation_embedding);
        }
        TransformerAggregator { encoder, head, aggregation_embedding }
    }

    /// Whether an aggregator with vectors of size `aggregation_size` can be
    /// built on `encoder`.
    pub fn fits(encoder: &TransformerEncoder, aggregation_size: u64) -> (ok: bool)
        ensures
            ok == linear_dims_ok(encoder.n_embd(), aggregation_size as nat),
    {
        Linear::dims_ok(encoder.props().n_embd, aggregation_size)
    }

    /// The aggregator on top of `encoder`, which keeps its weights.
    pub fn from_encoder(encoder: TransformerEncoder, aggregation_size: u64) -> (a:
        TransformerAggregator)
        requires
            linear_dims_ok(encoder.n_embd(), aggregation_size as nat),
        ensures
            a.encoder_view() == encoder,
            a.aggregation_size() == aggregation_size,
            a.well_formed(),
    {
        proof {
            use_type_invariant(&encoder);
        }
        let n_embd = encoder.props().n_embd;
        let aggregation_embedding = Tensor::vector(n_embd);
        let head = Linear::new(n_embd, aggregation_size);
        proof {
            use_type_invariant(&aggregation_embedding);
        }
        TransformerAggregator { aggregation_embedding, head, encoder }
    }

    /// The encoder inside.
    pub fn encoder(&self) -> (e: &TransformerEncoder)
        ensures
            *e == self.encoder_view(),
    {
        &self.encoder
    }

    /// The aggregation token: one embedding.
    pub fn aggregation_embedding(&self) -> (t: Tensor)
        ensures
            t@ == seq![self.encoder_view().n_embd()],
    {
        proof {
            use_type_invariant(self);
        }
        self.aggregation_embedding
    }

    /// The head: from an embedding to the vector that sums a sequence up.
    pub fn head(&self) -> (l: Linear)
        ensures
            l.in_dim() == self.encoder_view().n_embd(),
            l.out_dim() == self.aggregation_size(),
    {
        proof {
            use_type_invariant(self);
        }
        self.head
    }

    /// The trainable elements of the aggregator: those of the encoder, of
    /// the head, and one embedding.
    pub proof fn lemma_parameter_count(self)
        ensures
            trainable_elements(self.parameters_spec()) == trainable_elements(
                self.encoder_view().parameters_spec(),
            ) + linear_elements(self.encoder_view().n_embd(), self.aggregation_size())
                + self.encoder_view().n_embd(),
    {
        let e = self.encoder_view().parameters_spec();
        let h = plain_linear_parameters(self.encoder_view().n_embd(), self.aggregation_size());
        let a = aggregation_parameters(self.encoder_view().n_embd());
        lemma_linear_elements(self.encoder_view().n_embd(), self.aggregation_size());
        lemma_count1(self.encoder_view().n_embd());
        assert(a.drop_last() =~= Seq::<ParameterView>::empty());
        assert(trainable_elements(a) == self.encoder_view().n_embd()) by {
            reveal_with_fuel(trainable_elements, 2);
        }
        lemma_trainable_elements_concat(e, h);
        lemma_trainable_elements_concat(e + h, a);
    }
}

impl Module for TransformerAggregator {
    type Input = Tensor;

    type Output = Tensor;

    open spec fn forward_spec(&self, input: Seq<nat>) -> Result<Seq<nat>, ShapeError> {
        aggregator_shape(
            input,
            self.encoder_view().positional_encoding(),
            self.encoder_view().max_len(),
            self.encoder_view().n_embd(),
            self.encoder_view().n_head(),
            self.aggregation_size(),
        )
    }

    open spec fn parameters_spec(&self) -> Seq<ParameterView> {
        self.encoder_view().parameters_spec() + plain_linear_parameters(
            self.encoder_view().n_embd(),
            self.aggregation_size(),
        ) + aggregation_parameters(self.encoder_view().n_embd())
    }

    open spec fn in_mode(&self, training: bool) -> bool {
        self.encoder_view().in_mode(training)
    }

    fn train(&mut self)
        ensures
            final(self).encoder_view().training(),
            final(self).aggregation_size() == old(self).aggregation_size(),
    {
        proof {
            use_type_invariant(&*self);
        }
        let encoder = self.encoder.with_mode(true);
        *self = TransformerAggregator {
            encoder,
            aggregation_embedding: self.aggregation_embedding,
            head: self.head,
        };
    }

    fn eval(&mut self)
        ensures
            !final(self).encoder_view().training(),
            final(self).aggregation_size() == old(self).aggregation_size(),
    {
        proof {
            use_type_invariant(&*self);
        }
        let encoder = self.encoder.with_mode(false);
        *self = TransformerAggregator {
            encoder,
            aggregation_embedding: self.aggregation_embedding,
            head: self.head,
        };
    }

    fn forward(&self, input: Tensor) -> (out: Result<Tensor, ShapeError>) {
        proof {
            use_type_invariant(self);
            use_type_invariant(&input);
            input.lemma_valid();
        }
        if input.rank() != 2 {
            return Err(ShapeError::Mismatch);
        }
        let position = self.encoder.position_embedding();
        match position.encoding() {
            PositionalEncoding::Rotary => {
                return Err(ShapeError::NotImplemented);
            },
            _ => {},
        }
        let batch_size = match input.dim(0) {
            Some(n) => n,
            None => {
                return Err(ShapeError::Mismatch);
            },
        };
        let sz_t = match input.dim(1) {
            Some(n) => n,
            None => {
                return Err(ShapeError::Mismatch);
            },
        };
        if sz_t >= position.positions() {
            return Err(ShapeError::OutOfRange);
        }
        let ghost b = input@[0];
        let ghost t = input@[1];
        let ghost c = self.encoder.n_embd();
        let ghost agg = self.aggregation_size();
        let ghost grown = seq![b, t + 1, c];
        let ghost wide = seq![b, t + 1, 2 * c];
        proof {
            assert(input@ =~= seq![b, t]);
            lemma_count_monotone(seq![b, 1, c], wide);
            lemma_count_monotone(seq![b, t, c], wide);
            lemma_count_monotone(grown, wide);
            assert(seq![1nat] + (seq![1nat] + seq![c]) =~= seq![1, 1, c]);
            assert(seq![1nat, 1, c].update(0, b) =~= seq![b, 1, c]);
            assert(input@.push(c) =~= seq![b, t, c]);
            assert(seq![b, 1, c].update(1, 1 + t) =~= grown);
        }
        let token = self.aggregation_embedding.unsqueeze_start()?.unsqueeze_start()?;
        let first = token.repeat(0, batch_size)?;
        let embedded = self.encoder.token_embedding().forward(input)?;
        let xs = first.cat(&embedded, 1)?;
        let hidden = self.encoder.forward_no_embed(&xs)?;
        let summary = hidden.select(1, 0)?;
        proof {
            assert(grown.remove(1) =~= seq![b, c]);
            assert(seq![b, c].drop_last().push(agg) =~= seq![b, agg]);
        }
        self.head.forward(summary)
    }

    fn parameters(&self) -> (params: Vec<Parameter>) {
        proof {
            use_type_invariant(self);
        }
        let mut params = self.encoder.parameters();
        let mut head = self.head.parameters();
        let ghost a = params@;
        let ghost b = head@;
        params.append(&mut head);
        params.push(
            Parameter {
                shape: self.aggregation_embedding,
                init: Init::Normal { std_milli: 200 },
                trainable: true,
            },
        );
        assert(parameter_views(params@) =~= self.parameters_spec());
        params
    }
}

impl ModuleCopy for TransformerAggregator {
    open spec fn copy_spec(&self, source: &Self) -> Result<(), CopyFailure> {
        match self.encoder_view().copy_spec(&source.encoder_view()) {
            Err(e) => Err(e),
            Ok(_) => if self.aggregation_size() == source.aggregation_size() {
                Ok(())
            } else {
                Err(CopyFailure::SizeMismatch)
            },
        }
    }

    fn check_copy(&self, source: &Self) -> (r: Result<(), WeightCopyError>) {
        proof {
            use_type_invariant(self);
            use_type_invariant(source);
        }
        self.encoder.check_copy(&source.encoder)?;
        if !self.aggregation_embedding.same_shape(&source.aggregation_embedding) {
            return Err(WeightCopyError::SizeMismatch);
        }
        self.head.check_copy(&source.head)
    }
}

/// Where one encoder can hand its weights to another, the two own the same
/// parameters, and so the same number of trainable elements.
pub proof fn lemma_encoder_copy(destination: TransformerEncoder, source: TransformerEncoder)
    requires
        destination.copy_spec(&source) is Ok,
    ensures
        destination.parameters_spec() == source.parameters_spec(),
{
}

/// Where one aggregator can hand its weights to another, the two own the
/// same parameters.
pub proof fn lemma_aggregator_copy(
    destination: TransformerAggregator,
    source: TransformerAggregator,
)
    requires
        destination.copy_spec(&source) is Ok,
    ensures
        destination.parameters_spec() == source.parameters_spec(),
{
}

} // verus!
