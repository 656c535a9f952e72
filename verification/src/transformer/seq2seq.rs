use vstd::prelude::*;
use crate::error::{ShapeError, WeightCopyError};
use crate::linear::{affine_shape, Linear};
use crate::module::{
    lemma_trainable_elements_concat, parameter_views, result_view, trainable_elements,
    CopyFailure, Module, ModuleCopy, Parameter, ParameterView,
};
use crate::tensor::Tensor;
use crate::transformer::base::{plain_linear, plain_linear_parameters, PositionalEncoding};
use crate::transformer::decoder::{decoder_props_ok, TransformerDecoder, TransformerDecoderProps};
use crate::transformer::encoder::{
    encoder_props_ok, lemma_linear_elements, linear_elements, TransformerEncoder,
    TransformerEncoderProps,
};

verus! {

/// When generation ends.
#[derive(Clone, Copy, Debug, PartialEq, Eq, Structural)]
pub enum InferenceMode {
    /// After so many tokens.
    NTokens(u32),
    /// When this token comes, or when the cap on the number of tokens is reached.
    EndToken(i64),
}

/// The largest number of tokens that generation up to an end token produces.
pub const GENERATION_CAP: u32 = 5000;

/// Where a generation stands.
#[derive(Clone, Copy, Debug, PartialEq, Eq, Structural)]
pub enum GenerationStatus {
    /// The next token is wanted.
    AwaitingNextToken,
    /// Over: the wanted number of tokens is there.
    TerminatedByCount,
    /// Over: the end token came.
    TerminatedByEndToken,
    /// Over: the cap on the number of tokens is reached.
    TerminatedBySafetyCap,
}

/// A generation as contracts speak of it.
pub struct GenerationView {
    /// When it ends.
    pub mode: InferenceMode,
    /// The start token and what was produced after it.
    pub output: Seq<i64>,
    /// Where it stands.
    pub status: GenerationStatus,
}

/// How many tokens a generation has produced: the start token is not one.
pub open spec fn produced(g: GenerationView) -> nat {
    (g.output.len() - 1) as nat
}

/// The most tokens that a generation in this mode produces.
pub open spec fn token_limit(mode: InferenceMode) -> nat {
    match mode {
        InferenceMode::NTokens(n) => n as nat,
        InferenceMode::EndToken(_) => GENERATION_CAP as nat,
    }
}

/// Where a generation stands once it has produced `count` tokens, the last
/// of which is `token`.
pub open spec fn status_after(mode: InferenceMode, count: nat, token: i64) -> GenerationStatus {
    match mode {
        InferenceMode::NTokens(n) => if count >= n {
            GenerationStatus::TerminatedByCount
        } else {
            GenerationStatus::AwaitingNextToken
        },
        InferenceMode::EndToken(end) => if token == end {
            GenerationStatus::TerminatedByEndToken
        } else if count >= GENERATION_CAP {
            GenerationStatus::TerminatedBySafetyCap
        } else {
            GenerationStatus::AwaitingNextToken
        },
    }
}

/// A generation at its start: nothing but the start token, and over at once
/// where no token is wanted.
pub open spec fn started(sos_index: i64, mode: InferenceMode) -> GenerationView {
    GenerationView {
        mode,
        output: seq![sos_index],
        status: if mode == InferenceMode::NTokens(0) {
            GenerationStatus::TerminatedByCount
        } else {
            GenerationStatus::AwaitingNextToken
        },
    }
}

/// A generation after `token` was offered to it: a generation that is over
/// takes no more tokens.
pub open spec fn stepped(g: GenerationView, token: i64) -> GenerationView {
    if g.status is AwaitingNextToken {
        GenerationView {
            mode: g.mode,
            output: g.output.push(token),
            status: status_after(g.mode, g.output.len(), token),
        }
    } else {
        g
    }
}

/// A generation after the tokens `tokens` were offered to it one by one.
pub open spec fn run(g: GenerationView, tokens: Seq<i64>) -> GenerationView
    decreases tokens.len(),
{
    if tokens.len() == 0 {
        g
    } else {
        stepped(run(g, tokens.drop_last()), tokens.last())
    }
}

/// The smaller of two numbers.
pub open spec fn at_most(a: nat, b: nat) -> nat {
    if a <= b {
        a
    } else {
        b
    }
}

/// Generation of `n` tokens ends when exactly `n` tokens are produced: while
/// fewer were offered it waits for the next, and of more it takes the first
/// `n` only.
pub proof fn lemma_n_tokens(sos_index: i64, n: u32, tokens: Seq<i64>)
    ensures
        ({
            let g = run(started(sos_index, InferenceMode::NTokens(n)), tokens);
            &&& g.mode == InferenceMode::NTokens(n)
            &&& g.output == seq![sos_index] + tokens.take(at_most(tokens.len(), n as nat) as int)
            &&& produced(g) == at_most(tokens.len(), n as nat)
            &&& tokens.len() < n ==> g.status is AwaitingNextToken
            &&& tokens.len() >= n ==> g.status is TerminatedByCount
        }),
    decreases tokens.len(),
{
    let start = started(sos_index, InferenceMode::NTokens(n));
    if tokens.len() == 0 {
        assert(seq![sos_index] + tokens.take(0) =~= seq![sos_index]);
    } else {
        let before = tokens.drop_last();
        lemma_n_tokens(sos_index, n, before);
        let g = run(start, before);
        let after = stepped(g, tokens.last());
        if before.len() < n {
            assert(before.take(before.len() as int) =~= before);
            assert(tokens.take(tokens.len() as int) =~= tokens);
            assert((seq![sos_index] + before).push(tokens.last()) =~= seq![sos_index] + tokens);
        } else {
            assert(before.take(n as int) =~= tokens.take(n as int));
        }
    }
}

/// No token of `tokens` is the token `end`.
pub open spec fn free_of(tokens: Seq<i64>, end: i64) -> bool {
    forall|i: int| 0 <= i < tokens.len() ==> tokens[i] != end
}

/// Generation up to an end token never produces more tokens than the cap. It
/// ends with the first end token among the tokens offered, or at the cap
/// where none came before; until then it waits for the next token.
pub proof fn lemma_end_token(sos_index: i64, end: i64, tokens: Seq<i64>)
    ensures
        ({
            let g = run(started(sos_index, InferenceMode::EndToken(end)), tokens);
            let taken = tokens.take(produced(g) as int);
            &&& g.mode == InferenceMode::EndToken(end)
            &&& produced(g) <= GENERATION_CAP
            &&& produced(g) <= tokens.len()
            &&& g.output == seq![sos_index] + taken
            &&& !(g.status is TerminatedByCount)
            &&& g.status is AwaitingNextToken ==> produced(g) == tokens.len() && produced(g)
                < GENERATION_CAP && free_of(taken, end)
            &&& g.status is TerminatedByEndToken ==> produced(g) >= 1 && taken.last() == end
                && free_of(taken.drop_last(), end)
            &&& g.status is TerminatedBySafetyCap ==> produced(g) == GENERATION_CAP && free_of(
                taken,
                end,
            )
        }),
    decreases tokens.len(),
{
    let start = started(sos_index, InferenceMode::EndToken(end));
    if tokens.len() == 0 {
        assert(seq![sos_index] + tokens.take(0) =~= seq![sos_index]);
    } else {
        let before = tokens.drop_last();
        lemma_end_token(sos_index, end, before);
        let g = run(start, before);
        let after = stepped(g, tokens.last());
        let k = produced(g) as int;
        assert(before.take(k) =~= tokens.take(k));
        if g.status is AwaitingNextToken {
            assert(before.take(before.len() as int) =~= before);
            assert(tokens.take(tokens.len() as int) =~= tokens);
            assert((seq![sos_index] + before).push(tokens.last()) =~= seq![sos_index] + tokens);
            assert(tokens.drop_last() =~= before);
        }
    }
}

/// One run of autoregressive generation: it takes the tokens that the model
/// produces one by one and says when to stop.
#[derive(Debug)]
pub struct Generation {
    mode: InferenceMode,
    output: Vec<i64>,
    count: u32,
    status: GenerationStatus,
}

impl View for Generation {
    type V = GenerationView;

    closed spec fn view(&self) -> GenerationView {
        GenerationView { mode: self.mode, output: self.output@, status: self.status }
    }
}

impl Generation {
    /// Every generation that executable code can hold satisfies this.
    #[verifier::type_invariant]
    pub closed spec fn well_formed(self) -> bool {
        &&& self.output@.len() == self.count + 1
        &&& self.count <= token_limit(self.mode)
        &&& self.status is AwaitingNextToken ==> self.count < token_limit(self.mode)
    }

    /// A generation never holds more tokens than its mode allows, and while
    /// it waits for the next token it holds fewer.
    pub proof fn lemma_bounds(self)
        requires
            self.well_formed(),
        ensures
            self@.output.len() >= 1,
            produced(self@) <= token_limit(self@.mode),
            self@.status is AwaitingNextToken ==> produced(self@) < token_limit(self@.mode),
    {
    }

    /// A generation that starts from the token `sos_index`.
    pub fn start(sos_index: i64, mode: InferenceMode) -> (g: Generation)
        ensures
            g@ == started(sos_index, mode),
    {
        let mut output: Vec<i64> = Vec::new();
        output.push(sos_index);
        let status = match mode {
            InferenceMode::NTokens(n) => if n == 0 {
                GenerationStatus::TerminatedByCount
            } else {
                GenerationStatus::AwaitingNextToken
            },
            InferenceMode::EndToken(_) => GenerationStatus::AwaitingNextToken,
        };
        assert(output@ =~= seq![sos_index]);
        Generation { mode, output, count: 0, status }
    }

    /// Offers the token that the model produced. While the generation waits
    /// for a token, the token joins the output; a generation that is over
    /// stays as it is. Returns where the generation stands afterwards.
    pub fn push(&mut self, token: i64) -> (status: GenerationStatus)
        ensures
            final(self)@ == stepped(old(self)@, token),
            status == final(self)@.status,
    {
        proof {
            use_type_invariant(&*self);
        }
        match self.status {
            GenerationStatus::AwaitingNextToken => {},
            _ => {
                return self.status;
            },
        }
        let count = self.count + 1;
        let status = match self.mode {
            InferenceMode::NTokens(n) => if count >= n {
                GenerationStatus::TerminatedByCount
            } else {
                GenerationStatus::AwaitingNextToken
            },
            InferenceMode::EndToken(end) => if token == end {
                GenerationStatus::TerminatedByEndToken
            } else if count >= GENERATION_CAP {
                GenerationStatus::TerminatedBySafetyCap
            } else {
                GenerationStatus::AwaitingNextToken
            },
        };
        let mut output: Vec<i64> = Vec::new();
        let ghost before = self.output@;
        let mut i: usize = 0;
        while i < self.output.len()
            invariant
                i <= self.output@.len(),
                before == self.output@,
                output@ == before.take(i as int),
            decreases self.output.len() - i,
        {
            output.push(self.output[i]);
            assert(before.take(i as int).push(before[i as int]) =~= before.take(i + 1));
            i = i + 1;
        }
        assert(before.take(before.len() as int) =~= before);
        output.push(token);
        *self = Generation { mode: self.mode, output, count, status };
        status
    }

    /// Where the generation stands.
    pub fn status(&self) -> (status: GenerationStatus)
        ensures
            status == self@.status,
    {
        self.status
    }

    /// Whether the next token is wanted.
    pub fn is_awaiting(&self) -> (awaiting: bool)
        ensures
            awaiting == self@.status is AwaitingNextToken,
    {
        match self.status {
            GenerationStatus::AwaitingNextToken => true,
            _ => false,
        }
    }

    /// When the generation ends.
    pub fn mode(&self) -> (mode: InferenceMode)
        ensures
            mode == self@.mode,
    {
        self.mode
    }

    /// How many tokens the generation has produced.
    pub fn produced(&self) -> (count: u32)
        ensures
            count == produced(self@),
    {
        proof {
            use_type_invariant(self);
        }
        self.count
    }

    /// The start token and what was produced after it.
    pub fn output(&self) -> (tokens: &Vec<i64>)
        ensures
            tokens@ == self@.output,
    {
        &self.output
    }

    /// The start token and what was produced after it.
    pub fn into_output(self) -> (tokens: Vec<i64>)
        ensures
            tokens@ == self@.output,
    {
        self.output
    }

    /// Shape of the decoder's next input: the one sequence of tokens so far.
    pub fn target(&self) -> (t: Tensor)
        ensures
            t@ == seq![1, self@.output.len()],
    {
        proof {
            use_type_invariant(self);
            assert(1 * (self.count + 1) == self.count + 1) by (nonlinear_arith);
        }
        Tensor::matrix(1, self.count as u64 + 1)
    }
}

/// What a sequence-to-sequence model is built from.
#[derive(Clone, Copy, Debug)]
pub struct Seq2SeqTransformerProps {
    /// The size of an embedding.
    pub n_embd: u64,
    /// The number of attention heads in the encoder.
    pub n_encoder_heads: u64,
    /// The number of attention heads in the decoder.
    pub n_decoder_heads: u64,
    /// The number of blocks in the encoder.
    pub n_encoder_layers: usize,
    /// The number of blocks in the decoder.
    pub n_decoder_layers: usize,
    /// The number of tokens.
    pub vocab_size: u64,
    /// The kind of positional encoding.
    pub positional_encoding: PositionalEncoding,
    /// The longest sequence.
    pub max_len: u64,
}

/// The settings of the encoder inside a sequence-to-sequence model: it masks
/// nothing.
pub open spec fn seq2seq_encoder_props(p: Seq2SeqTransformerProps) -> TransformerEncoderProps {
    TransformerEncoderProps {
        n_embd: p.n_embd,
        n_head: p.n_encoder_heads,
        n_layers: p.n_encoder_layers,
        vocab_size: p.vocab_size,
        positional_encoding: p.positional_encoding,
        max_len: p.max_len,
        causal_mask: false,
    }
}

/// The settings of the decoder inside a sequence-to-sequence model: each
/// position sees only what came before.
pub open spec fn seq2seq_decoder_props(p: Seq2SeqTransformerProps) -> TransformerDecoderProps {
    TransformerDecoderProps {
        n_embd: p.n_embd,
        n_head: p.n_decoder_heads,
        n_layers: p.n_decoder_layers,
        vocab_size: p.vocab_size,
        positional_encoding: p.positional_encoding,
        max_len: p.max_len,
        causal_mask: true,
    }
}

/// The settings from which a sequence-to-sequence model can be built.
pub open spec fn seq2seq_props_ok(p: Seq2SeqTransformerProps) -> bool {
    encoder_props_ok(seq2seq_encoder_props(p)) && decoder_props_ok(seq2seq_decoder_props(p))
}

impl Seq2SeqTransformerProps {
    /// Whether a model can be built from these settings.
    pub fn is_valid(&self) -> (ok: bool)
        ensures
            ok == seq2seq_props_ok(*self),
    {
        self.encoder_props().is_valid() && self.decoder_props().is_valid()
    }

    /// The settings of the encoder inside.
    pub fn encoder_props(&self) -> (p: TransformerEncoderProps)
        ensures
            p == seq2seq_encoder_props(*self),
    {
        TransformerEncoderProps {
            n_embd: self.n_embd,
            n_head: self.n_encoder_heads,
            n_layers: self.n_encoder_layers,
            vocab_size: self.vocab_size,
            positional_encoding: self.positional_encoding,
            max_len: self.max_len,
            causal_mask: false,
        }
    }

    /// The settings of the decoder inside.
    pub fn decoder_props(&self) -> (p: TransformerDecoderProps)
        ensures
            p == seq2seq_decoder_props(*self),
    {
        TransformerDecoderProps {
            n_embd: self.n_embd,
            n_head: self.n_decoder_heads,
            n_layers: self.n_decoder_layers,
            vocab_size: self.vocab_size,
            positional_encoding: self.positional_encoding,
            max_len: self.max_len,
            causal_mask: true,
        }
    }
}

/// An encoder for the source, a decoder for the target that looks at what
/// the encoder made of the source, and a head that gives a score to each
/// token of the vocabulary at each position of the target.
#[derive(Debug)]
pub struct Seq2SeqTransformer {
    encoder: TransformerEncoder,
    decoder: TransformerDecoder,
    head: Linear,
}

impl Seq2SeqTransformer {
    /// Every model that executable code can hold satisfies this.
    #[verifier::type_invariant]
    pub closed spec fn well_formed(self) -> bool {
        &&& self.encoder.well_formed()
        &&& self.decoder.well_formed()
        &&& self.decoder.n_embd() == self.encoder.n_embd()
        &&& self.decoder.training() == self.encoder.training()
        &&& plain_linear(self.head, self.encoder.n_embd(), self.head.out_dim())
    }

    /// The encoder inside.
    pub closed spec fn encoder_view(self) -> TransformerEncoder {
        self.encoder
    }

    /// The decoder inside.
    pub closed spec fn decoder_view(self) -> TransformerDecoder {
        self.decoder
    }

    /// How many scores the head gives at each position.
    pub closed spec fn head_size(self) -> nat {
        self.head.out_dim()
    }

    /// The model with the settings `props`, in training.
    pub fn new(props: Seq2SeqTransformerProps) -> (m: Seq2SeqTransformer)
        requires
            seq2seq_props_ok(props),
        ensures
            m.encoder_view().built_from(seq2seq_encoder_props(props)),
            m.decoder_view().built_from(seq2seq_decoder_props(props)),
            m.head_size() == props.vocab_size,
            m.well_formed(),
    {
        assert(props.vocab_size * props.n_embd == props.n_embd * props.vocab_size)
            by (nonlinear_arith);
        Seq2SeqTransformer {
            encoder: TransformerEncoder::new(props.encoder_props()),
            decoder: TransformerDecoder::new(props.decoder_props()),
            head: Linear::new(props.n_embd, props.vocab_size),
        }
    }

    /// The encoder inside.
    pub fn encoder(&self) -> (e: &TransformerEncoder)
        ensures
            *e == self.encoder_view(),
    {
        &self.encoder
    }

    /// The decoder inside.
    pub fn decoder(&self) -> (d: &TransformerDecoder)
        ensures
            *d == self.decoder_view(),
    {
        &self.decoder
    }

    /// The head: from an embedding to a score for each token.
    pub fn head(&self) -> (l: Linear)
        ensures
            l.in_dim() == self.encoder_view().n_embd(),
            l.out_dim() == self.head_size(),
    {
        proof {
            use_type_invariant(self);
        }
        self.head
    }

    /// Shape of the scores for target sequences of shape `target`, given what
    /// the encoder made of the source.
    pub open spec fn decode_spec(self, target: Seq<nat>, encoded: Seq<nat>) -> Result<
        Seq<nat>,
        ShapeError,
    > {
        match self.decoder_view().forward_spec((target, encoded)) {
            Ok(hidden) => affine_shape(hidden, self.encoder_view().n_embd(), self.head_size()),
            Err(e) => Err(e),
        }
    }

    /// Shape of the scores for the target sequences: the decoder looks at
    /// `encoded`, the head follows.
    pub fn decode(&self, target: Tensor, encoded: Tensor) -> (out: Result<Tensor, ShapeError>)
        ensures
            result_view(out) == self.decode_spec(target@, encoded@),
    {
        proof {
            use_type_invariant(self);
        }
        let hidden = self.decoder.forward((target, encoded))?;
        self.head.forward(hidden)
    }

    /// What generation starts from for sources of shape `input`: it takes
    /// one sequence at a time.
    pub open spec fn generate_spec(self, input: Seq<nat>) -> Result<Seq<nat>, ShapeError> {
        if input.len() != 2 || input[0] != 1 {
            Err(ShapeError::Mismatch)
        } else {
            self.encoder_view().forward_spec(input)
        }
    }

    /// Starts the generation of a target for the one source sequence
    /// `input`. Returns the shape of what the encoder makes of the source, to
    /// be handed to `decode` at each step, and the generation that takes the
    /// tokens.
    pub fn forward_generate(&self, input: Tensor, sos_index: i64, mode: InferenceMode) -> (r:
        Result<(Tensor, Generation), ShapeError>)
        ensures
            match r {
                Ok((encoded, generation)) => self.generate_spec(input@) == Ok::<
                    Seq<nat>,
                    ShapeError,
                >(encoded@) && generation@ == started(sos_index, mode),
                Err(e) => self.generate_spec(input@) == Err::<Seq<nat>, ShapeError>(e),
            },
    {
        proof {
            use_type_invariant(self);
        }
        if input.rank() != 2 || input.dim(0) != Some(1) {
            return Err(ShapeError::Mismatch);
        }
        let encoded_input = self.encoder.forward(input)?;
        Ok((encoded_input, Generation::start(sos_index, mode)))
    }

    /// The trainable elements of the model: those of the encoder, of the
    /// decoder and of the head.
    pub proof fn lemma_parameter_count(self)
        ensures
            trainable_elements(self.parameters_spec()) == trainable_elements(
                self.encoder_view().parameters_spec(),
            ) + trainable_elements(self.decoder_view().parameters_spec()) + linear_elements(
                self.encoder_view().n_embd(),
                self.head_size(),
            ),
    {
        let e = self.encoder_view().parameters_spec();
        let d = self.decoder_view().parameters_spec();
        let h = plain_linear_parameters(self.encoder_view().n_embd(), self.head_size());
        lemma_linear_elements(self.encoder_view().n_embd(), self.head_size());
        lemma_trainable_elements_concat(e, d);
        lemma_trainable_elements_concat(e + d, h);
    }
}

impl Module for Seq2SeqTransformer {
    type Input = (Tensor, Tensor);

    type Output = Tensor;

    open spec fn forward_spec(&self, input: (Seq<nat>, Seq<nat>)) -> Result<
        Seq<nat>,
        ShapeError,
    > {
        match self.encoder_view().forward_spec(input.0) {
            Ok(encoded) => self.decode_spec(input.1, encoded),
            Err(e) => Err(e),
        }
    }

    open spec fn parameters_spec(&self) -> Seq<ParameterView> {
        self.encoder_view().parameters_spec() + self.decoder_view().parameters_spec()
            + plain_linear_parameters(self.encoder_view().n_embd(), self.head_size())
    }

    open spec fn in_mode(&self, training: bool) -> bool {
        self.encoder_view().in_mode(training) && self.decoder_view().in_mode(training)
    }

    fn train(&mut self)
        ensures
            final(self).encoder_view().training(),
            final(self).decoder_view().training(),
            final(self).head_size() == old(self).head_size(),
    {
        proof {
            use_type_invariant(&*self);
        }
        let encoder = self.encoder.with_mode(true);
        let decoder = self.decoder.with_mode(true);
        *self = Seq2SeqTransformer { encoder, decoder, head: self.head };
    }

    fn eval(&mut self)
        ensures
            !final(self).encoder_view().training(),
            !final(self).decoder_view().training(),
            final(self).head_size() == old(self).head_size(),
    {
        proof {
            use_type_invariant(&*self);
        }
        let encoder = self.encoder.with_mode(false);
        let decoder = self.decoder.with_mode(false);
        *self = Seq2SeqTransformer { encoder, decoder, head: self.head };
    }

    fn forward(&self, pair: (Tensor, Tensor)) -> (out: Result<Tensor, ShapeError>) {
        let input = pair.0;
        let target = pair.1;
        proof {
            use_type_invariant(self);
            assert(pair@.0 == input@ && pair@.1 == target@);
        }
        let encoded_inputs = self.encoder.forward(input)?;
        self.decode(target, encoded_inputs)
    }

    fn parameters(&self) -> (params: Vec<Parameter>) {
        proof {
            use_type_invariant(self);
        }
        let mut params = self.encoder.parameters();
        let mut dec = self.decoder.parameters();
        let mut head = self.head.parameters();
        let ghost a = params@;
        let ghost b = dec@;
        let ghost c = head@;
        params.append(&mut dec);
        params.append(&mut head);
        assert(parameter_views(a + b + c) =~= parameter_views(a) + parameter_views(b)
            + parameter_views(c));
        params
    }
}

impl ModuleCopy for Seq2SeqTransformer {
    open spec fn copy_spec(&self, source: &Self) -> Result<(), CopyFailure> {
        match self.encoder_view().copy_spec(&source.encoder_view()) {
            Err(e) => Err(e),
            Ok(_) => match self.decoder_view().copy_spec(&source.decoder_view()) {
                Err(e) => Err(e),
                Ok(_) => if self.head_size() == source.head_size() {
                    Ok(())
                } else {
                    Err(CopyFailure::SizeMismatch)
                },
            },
        }
    }

    fn check_copy(&self, source: &Self) -> (r: Result<(), WeightCopyError>) {
        proof {
            use_type_invariant(self);
            use_type_invariant(source);
        }
        self.encoder.check_copy(&source.encoder)?;
        self.decoder.check_copy(&source.decoder)?;
        self.head.check_copy(&source.head)
    }
}

/// Where one sequence-to-sequence model can hand its weights to another,
/// the two own the same parameters.
pub proof fn lemma_seq2seq_copy(destination: Seq2SeqTransformer, source: Seq2SeqTransformer)
    requires
        destination.copy_spec(&source) is Ok,
    ensures
        destination.parameters_spec() == source.parameters_spec(),
{
}

} // verus!
