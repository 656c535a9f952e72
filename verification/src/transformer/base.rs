use vstd::prelude::*;
use crate::buffer::{buffer_of, masked_data, Buffer, BufferView};
use crate::error::{ShapeError, WeightCopyError};
use crate::linear::{linear_parameters, Linear};
use crate::module::{
    parameter_views, CopyFailure, Init, Module, ModuleCopy, Parameter, ParameterView,
};
use crate::other::{layer_norm_parameters, table_dims_ok, LayerNorm};
use crate::tensor::{
    checked_shape, element_count, lemma_count2, lemma_count3, lemma_count4,
    lemma_count_covers_axis, lemma_count_monotone, shape_of, Tensor,
};

verus! {

/// The kinds of positional encoding.
#[derive(Clone, Copy, Debug, PartialEq, Eq, Structural)]
pub enum PositionalEncoding {
    /// A table that is learned with the model.
    Learned,
    /// A table of sines, computed once.
    Sinusoidal,
    /// Rotation of the queries and keys. The rotation itself is not implemented.
    Rotary,
}

/// What a failed copy between two kinds of positional encoding says.
pub open spec fn wrong_encoding_text() -> Seq<char> {
    "Positional Encodings are of wrong type!"@
}

/// Shape of the positional signal for `batch` sequences of `seq_len` positions.
pub open spec fn position_shape(
    kind: PositionalEncoding,
    max_len: nat,
    n_embd: nat,
    batch: nat,
    seq_len: nat,
) -> Result<Seq<nat>, ShapeError> {
    if kind is Rotary {
        Err(ShapeError::NotImplemented)
    } else if seq_len > max_len {
        Err(ShapeError::OutOfRange)
    } else if batch == 0 || seq_len == 0 {
        Err(ShapeError::Invalid)
    } else if element_count(seq![batch, seq_len, n_embd]) > u64::MAX {
        Err(ShapeError::TooLarge)
    } else {
        Ok(seq![batch, seq_len, n_embd])
    }
}

/// The parameters of a positional encoding: the table where it is learned.
pub open spec fn position_parameters(kind: PositionalEncoding, max_len: nat, n_embd: nat) -> Seq<
    ParameterView,
> {
    if kind is Learned {
        seq![
            ParameterView {
                shape: seq![1, max_len, n_embd],
                init: Init::Normal { std_milli: 500 },
                trainable: true,
            },
        ]
    } else {
        Seq::empty()
    }
}

/// The positional encoding of a model: a learned table of one row for each
/// position, a fixed table of sines of that size, or the frequencies and
/// caches of a rotation.
#[derive(Clone, Copy, Debug)]
pub struct PositionTable {
    kind: PositionalEncoding,
    max_len: u64,
    n_embd: u64,
}

impl PositionTable {
    /// Every table that executable code can hold satisfies this.
    #[verifier::type_invariant]
    pub closed spec fn well_formed(self) -> bool {
        table_dims_ok(self.max_len as nat, self.n_embd as nat)
    }

    /// Which kind of encoding it is.
    pub closed spec fn kind(self) -> PositionalEncoding {
        self.kind
    }

    /// How many positions it has.
    pub closed spec fn max_len(self) -> nat {
        self.max_len as nat
    }

    /// The size of the vector for a position.
    pub closed spec fn n_embd(self) -> nat {
        self.n_embd as nat
    }

    /// The encoding of the kind `kind` for `max_len` positions and vectors
    /// of size `n_embd`.
    pub fn new(kind: PositionalEncoding, max_len: u64, n_embd: u64) -> (t: PositionTable)
        requires
            table_dims_ok(max_len as nat, n_embd as nat),
        ensures
            t.kind() == kind,
            t.max_len() == max_len,
            t.n_embd() == n_embd,
            t.well_formed(),
    {
        PositionTable { kind, max_len, n_embd }
    }

    /// A well-formed table has sizes from which it can be built.
    pub proof fn lemma_dims(self)
        requires
            self.well_formed(),
        ensures
            table_dims_ok(self.max_len(), self.n_embd()),
    {
    }

    /// How many positions it has.
    pub fn positions(&self) -> (n: u64)
        ensures
            n == self.max_len(),
    {
        self.max_len
    }

    /// The size of the vector for a position.
    pub fn width(&self) -> (n: u64)
        ensures
            n == self.n_embd(),
    {
        self.n_embd
    }

    /// Which kind of encoding it is.
    pub fn encoding(&self) -> (kind: PositionalEncoding)
        ensures
            kind == self.kind(),
    {
        self.kind
    }

    /// The table: one batch of `max_len` rows where it is learned, `max_len`
    /// rows where it is made of sines, and none for a rotation.
    pub fn table(&self) -> (t: Option<Tensor>)
        ensures
            self.kind() is Learned ==> t is Some && t->Some_0@ == seq![
                1,
                self.max_len(),
                self.n_embd(),
            ],
            self.kind() is Sinusoidal ==> t is Some && t->Some_0@ == seq![
                self.max_len(),
                self.n_embd(),
            ],
            self.kind() is Rotary ==> t is None,
    {
        proof {
            use_type_invariant(self);
            lemma_count2(self.max_len as nat, self.n_embd as nat);
            lemma_count3(1, self.max_len as nat, self.n_embd as nat);
            assert(1 * self.max_len as nat * self.n_embd as nat == self.max_len as nat
                * self.n_embd as nat) by (nonlinear_arith);
        }
        match self.kind {
            PositionalEncoding::Learned => {
                let d: [u64; 3] = [1, self.max_len, self.n_embd];
                assert(d@.map_values(|d: u64| d as nat) =~= seq![
                    1,
                    self.max_len as nat,
                    self.n_embd as nat,
                ]);
                Some(Tensor::with_dims(&d))
            },
            PositionalEncoding::Sinusoidal => Some(Tensor::matrix(self.max_len, self.n_embd)),
            PositionalEncoding::Rotary => None,
        }
    }

    /// The tensors of a rotation: the inverse frequencies and the two caches,
    /// each of one element until a rotation is carried out.
    pub fn rotary_tensors(&self) -> (t: Option<(Tensor, Tensor, Tensor)>)
        ensures
            t is Some == self.kind() is Rotary,
            t matches Some((inv_freq, cos_cached, sin_cached)) ==> inv_freq@ == seq![1nat]
                && cos_cached@ == seq![1nat] && sin_cached@ == seq![1nat],
    {
        match self.kind {
            PositionalEncoding::Rotary => Some(
                (Tensor::scalar(), Tensor::scalar(), Tensor::scalar()),
            ),
            _ => None,
        }
    }

    /// Shape of the positional signal for `batch` sequences of `seq_len`
    /// positions: the first `seq_len` rows of the table, once for each sequence.
    pub fn lookup(&self, batch: u64, seq_len: u64) -> (r: Result<Tensor, ShapeError>)
        ensures
            shape_of(r) == position_shape(
                self.kind(),
                self.max_len(),
                self.n_embd(),
                batch as nat,
                seq_len as nat,
            ),
    {
        proof {
            use_type_invariant(self);
        }
        let ghost want = seq![batch as nat, seq_len as nat, self.n_embd as nat];
        match self.kind {
            PositionalEncoding::Rotary => Err(ShapeError::NotImplemented),
            PositionalEncoding::Learned => {
                let table = match self.table() {
                    Some(t) => t,
                    None => {
                        return Err(ShapeError::NotImplemented);
                    },
                };
                let rows = table.narrow(1, seq_len)?;
                let out = rows.repeat(0, batch);
                proof {
                    assert(table@.update(1, seq_len as nat).update(0, batch as nat) =~= want);
                }
                out
            },
            PositionalEncoding::Sinusoidal => {
                let table = match self.table() {
                    Some(t) => t,
                    None => {
                        return Err(ShapeError::NotImplemented);
                    },
                };
                let rows = table.narrow(0, seq_len)?;
                let one = rows.unsqueeze_start()?;
                let out = one.repeat(0, batch);
                proof {
                    assert((seq![1nat] + table@.update(0, seq_len as nat)).update(0, batch as nat)
                        =~= want);
                }
                out
            },
        }
    }

    /// The parameters: the table where it is learned.
    pub fn parameters(&self) -> (params: Vec<Parameter>)
        ensures
            parameter_views(params@) == position_parameters(
                self.kind(),
                self.max_len(),
                self.n_embd(),
            ),
    {
        let mut params: Vec<Parameter> = Vec::new();
        match self.kind {
            PositionalEncoding::Learned => {
                if let Some(t) = self.table() {
                    params.push(
                        Parameter {
                            shape: t,
                            init: Init::Normal { std_milli: 500 },
                            trainable: true,
                        },
                    );
                }
            },
            _ => {},
        }
        assert(parameter_views(params@) =~= position_parameters(
            self.kind(),
            self.max_len(),
            self.n_embd(),
        ));
        params
    }
}

impl ModuleCopy for PositionTable {
    open spec fn copy_spec(&self, source: &Self) -> Result<(), CopyFailure> {
        if self.kind() != source.kind() {
            Err(CopyFailure::Other(wrong_encoding_text()))
        } else if !(self.kind() is Rotary) && (self.max_len() != source.max_len() || self.n_embd()
            != source.n_embd()) {
            Err(CopyFailure::SizeMismatch)
        } else {
            Ok(())
        }
    }

    fn check_copy(&self, source: &Self) -> (r: Result<(), WeightCopyError>) {
        proof {
            use_type_invariant(self);
            use_type_invariant(source);
        }
        match (self.table(), source.table()) {
            (Some(t), Some(s)) => {
                if self.kind != source.kind {
                    return Err(
                        WeightCopyError::Other(
                            "Positional Encodings are of wrong type!".to_owned(),
                        ),
                    );
                }
                if !s.same_shape(&t) {
                    proof {
                        if self.max_len == source.max_len && self.n_embd == source.n_embd {
                            assert(s@ =~= t@);
                        }
                    }
                    return Err(WeightCopyError::SizeMismatch);
                }
                proof {
                    if self.kind is Learned {
                        assert(s@[1] == t@[1] && s@[2] == t@[2]);
                    } else {
                        assert(s@[0] == t@[0] && s@[1] == t@[1]);
                    }
                }
                Ok(())
            },
            (None, None) => Ok(()),
            _ => Err(
                WeightCopyError::Other("Positional Encodings are of wrong type!".to_owned()),
            ),
        }
    }
}

/// Whether the position `query` may look at the position `key` when the
/// future is masked: at itself and at what came before.
pub open spec fn may_attend(query: int, key: int) -> bool {
    key <= query
}

/// The causal mask for `size` positions, row by row: entry `key` of row
/// `query` says whether the query may look at the key.
pub fn causal_mask(size: usize) -> (mask: Vec<Vec<bool>>)
    ensures
        mask@.len() == size,
        forall|q: int| 0 <= q < size ==> (#[trigger] mask@[q])@.len() == size,
        forall|q: int, k: int|
            0 <= q < size && 0 <= k < size ==> (#[trigger] mask@[q]@[k]) == may_attend(q, k),
{
    let mut mask: Vec<Vec<bool>> = Vec::new();
    let mut q: usize = 0;
    while q < size
        invariant
            q <= size,
            mask@.len() == q,
            forall|i: int| 0 <= i < q ==> (#[trigger] mask@[i])@.len() == size,
            forall|i: int, k: int|
                0 <= i < q && 0 <= k < size ==> (#[trigger] mask@[i]@[k]) == may_attend(i, k),
        decreases size - q,
    {
        let mut row: Vec<bool> = Vec::new();
        let mut k: usize = 0;
        while k < size
            invariant
                k <= size,
                q < size,
                row@.len() == k,
                forall|j: int| 0 <= j < k ==> (#[trigger] row@[j]) == may_attend(q as int, j),
            decreases size - k,
        {
            row.push(k <= q);
            k = k + 1;
        }
        mask.push(row);
        q = q + 1;
    }
    mask
}

/// Scores after `value` took the place of each one whose key lies after its
/// query. Along the last two axes, both `size` long, the rows are the queries
/// and the columns the keys.
pub open spec fn causal_data<T>(scores: Seq<T>, size: nat, value: T) -> Seq<T> {
    Seq::new(
        scores.len(),
        |i: int|
            if may_attend((i / size as int) % size as int, i % size as int) {
                scores[i]
            } else {
                value
            },
    )
}

/// The score tensor with the future masked; its last two axes must be
/// equally long.
pub open spec fn causal_view<T>(v: BufferView<T>, value: T) -> Result<BufferView<T>, ShapeError> {
    let n = v.shape.len();
    if n < 2 || v.shape[n - 1] != v.shape[n - 2] {
        Err(ShapeError::Mismatch)
    } else {
        Ok(BufferView { shape: v.shape, data: causal_data(v.data, v.shape[n - 1], value) })
    }
}

/// Puts `value` in the place of every score whose key lies after its query.
pub fn mask_future<T: Copy>(scores: &Buffer<T>, value: T) -> (r: Result<Buffer<T>, ShapeError>)
    ensures
        buffer_of(r) == causal_view(scores@, value),
{
    let shape = scores.shape();
    let rank = shape.rank();
    if rank < 2 {
        return Err(ShapeError::Mismatch);
    }
    let last = shape.last_dim();
    if shape.dim(rank - 2) != Some(last) {
        return Err(ShapeError::Mismatch);
    }
    let n = scores.data().len();
    proof {
        use_type_invariant(scores);
        use_type_invariant(&shape);
        scores.lemma_filled();
        shape.lemma_valid();
        lemma_count_covers_axis(shape@, rank - 1);
    }
    let mask = causal_mask(last as usize);
    let out = scores.masked_fill(&mask, value);
    proof {
        let size = last as nat;
        assert forall|q: int| 0 <= q < size implies (#[trigger] mask@[q])@.len() == size by {}
        assert forall|i: int| 0 <= i < scores@.data.len() implies masked_data(
            scores@.data,
            mask@,
            size,
            value,
        )[i] == causal_data(scores@.data, size, value)[i] by {
            let q = (i / size as int) % size as int;
            let k = i % size as int;
            assert(mask@[q]@[k] == may_attend(q, k));
        }
        assert(masked_data(scores@.data, mask@, size, value) =~= causal_data(
            scores@.data,
            size,
            value,
        ));
    }
    out
}

/// With the future masked, the scores say nothing of the keys that lie after
/// a query: two score tensors of one shape that agree wherever the key does
/// not lie after the query are the same tensor once they are masked.
pub proof fn lemma_future_is_hidden<T>(a: BufferView<T>, b: BufferView<T>, value: T)
    requires
        a.shape == b.shape,
        a.data.len() == b.data.len(),
        a.shape.len() >= 2,
        a.shape[a.shape.len() - 1] == a.shape[a.shape.len() - 2],
        forall|i: int|
            0 <= i < a.data.len() && may_attend(
                (i / a.shape.last() as int) % a.shape.last() as int,
                i % a.shape.last() as int,
            ) ==> a.data[i] == b.data[i],
    ensures
        causal_view(a, value) is Ok,
        causal_view(a, value) == causal_view(b, value),
{
    let size = a.shape.last();
    assert(causal_data(a.data, size, value) =~= causal_data(b.data, size, value));
}

/// The sizes from which an attention layer can be built: the heads share the
/// embedding evenly.
pub open spec fn attention_dims_ok(n_embd: nat, n_head: nat) -> bool {
    n_head >= 1 && n_embd >= 1 && n_embd % n_head == 0 && n_embd * n_embd <= u64::MAX
}

/// Shape of the attention scores: for each sequence and head, one row for
/// each query and one column for each key.
pub open spec fn score_shape(batch: nat, n_head: nat, queries: nat, keys: nat) -> Seq<nat> {
    seq![batch, n_head, queries, keys]
}

/// Shape after self-attention over sequences of embeddings.
pub open spec fn attention_shape(x: Seq<nat>, n_embd: nat, n_head: nat) -> Result<
    Seq<nat>,
    ShapeError,
> {
    if x.len() != 3 || x[2] != n_embd {
        Err(ShapeError::Mismatch)
    } else if element_count(score_shape(x[0], n_head, x[1], x[1])) > u64::MAX {
        Err(ShapeError::TooLarge)
    } else {
        Ok(x)
    }
}

/// A linear layer from `n` to `m` as `Linear::new` makes it.
pub open spec fn plain_linear(l: Linear, n: nat, m: nat) -> bool {
    &&& l.well_formed()
    &&& l.in_dim() == n
    &&& l.out_dim() == m
    &&& l.ws_init() == (Init::Normal { std_milli: 20 })
    &&& l.bs_init() == Init::Zeros
    &&& l.bias_trainable()
}

/// The parameters of a linear layer from `n` to `m` as `Linear::new` makes it.
pub open spec fn plain_linear_parameters(n: nat, m: nat) -> Seq<ParameterView> {
    linear_parameters(n, m, Init::Normal { std_milli: 20 }, Init::Zeros, true)
}

/// The parameters of an attention layer: key, query, value and output
/// projection, each with weight and bias.
pub open spec fn attention_parameters(n_embd: nat) -> Seq<ParameterView> {
    plain_linear_parameters(n_embd, n_embd) + plain_linear_parameters(n_embd, n_embd)
        + plain_linear_parameters(n_embd, n_embd) + plain_linear_parameters(n_embd, n_embd)
}

/// Heads that share an embedding evenly make it up between them.
pub proof fn lemma_heads(n_embd: nat, n_head: nat)
    requires
        n_head >= 1,
        n_embd >= 1,
        n_embd % n_head == 0,
    ensures
        n_head * (n_embd / n_head) == n_embd,
        n_embd / n_head >= 1,
{
    assert(n_head * (n_embd / n_head) == n_embd && n_embd / n_head >= 1) by (nonlinear_arith)
        requires
            n_head >= 1,
            n_embd >= 1,
            n_embd % n_head == 0,
    ;
}

/// Splitting the embeddings of a batch of sequences into heads keeps the
/// number of elements.
pub proof fn lemma_split_heads(b: nat, t: nat, h: nat, d: nat, c: nat)
    requires
        h * d == c,
    ensures
        element_count(seq![b, t, h, d]) == element_count(seq![b, t, c]),
        element_count(seq![b, h, t, d]) == element_count(seq![b, t, c]),
{
    lemma_count4(b, t, h, d);
    lemma_count4(b, h, t, d);
    lemma_count3(b, t, c);
    assert(b * t * h * d == b * t * (h * d)) by (nonlinear_arith);
    assert(b * h * t * d == b * t * (h * d)) by (nonlinear_arith);
}

/// Scaled dot-product attention of a sequence over itself, with several
/// heads, and with the future masked where it is causal.
#[derive(Clone, Copy, Debug)]
pub struct SelfAttention {
    n_head: u64,
    n_embd: u64,
    key: Linear,
    query: Linear,
    value: Linear,
    proj: Linear,
    train: bool,
    causal_mask: bool,
}

impl SelfAttention {
    /// Every attention layer that executable code can hold satisfies this.
    #[verifier::type_invariant]
    pub closed spec fn well_formed(self) -> bool {
        &&& attention_dims_ok(self.n_embd as nat, self.n_head as nat)
        &&& plain_linear(self.key, self.n_embd as nat, self.n_embd as nat)
        &&& plain_linear(self.query, self.n_embd as nat, self.n_embd as nat)
        &&& plain_linear(self.value, self.n_embd as nat, self.n_embd as nat)
        &&& plain_linear(self.proj, self.n_embd as nat, self.n_embd as nat)
    }

    /// The size of an embedding.
    pub closed spec fn n_embd(self) -> nat {
        self.n_embd as nat
    }

    /// The number of heads.
    pub closed spec fn n_head(self) -> nat {
        self.n_head as nat
    }

    /// Whether the future is masked.
    pub closed spec fn causal(self) -> bool {
        self.causal_mask
    }

    /// Whether the layer is in training.
    pub closed spec fn training(self) -> bool {
        self.train
    }

    /// Whether an attention layer of these sizes can be built.
    pub fn dims_ok(n_embd: u64, n_head: u64) -> (ok: bool)
        ensures
            ok == attention_dims_ok(n_embd as nat, n_head as nat),
    {
        n_head >= 1 && n_embd >= 1 && n_embd % n_head == 0 && n_embd.checked_mul(n_embd).is_some()
    }

    /// An attention layer over embeddings of size `n_embd` with `n_head`
    /// heads, in training.
    pub fn new(n_embd: u64, n_head: u64, causal_mask: bool) -> (a: SelfAttention)
        requires
            attention_dims_ok(n_embd as nat, n_head as nat),
        ensures
            a.n_embd() == n_embd,
            a.n_head() == n_head,
            a.causal() == causal_mask,
            a.training(),
            a.well_formed(),
    {
        SelfAttention {
            n_embd,
            n_head,
            key: Linear::new(n_embd, n_embd),
            query: Linear::new(n_embd, n_embd),
            value: Linear::new(n_embd, n_embd),
            proj: Linear::new(n_embd, n_embd),
            train: true,
            causal_mask,
        }
    }

    /// Shape of the causal mask for `size` positions: one mask for all
    /// sequences and heads.
    pub fn generate_mask(size: u64) -> (r: Result<Tensor, ShapeError>)
        ensures
            shape_of(r) == checked_shape(score_shape(1, 1, size as nat, size as nat)),
    {
        let d: [u64; 4] = [1, 1, size, size];
        assert(d@.map_values(|d: u64| d as nat) =~= score_shape(1, 1, size as nat, size as nat));
        Tensor::new(&d)
    }

    /// Whether the future is masked.
    pub fn is_causal(&self) -> (causal: bool)
        ensures
            causal == self.causal(),
    {
        self.causal_mask
    }

    /// Whether the layer is in training.
    pub fn is_training(&self) -> (training: bool)
        ensures
            training == self.training(),
    {
        self.train
    }

    /// The number of heads.
    pub fn heads(&self) -> (n: u64)
        ensures
            n == self.n_head(),
    {
        self.n_head
    }

    /// The size of an embedding.
    pub fn width(&self) -> (n: u64)
        ensures
            n == self.n_embd(),
    {
        self.n_embd
    }

    fn split_heads(&self, x: Tensor) -> (r: Result<Tensor, ShapeError>)
        requires
            x@.len() == 3,
            x@[2] == self.n_embd(),
        ensures
            shape_of(r) == Ok::<Seq<nat>, ShapeError>(
                seq![x@[0], self.n_head(), x@[1], self.n_embd() / self.n_head()],
            ),
    {
        proof {
            use_type_invariant(self);
            use_type_invariant(&x);
            x.lemma_valid();
            lemma_heads(self.n_embd as nat, self.n_head as nat);
        }
        let b = match x.dim(0) {
            Some(d) => d,
            None => {
                return Err(ShapeError::Mismatch);
            },
        };
        let t = match x.dim(1) {
            Some(d) => d,
            None => {
                return Err(ShapeError::Mismatch);
            },
        };
        let sizes: [u64; 4] = [b, t, self.n_head, self.n_embd / self.n_head];
        let ghost d = (self.n_embd / self.n_head) as nat;
        proof {
            let want = seq![b as nat, t as nat, self.n_head as nat, d];
            assert(sizes@.map_values(|d: u64| d as nat) =~= want);
            lemma_split_heads(b as nat, t as nat, self.n_head as nat, d, self.n_embd as nat);
            assert(x@ =~= seq![b as nat, t as nat, self.n_embd as nat]);
        }
        let split = x.reshape(&sizes)?;
        let out = split.transpose(1, 2);
        proof {
            let want = seq![b as nat, t as nat, self.n_head as nat, d];
            assert(want.update(1, want[2]).update(2, want[1]) =~= seq![
                b as nat,
                self.n_head as nat,
                t as nat,
                d,
            ]);
        }
        out
    }
}

impl Module for SelfAttention {
    type Input = Tensor;

    type Output = Tensor;

    open spec fn forward_spec(&self, input: Seq<nat>) -> Result<Seq<nat>, ShapeError> {
        attention_shape(input, self.n_embd(), self.n_head())
    }

    open spec fn parameters_spec(&self) -> Seq<ParameterView> {
        attention_parameters(self.n_embd())
    }

    open spec fn in_mode(&self, training: bool) -> bool {
        self.training() == training
    }

    fn train(&mut self)
        ensures
            final(self).training(),
            final(self).n_embd() == old(self).n_embd(),
            final(self).n_head() == old(self).n_head(),
            final(self).causal() == old(self).causal(),
    {
        proof {
            use_type_invariant(&*self);
        }
        self.train = true;
    }

    fn eval(&mut self)
        ensures
            !final(self).training(),
            final(self).n_embd() == old(self).n_embd(),
            final(self).n_head() == old(self).n_head(),
            final(self).causal() == old(self).causal(),
    {
        proof {
            use_type_invariant(&*self);
        }
        self.train = false;
    }

    fn forward(&self, input: Tensor) -> (out: Result<Tensor, ShapeError>) {
        proof {
            use_type_invariant(self);
            use_type_invariant(&input);
            input.lemma_valid();
            lemma_heads(self.n_embd as nat, self.n_head as nat);
        }
        if input.rank() != 3 {
            return Err(ShapeError::Mismatch);
        }
        let ghost x = input@;
        let ghost b = x[0];
        let ghost t = x[1];
        let ghost h = self.n_head as nat;
        let ghost c = self.n_embd as nat;
        let ghost d = c / h;
        proof {
            assert(x =~= seq![b, t, x[2]]);
            if x[2] == c {
                assert(x.drop_last().push(c) =~= x);
            }
        }
        let k = self.split_heads(self.key.forward(input)?)?;
        let q = self.split_heads(self.query.forward(input)?)?;
        let v = self.split_heads(self.value.forward(input)?)?;
        let kt = k.transpose(2, 3)?;
        proof {
            assert(kt@ =~= seq![b, h, d, t]);
            assert(q@.drop_last().push(kt@.last()) =~= score_shape(b, h, t, t));
        }
        let mut att = q.matmul(&kt)?;
        if self.causal_mask {
            let sz_t = match input.dim(1) {
                Some(n) => n,
                None => {
                    return Err(ShapeError::Mismatch);
                },
            };
            proof {
                lemma_count_monotone(score_shape(1, 1, t, t), score_shape(b, h, t, t));
            }
            let mask = SelfAttention::generate_mask(sz_t)?;
            att = att.masked_fill(&mask)?;
        }
        proof {
            assert(att@.drop_last().push(v@.last()) =~= seq![b, h, t, d]);
            lemma_split_heads(b, t, h, d, c);
        }
        let ys = att.matmul(&v)?;
        let merged = ys.transpose(1, 2)?;
        proof {
            assert(merged@ =~= seq![b, t, h, d]);
        }
        let sizes: [u64; 3] = [
            match input.dim(0) {
                Some(n) => n,
                None => 1,
            },
            match input.dim(1) {
                Some(n) => n,
                None => 1,
            },
            self.n_embd,
        ];
        proof {
            assert(sizes@.map_values(|d: u64| d as nat) =~= x);
        }
        let flat = merged.reshape(&sizes)?;
        self.proj.forward(flat)
    }

    fn parameters(&self) -> (params: Vec<Parameter>) {
        proof {
            use_type_invariant(self);
        }
        let mut params = self.key.parameters();
        let mut q = self.query.parameters();
        let mut v = self.value.parameters();
        let mut p = self.proj.parameters();
        let ghost a = params@;
        let ghost b = q@;
        let ghost c = v@;
        let ghost d = p@;
        params.append(&mut q);
        params.append(&mut v);
        params.append(&mut p);
        assert(parameter_views(a + b + c + d) =~= parameter_views(a) + parameter_views(b)
            + parameter_views(c) + parameter_views(d));
        params
    }
}

impl ModuleCopy for SelfAttention {
    open spec fn copy_spec(&self, source: &Self) -> Result<(), CopyFailure> {
        if self.n_embd() == source.n_embd() {
            Ok(())
        } else {
            Err(CopyFailure::SizeMismatch)
        }
    }

    fn check_copy(&self, source: &Self) -> (r: Result<(), WeightCopyError>) {
        proof {
            use_type_invariant(self);
            use_type_invariant(source);
        }
        self.key.check_copy(&source.key)?;
        self.query.check_copy(&source.query)?;
        self.value.check_copy(&source.value)?;
        self.proj.check_copy(&source.proj)?;
        Ok(())
    }
}

/// The sizes from which a transformer block can be built.
pub open spec fn block_dims_ok(n_embd: nat, n_head: nat) -> bool {
    attention_dims_ok(n_embd, n_head) && 2 * n_embd * n_embd <= u64::MAX
}

/// Shape after a transformer block over sequences of embeddings.
pub open spec fn block_shape(x: Seq<nat>, n_embd: nat, n_head: nat) -> Result<
    Seq<nat>,
    ShapeError,
> {
    if x.len() != 3 || x[2] != n_embd {
        Err(ShapeError::Mismatch)
    } else if element_count(score_shape(x[0], n_head, x[1], x[1])) > u64::MAX || element_count(
        seq![x[0], x[1], 2 * n_embd],
    ) > u64::MAX {
        Err(ShapeError::TooLarge)
    } else {
        Ok(x)
    }
}

/// The parameters of a normalisation over embeddings with scale and shift.
pub open spec fn norm_parameters(n_embd: nat) -> Seq<ParameterView> {
    layer_norm_parameters(seq![n_embd], true, true)
}

/// The parameters of a transformer block: the two normalisations, the
/// attention, and the two layers of the feed-forward part.
pub open spec fn block_parameters(n_embd: nat) -> Seq<ParameterView> {
    norm_parameters(n_embd) + norm_parameters(n_embd) + attention_parameters(n_embd)
        + plain_linear_parameters(n_embd, 2 * n_embd) + plain_linear_parameters(
        2 * n_embd,
        n_embd,
    )
}

/// A normalisation over embeddings of size `n` with scale and shift.
pub open spec fn embedding_norm(l: LayerNorm, n: nat) -> bool {
    l.well_formed() && l.normalized() == seq![n] && l.has_scale() && l.has_shift()
}

/// The last axis of `x` has size `n` exactly when `x` ends with the axis `n`.
pub proof fn lemma_ends_with_one(x: Seq<nat>, n: nat)
    requires
        x.len() >= 1,
    ensures
        crate::other::ends_with(x, seq![n]) <==> x.last() == n,
{
    let tail = x.subrange(x.len() - 1, x.len() as int);
    assert(tail.len() == 1);
    assert(tail[0] == x.last());
    if x.last() == n {
        assert(tail =~= seq![n]);
    }
}

/// One block of a transformer encoder: attention and a feed-forward part,
/// each behind a normalisation and each added to what came in.
#[derive(Clone, Copy, Debug)]
pub struct TransformerBlock {
    norm1: LayerNorm,
    norm2: LayerNorm,
    attn: SelfAttention,
    linear1: Linear,
    linear2: Linear,
    train: bool,
}

impl TransformerBlock {
    /// Every block that executable code can hold satisfies this.
    #[verifier::type_invariant]
    pub closed spec fn well_formed(self) -> bool {
        &&& self.attn.well_formed()
        &&& self.attn.training() == self.train
        &&& block_dims_ok(self.attn.n_embd(), self.attn.n_head())
        &&& embedding_norm(self.norm1, self.attn.n_embd())
        &&& embedding_norm(self.norm2, self.attn.n_embd())
        &&& plain_linear(self.linear1, self.attn.n_embd(), 2 * self.attn.n_embd())
        &&& plain_linear(self.linear2, 2 * self.attn.n_embd(), self.attn.n_embd())
    }

    /// The size of an embedding.
    pub closed spec fn n_embd(self) -> nat {
        self.attn.n_embd()
    }

    /// The number of heads.
    pub closed spec fn n_head(self) -> nat {
        self.attn.n_head()
    }

    /// Whether the future is masked.
    pub closed spec fn causal(self) -> bool {
        self.attn.causal()
    }

    /// Whether the block, and with it its attention, is in training.
    pub closed spec fn training(self) -> bool {
        self.train
    }

    /// Whether a block of these sizes can be built.
    pub fn dims_ok(n_embd: u64, n_head: u64) -> (ok: bool)
        ensures
            ok == block_dims_ok(n_embd as nat, n_head as nat),
    {
        if !SelfAttention::dims_ok(n_embd, n_head) {
            return false;
        }
        match n_embd.checked_mul(n_embd) {
            None => false,
            Some(sq) => {
                assert(2 * n_embd * n_embd == 2 * (n_embd * n_embd)) by (nonlinear_arith);
                sq.checked_mul(2).is_some()
            },
        }
    }

    /// A block over embeddings of size `n_embd` with `n_head` heads, in training.
    pub fn new(n_embd: u64, n_head: u64, causal_mask: bool) -> (b: TransformerBlock)
        requires
            block_dims_ok(n_embd as nat, n_head as nat),
        ensures
            b.n_embd() == n_embd,
            b.n_head() == n_head,
            b.causal() == causal_mask,
            b.training(),
            b.well_formed(),
    {
        proof {
            assert(n_embd * (2 * n_embd) == 2 * n_embd * n_embd) by (nonlinear_arith);
            assert((2 * n_embd) * n_embd == 2 * n_embd * n_embd) by (nonlinear_arith);
            assert(2 * n_embd <= 2 * n_embd * n_embd) by (nonlinear_arith)
                requires
                    n_embd >= 1,
            ;
        }
        let shape = Tensor::vector(n_embd);
        TransformerBlock {
            norm1: LayerNorm::new(shape),
            norm2: LayerNorm::new(shape),
            attn: SelfAttention::new(n_embd, n_head, causal_mask),
            linear1: Linear::new(n_embd, 2 * n_embd),
            linear2: Linear::new(2 * n_embd, n_embd),
            train: true,
        }
    }

    /// The attention of the block.
    pub fn attention(&self) -> (a: SelfAttention)
        ensures
            a.n_embd() == self.n_embd(),
            a.n_head() == self.n_head(),
            a.causal() == self.causal(),
            a.training() == self.training(),
    {
        proof {
            use_type_invariant(self);
        }
        self.attn
    }

    /// Whether the block is in training.
    pub fn is_training(&self) -> (training: bool)
        ensures
            training == self.training(),
    {
        self.train
    }

}

impl Module for TransformerBlock {
    type Input = Tensor;

    type Output = Tensor;

    open spec fn forward_spec(&self, input: Seq<nat>) -> Result<Seq<nat>, ShapeError> {
        block_shape(input, self.n_embd(), self.n_head())
    }

    open spec fn parameters_spec(&self) -> Seq<ParameterView> {
        block_parameters(self.n_embd())
    }

    open spec fn in_mode(&self, training: bool) -> bool {
        self.training() == training
    }

    fn train(&mut self)
        ensures
            final(self).training(),
            final(self).n_embd() == old(self).n_embd(),
            final(self).n_head() == old(self).n_head(),
            final(self).causal() == old(self).causal(),
    {
        proof {
            use_type_invariant(&*self);
        }
        let mut attn = self.attn;
        attn.train();
        proof {
            use_type_invariant(&attn);
        }
        *self = TransformerBlock {
            norm1: self.norm1,
            norm2: self.norm2,
            attn,
            linear1: self.linear1,
            linear2: self.linear2,
            train: true,
        };
    }

    fn eval(&mut self)
        ensures
            !final(self).training(),
            final(self).n_embd() == old(self).n_embd(),
            final(self).n_head() == old(self).n_head(),
            final(self).causal() == old(self).causal(),
    {
        proof {
            use_type_invariant(&*self);
        }
        let mut attn = self.attn;
        attn.eval();
        proof {
            use_type_invariant(&attn);
        }
        *self = TransformerBlock {
            norm1: self.norm1,
            norm2: self.norm2,
            attn,
            linear1: self.linear1,
            linear2: self.linear2,
            train: false,
        };
    }

    fn forward(&self, input: Tensor) -> (out: Result<Tensor, ShapeError>) {
        proof {
            use_type_invariant(self);
            use_type_invariant(&input);
            input.lemma_valid();
            lemma_ends_with_one(input@, self.n_embd());
        }
        let ghost x = input@;
        let ghost c = self.n_embd();
        let normed = self.norm1.forward(input)?;
        let attended = self.attn.forward(normed)?;
        let x1 = input.add(&attended)?;
        let normed2 = self.norm2.forward(x1)?;
        proof {
            assert(x =~= seq![x[0], x[1], x[2]]);
            assert(x.drop_last().push(2 * c) =~= seq![x[0], x[1], 2 * c]);
        }
        let hidden = self.linear1.forward(normed2)?.gelu();
        proof {
            assert(hidden@.drop_last().push(c) =~= x);
        }
        let ys = self.linear2.forward(hidden)?;
        x1.add(&ys)
    }

    fn parameters(&self) -> (params: Vec<Parameter>) {
        proof {
            use_type_invariant(self);
        }
        let mut params = self.norm1.parameters();
        let mut n2 = self.norm2.parameters();
        let mut at = self.attn.parameters();
        let mut l1 = self.linear1.parameters();
        let mut l2 = self.linear2.parameters();
        let ghost a = params@;
        let ghost b = n2@;
        let ghost c = at@;
        let ghost d = l1@;
        let ghost e = l2@;
        params.append(&mut n2);
        params.append(&mut at);
        params.append(&mut l1);
        params.append(&mut l2);
        assert(parameter_views(a + b + c + d + e) =~= parameter_views(a) + parameter_views(b)
            + parameter_views(c) + parameter_views(d) + parameter_views(e));
        params
    }
}

impl ModuleCopy for TransformerBlock {
    open spec fn copy_spec(&self, source: &Self) -> Result<(), CopyFailure> {
        if self.n_embd() == source.n_embd() {
            Ok(())
        } else {
            Err(CopyFailure::SizeMismatch)
        }
    }

    fn check_copy(&self, source: &Self) -> (r: Result<(), WeightCopyError>) {
        proof {
            use_type_invariant(self);
            use_type_invariant(source);
        }
        self.attn.check_copy(&source.attn)?;
        self.norm1.check_copy(&source.norm1)?;
        self.norm2.check_copy(&source.norm2)?;
        self.linear1.check_copy(&source.linear1)?;
        self.linear2.check_copy(&source.linear2)
    }
}

/// Where one block can hand its weights to another, the two own the same
/// parameters.
pub proof fn lemma_block_copy(destination: TransformerBlock, source: TransformerBlock)
    requires
        destination.copy_spec(&source) is Ok,
    ensures
        destination.parameters_spec() == source.parameters_spec(),
{
}

} // verus!
