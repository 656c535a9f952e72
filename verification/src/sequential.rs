use vstd::prelude::*;
use crate::error::ShapeError;
use crate::module::{
    lemma_trainable_elements_concat, parameter_views, trainable_elements, Module,
    Parameter, ParameterView,
};
use crate::tensor::Tensor;

verus! {

/// Two modules in a row: the second takes what the first gives.
#[derive(Debug)]
pub struct Connector<M1: Module, M2: Module<Input = M1::Output>> {
    module1: M1,
    module2: M2,
}

impl<M1: Module, M2: Module<Input = M1::Output>> Connector<M1, M2> {
    /// The module that comes first.
    pub closed spec fn first(self) -> M1 {
        self.module1
    }

    /// The module that comes second.
    pub closed spec fn second(self) -> M2 {
        self.module2
    }

    /// `module1`, then `module2`.
    pub fn new(module1: M1, module2: M2) -> (c: Self)
        ensures
            c.first() == module1,
            c.second() == module2,
    {
        Connector { module1, module2 }
    }

    /// The trainable elements of the row are those of its two modules together.
    pub proof fn lemma_parameter_count(self)
        ensures
            trainable_elements(self.parameters_spec()) == trainable_elements(
                self.first().parameters_spec(),
            ) + trainable_elements(self.second().parameters_spec()),
    {
        lemma_trainable_elements_concat(
            self.first().parameters_spec(),
            self.second().parameters_spec(),
        );
    }
}

impl<M1: Module, M2: Module<Input = M1::Output>> Module for Connector<M1, M2> {
    type Input = M1::Input;

    type Output = M2::Output;

    open spec fn forward_spec(&self, input: <M1::Input as View>::V) -> Result<
        <M2::Output as View>::V,
        ShapeError,
    > {
        match self.first().forward_spec(input) {
            Ok(between) => self.second().forward_spec(between),
            Err(e) => Err(e),
        }
    }

    open spec fn parameters_spec(&self) -> Seq<ParameterView> {
        self.first().parameters_spec() + self.second().parameters_spec()
    }

    open spec fn in_mode(&self, training: bool) -> bool {
        self.first().in_mode(training) && self.second().in_mode(training)
    }

    fn train(&mut self) {
        self.module1.train();
        self.module2.train();
    }

    fn eval(&mut self) {
        self.module1.eval();
        self.module2.eval();
    }

    fn forward(&self, input: M1::Input) -> (out: Result<M2::Output, ShapeError>) {
        let between = self.module1.forward(input)?;
        self.module2.forward(between)
    }

    fn parameters(&self) -> (params: Vec<Parameter>) {
        let mut params = self.module1.parameters();
        let mut more = self.module2.parameters();
        let ghost a = params@;
        let ghost b = more@;
        params.append(&mut more);
        assert(parameter_views(a + b) =~= parameter_views(a) + parameter_views(b));
        params
    }
}

/// What a row of layers makes of an input of shape `x`: each layer takes
/// what the one before it gives, and the first error ends the row.
pub open spec fn chained<M: Module<Input = Tensor, Output = Tensor>>(
    layers: Seq<M>,
    x: Seq<nat>,
) -> Result<Seq<nat>, ShapeError>
    decreases layers.len(),
{
    if layers.len() == 0 {
        Ok(x)
    } else {
        match chained(layers.drop_last(), x) {
            Ok(between) => layers.last().forward_spec(between),
            Err(e) => Err(e),
        }
    }
}

/// The parameters of a row of layers: those of the first layer, then those
/// of the second, and so on.
pub open spec fn chained_parameters<M: Module<Input = Tensor, Output = Tensor>>(
    layers: Seq<M>,
) -> Seq<ParameterView>
    decreases layers.len(),
{
    if layers.len() == 0 {
        Seq::empty()
    } else {
        chained_parameters(layers.drop_last()) + layers.last().parameters_spec()
    }
}

/// Any number of layers in a row, each from tensor to tensor.
#[derive(Debug)]
pub struct Sequential<M: Module<Input = Tensor, Output = Tensor>> {
    layers: Vec<M>,
}

impl<M: Module<Input = Tensor, Output = Tensor>> View for Sequential<M> {
    type V = Seq<M>;

    closed spec fn view(&self) -> Seq<M> {
        self.layers@
    }
}

impl<M: Module<Input = Tensor, Output = Tensor>> Sequential<M> {
    /// The empty row: it gives back what it takes.
    pub fn new() -> (s: Self)
        ensures
            s@ == Seq::<M>::empty(),
    {
        Sequential { layers: Vec::new() }
    }

    /// Puts `layer` at the end of the row.
    pub fn push(&mut self, layer: M)
        ensures
            final(self)@ == old(self)@.push(layer),
    {
        self.layers.push(layer);
    }

    /// How many layers the row has.
    pub fn len(&self) -> (n: usize)
        ensures
            n == self@.len(),
    {
        self.layers.len()
    }

    /// The layers, first layer first.
    pub fn layers(&self) -> (layers: &Vec<M>)
        ensures
            layers@ == self@,
    {
        &self.layers
    }

    /// The trainable elements of a row with one more layer are those of the
    /// row and those of the layer together.
    pub proof fn lemma_parameter_count(layers: Seq<M>)
        requires
            layers.len() > 0,
        ensures
            trainable_elements(chained_parameters(layers)) == trainable_elements(
                chained_parameters(layers.drop_last()),
            ) + trainable_elements(layers.last().parameters_spec()),
    {
        lemma_trainable_elements_concat(
            chained_parameters(layers.drop_last()),
            layers.last().parameters_spec(),
        );
    }
}

impl<M: Module<Input = Tensor, Output = Tensor>> Module for Sequential<M> {
    type Input = Tensor;

    type Output = Tensor;

    open spec fn forward_spec(&self, input: Seq<nat>) -> Result<Seq<nat>, ShapeError> {
        chained(self@, input)
    }

    open spec fn parameters_spec(&self) -> Seq<ParameterView> {
        chained_parameters(self@)
    }

    open spec fn in_mode(&self, training: bool) -> bool {
        forall|i: int| 0 <= i < self@.len() ==> (#[trigger] self@[i]).in_mode(training)
    }

    fn train(&mut self) {
        let ghost before = self.layers@;
        let n = self.layers.len();
        let mut i: usize = 0;
        while i < n
            invariant
                i <= n,
                n == before.len(),
                self.layers@.len() == n,
                forall|k: int| i <= k < n ==> self.layers@[k] == before[k],
                forall|k: int|
                    0 <= k < i ==> same_but_mode(#[trigger] self.layers@[k], before[k])
                        && self.layers@[k].in_mode(true),
            decreases n - i,
        {
            self.layers[i].train();
            i = i + 1;
        }
        proof {
            lemma_same_row(before, self.layers@);
        }
    }

    fn eval(&mut self) {
        let ghost before = self.layers@;
        let n = self.layers.len();
        let mut i: usize = 0;
        while i < n
            invariant
                i <= n,
                n == before.len(),
                self.layers@.len() == n,
                forall|k: int| i <= k < n ==> self.layers@[k] == before[k],
                forall|k: int|
                    0 <= k < i ==> same_but_mode(#[trigger] self.layers@[k], before[k])
                        && self.layers@[k].in_mode(false),
            decreases n - i,
        {
            self.layers[i].eval();
            i = i + 1;
        }
        proof {
            lemma_same_row(before, self.layers@);
        }
    }

    fn forward(&self, input: Tensor) -> (out: Result<Tensor, ShapeError>) {
        let mut x = input;
        let mut i: usize = 0;
        while i < self.layers.len()
            invariant
                i <= self.layers@.len(),
                chained(self.layers@.take(i as int), input@) == Ok::<Seq<nat>, ShapeError>(x@),
            decreases self.layers.len() - i,
        {
            proof {
                assert(self.layers@.take(i + 1).drop_last() =~= self.layers@.take(i as int));
                lemma_chain_prefix(self.layers@, input@, i + 1);
            }
            x = self.layers[i].forward(x)?;
            i = i + 1;
        }
        assert(self.layers@.take(i as int) =~= self.layers@);
        Ok(x)
    }

    fn parameters(&self) -> (params: Vec<Parameter>) {
        let mut params: Vec<Parameter> = Vec::new();
        assert(parameter_views(params@) =~= Seq::empty());
        let mut i: usize = 0;
        while i < self.layers.len()
            invariant
                i <= self.layers@.len(),
                parameter_views(params@) == chained_parameters(self.layers@.take(i as int)),
            decreases self.layers.len() - i,
        {
            let mut more = self.layers[i].parameters();
            let ghost a = params@;
            let ghost b = more@;
            params.append(&mut more);
            proof {
                assert(parameter_views(a + b) =~= parameter_views(a) + parameter_views(b));
                assert(self.layers@.take(i + 1).drop_last() =~= self.layers@.take(i as int));
            }
            i = i + 1;
        }
        assert(self.layers@.take(i as int) =~= self.layers@);
        params
    }
}

/// Two layers answer alike and own the same parameters.
pub open spec fn same_but_mode<M: Module>(a: M, b: M) -> bool {
    &&& a.parameters_spec() == b.parameters_spec()
    &&& forall|x: <M::Input as View>::V| #[trigger] a.forward_spec(x) == b.forward_spec(x)
}

/// Rows whose layers answer alike and own the same parameters do so as rows.
pub proof fn lemma_same_row<M: Module<Input = Tensor, Output = Tensor>>(a: Seq<M>, b: Seq<M>)
    requires
        a.len() == b.len(),
        forall|i: int| 0 <= i < a.len() ==> same_but_mode(#[trigger] b[i], a[i]),
    ensures
        chained_parameters(a) == chained_parameters(b),
        forall|x: Seq<nat>| #[trigger] chained(b, x) == chained(a, x),
    decreases a.len(),
{
    if a.len() > 0 {
        lemma_same_row(a.drop_last(), b.drop_last());
        assert(same_but_mode(b[b.len() - 1], a[a.len() - 1]));
        assert forall|x: Seq<nat>| #[trigger] chained(b, x) == chained(a, x) by {
            assert(chained(b.drop_last(), x) == chained(a.drop_last(), x));
        }
    }
}

/// Where a row fails, every longer row fails in the same way.
pub proof fn lemma_chain_prefix<M: Module<Input = Tensor, Output = Tensor>>(
    layers: Seq<M>,
    x: Seq<nat>,
    n: int,
)
    requires
        0 <= n <= layers.len(),
    ensures
        chained(layers.take(n), x) matches Err(e) ==> chained(layers, x) == Err::<
            Seq<nat>,
            ShapeError,
        >(e),
    decreases layers.len() - n,
{
    if n == layers.len() {
        assert(layers.take(n) =~= layers);
    } else {
        assert(layers.take(n + 1).drop_last() =~= layers.take(n));
        lemma_chain_prefix(layers, x, n + 1);
    }
}

} // verus!
