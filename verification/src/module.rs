use vstd::prelude::*;
use crate::error::{ShapeError, WeightCopyError};
use crate::tensor::{element_count, Tensor};

verus! {

/// How the engine fills a parameter before training starts.
#[derive(Clone, Copy, Debug, PartialEq, Eq, Structural)]
pub enum Init {
    /// All zeros.
    Zeros,
    /// All ones.
    Ones,
    /// Drawn evenly between zero and one.
    Uniform,
    /// Normal around zero; the standard deviation is given in thousandths.
    Normal { std_milli: u32 },
    /// Normal around zero with standard deviation one over the square root of
    /// the parameter's first axis for a bias, of its second axis for a weight.
    FanIn,
}

/// One tensor that a layer owns.
#[derive(Clone, Copy, Debug)]
pub struct Parameter {
    /// Its shape.
    pub shape: Tensor,
    /// Its initial filling.
    pub init: Init,
    /// Whether training changes it.
    pub trainable: bool,
}

/// What a parameter is, with the shape as a sequence of axis sizes.
pub struct ParameterView {
    pub shape: Seq<nat>,
    pub init: Init,
    pub trainable: bool,
}

impl View for Parameter {
    type V = ParameterView;

    open spec fn view(&self) -> ParameterView {
        ParameterView { shape: self.shape@, init: self.init, trainable: self.trainable }
    }
}

/// The views of a list of parameters.
pub open spec fn parameter_views(params: Seq<Parameter>) -> Seq<ParameterView> {
    params.map_values(|p: Parameter| p@)
}

/// Number of elements in the trainable parameters of `params`.
pub open spec fn trainable_elements(params: Seq<ParameterView>) -> nat
    decreases params.len(),
{
    if params.len() == 0 {
        0
    } else {
        trainable_elements(params.drop_last()) + if params.last().trainable {
            element_count(params.last().shape)
        } else {
            0
        }
    }
}

/// Number of elements in all parameters of `params`, trainable or not.
pub open spec fn all_elements(params: Seq<ParameterView>) -> nat
    decreases params.len(),
{
    if params.len() == 0 {
        0
    } else {
        all_elements(params.drop_last()) + element_count(params.last().shape)
    }
}

/// The shapes of `params`, in order.
pub open spec fn parameter_shapes(params: Seq<ParameterView>) -> Seq<Seq<nat>> {
    params.map_values(|p: ParameterView| p.shape)
}

/// A count as a 64-bit number, where it is one.
pub open spec fn checked_total(n: nat) -> Option<u64> {
    if n <= u64::MAX {
        Some(n as u64)
    } else {
        None
    }
}

/// The trainable elements of two lists laid end to end are those of the first
/// plus those of the second.
pub proof fn lemma_trainable_elements_concat(a: Seq<ParameterView>, b: Seq<ParameterView>)
    ensures
        trainable_elements(a + b) == trainable_elements(a) + trainable_elements(b),
    decreases b.len(),
{
    if b.len() == 0 {
        assert(a + b =~= a);
    } else {
        assert((a + b).drop_last() =~= a + b.drop_last());
        assert((a + b).last() == b.last());
        lemma_trainable_elements_concat(a, b.drop_last());
    }
}

/// Lists with the same shapes hold the same number of elements.
pub proof fn lemma_same_shapes_same_elements(a: Seq<ParameterView>, b: Seq<ParameterView>)
    requires
        parameter_shapes(a) == parameter_shapes(b),
    ensures
        all_elements(a) == all_elements(b),
    decreases a.len(),
{
    assert(a.len() == parameter_shapes(a).len());
    assert(b.len() == parameter_shapes(b).len());
    if a.len() > 0 {
        assert(a.last().shape == parameter_shapes(a)[a.len() - 1]);
        assert(b.last().shape == parameter_shapes(b)[b.len() - 1]);
        assert(parameter_shapes(a.drop_last()) =~= parameter_shapes(a).drop_last());
        assert(parameter_shapes(b.drop_last()) =~= parameter_shapes(b).drop_last());
        lemma_same_shapes_same_elements(a.drop_last(), b.drop_last());
    }
}

/// Number of elements in the trainable parameters of `params`, or `None` where
/// 64 bits cannot hold it.
pub fn count_parameters(params: &Vec<Parameter>) -> (n: Option<u64>)
    ensures
        n == checked_total(trainable_elements(parameter_views(params@))),
{
    let ghost views = parameter_views(params@);
    let mut total: u64 = 0;
    let mut i: usize = 0;
    while i < params.len()
        invariant
            i <= params.len(),
            views == parameter_views(params@),
            total == trainable_elements(views.take(i as int)),
        decreases params.len() - i,
    {
        let p = &params[i];
        proof {
            assert(views.take(i + 1).drop_last() =~= views.take(i as int));
            assert(views.take(i + 1).last() == p@);
            lemma_prefix_elements(views, i + 1);
        }
        if p.trainable {
            match total.checked_add(p.shape.numel()) {
                Some(t) => {
                    total = t;
                },
                None => {
                    return None;
                },
            }
        }
        i = i + 1;
    }
    assert(views.take(i as int) =~= views);
    Some(total)
}

proof fn lemma_prefix_elements(views: Seq<ParameterView>, k: int)
    requires
        0 <= k <= views.len(),
    ensures
        trainable_elements(views.take(k)) <= trainable_elements(views),
    decreases views.len() - k,
{
    if k == views.len() {
        assert(views.take(k) =~= views);
    } else {
        assert(views.take(k + 1).drop_last() =~= views.take(k));
        lemma_prefix_elements(views, k + 1);
    }
}

/// The view inside a result, or the error.
pub open spec fn result_view<T: View>(r: Result<T, ShapeError>) -> Result<T::V, ShapeError> {
    match r {
        Ok(t) => Ok(t@),
        Err(e) => Err(e),
    }
}

/// What every layer and model offers.
pub trait Module {
    /// What `forward` takes: a tensor, or a tuple of tensors.
    type Input: View;

    /// What `forward` gives.
    type Output: View;

    /// The shape that `forward` answers with on an input of shape `input`, or
    /// why it refuses.
    spec fn forward_spec(&self, input: <Self::Input as View>::V) -> Result<
        <Self::Output as View>::V,
        ShapeError,
    >;

    /// The parameters that the module owns, in the order in which it creates them.
    spec fn parameters_spec(&self) -> Seq<ParameterView>;

    /// Every mode switch inside the module stands at `training`.
    spec fn in_mode(&self, training: bool) -> bool;

    /// Switches the module and all its parts to training.
    fn train(&mut self)
        ensures
            final(self).in_mode(true),
            final(self).parameters_spec() == old(self).parameters_spec(),
            forall|x: <Self::Input as View>::V| #[trigger]
                final(self).forward_spec(x) == old(self).forward_spec(x),
    ;

    /// Switches the module and all its parts to evaluation.
    fn eval(&mut self)
        ensures
            final(self).in_mode(false),
            final(self).parameters_spec() == old(self).parameters_spec(),
            forall|x: <Self::Input as View>::V| #[trigger]
                final(self).forward_spec(x) == old(self).forward_spec(x),
    ;

    /// The shape of the module's answer to `input`.
    fn forward(&self, input: Self::Input) -> (out: Result<Self::Output, ShapeError>)
        ensures
            result_view(out) == self.forward_spec(input@),
    ;

    /// The parameters that the module owns.
    fn parameters(&self) -> (params: Vec<Parameter>)
        ensures
            parameter_views(params@) == self.parameters_spec(),
    ;

    /// Number of elements in the module's trainable parameters, or `None`
    /// where 64 bits cannot hold it.
    fn parameter_count(&self) -> (n: Option<u64>)
        ensures
            n == checked_total(trainable_elements(self.parameters_spec())),
    {
        let params = self.parameters();
        count_parameters(&params)
    }
}

/// Why weights cannot be handed over, as contracts speak of it.
pub enum CopyFailure {
    /// Two corresponding parameters differ in shape.
    SizeMismatch,
    /// Anything else, with the text that says what.
    Other(Seq<char>),
}

impl View for WeightCopyError {
    type V = CopyFailure;

    open spec fn view(&self) -> CopyFailure {
        match self {
            WeightCopyError::SizeMismatch => CopyFailure::SizeMismatch,
            WeightCopyError::Other(m) => CopyFailure::Other(m@),
        }
    }
}

/// The outcome of a weight copy as contracts speak of it.
pub open spec fn copy_view(r: Result<(), WeightCopyError>) -> Result<(), CopyFailure> {
    match r {
        Ok(_) => Ok(()),
        Err(e) => Err(e@),
    }
}

/// Layers and models that can take over another instance's weights.
pub trait ModuleCopy: Sized {
    /// Whether `source` can hand its weights to `self`: every parameter of
    /// `self` is checked against its counterpart in `source`, in a fixed
    /// order, and the first disagreement is the answer.
    spec fn copy_spec(&self, source: &Self) -> Result<(), CopyFailure>;

    /// Checks that `source` can hand its weights to `self`.
    fn check_copy(&self, source: &Self) -> (r: Result<(), WeightCopyError>)
        ensures
            copy_view(r) == self.copy_spec(source),
    ;

    /// Takes over the weights of `source`, as far as this crate keeps them:
    /// on `Ok` the engine copies every parameter of `source` onto its
    /// counterpart in `self`, on `Err` it copies none. The shapes and
    /// settings of `self` stay as they are either way.
    fn copy(&mut self, source: &Self) -> (r: Result<(), WeightCopyError>)
        ensures
            copy_view(r) == old(self).copy_spec(source),
            *final(self) == *old(self),
    {
        self.check_copy(source)
    }
}

} // verus!
