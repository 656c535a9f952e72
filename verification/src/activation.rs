use vstd::prelude::*;
use crate::error::{ShapeError, WeightCopyError};
use crate::module::{
    parameter_views, result_view, CopyFailure, Init, Module, ModuleCopy, Parameter, ParameterView,
};
use crate::tensor::Tensor;

verus! {

/// An element-wise function as a module: whatever shape it accepts, it
/// answers with the same shape.
pub trait Activation: Module<Input = Tensor, Output = Tensor> {
    /// The function keeps the shape of what it accepts.
    proof fn lemma_keeps_shape(&self, input: Seq<nat>)
        ensures
            self.forward_spec(input) matches Ok(out) ==> out == input,
    ;

    /// Shape of the function applied to `input`.
    fn apply(&self, input: Tensor) -> (out: Result<Tensor, ShapeError>)
        ensures
            result_view(out) == self.forward_spec(input@),
    {
        self.forward(input)
    }
}

/// Shape after an element-wise function that is declared for tensors of
/// `rank` axes.
pub open spec fn ranked_shape(x: Seq<nat>, rank: nat) -> Result<Seq<nat>, ShapeError> {
    if x.len() == rank {
        Ok(x)
    } else {
        Err(ShapeError::Mismatch)
    }
}

/// The parameter of a parametric rectifier: its slope.
pub open spec fn slope_parameters() -> Seq<ParameterView> {
    seq![ParameterView { shape: seq![1nat], init: Init::Uniform, trainable: true }]
}

fn ranked(input: Tensor, rank: usize) -> (out: Result<Tensor, ShapeError>)
    ensures
        result_view(out) == ranked_shape(input@, rank as nat),
{
    if input.rank() == rank {
        Ok(input)
    } else {
        Err(ShapeError::Mismatch)
    }
}

/// The rectifier `max(x, 0)` of tensors with one axis.
#[derive(Default, Clone, Copy, Debug)]
pub struct ReLU1 {}

impl Module for ReLU1 {
    type Input = Tensor;

    type Output = Tensor;

    open spec fn forward_spec(&self, input: Seq<nat>) -> Result<Seq<nat>, ShapeError> {
        ranked_shape(input, 1)
    }

    open spec fn parameters_spec(&self) -> Seq<ParameterView> {
        Seq::empty()
    }

    open spec fn in_mode(&self, training: bool) -> bool {
        true
    }

    fn train(&mut self) {
    }

    fn eval(&mut self) {
    }

    fn forward(&self, input: Tensor) -> (out: Result<Tensor, ShapeError>) {
        Ok(ranked(input, 1)?.relu())
    }

    fn parameters(&self) -> (params: Vec<Parameter>) {
        let params: Vec<Parameter> = Vec::new();
        assert(parameter_views(params@) =~= Seq::empty());
        params
    }
}

impl Activation for ReLU1 {
    proof fn lemma_keeps_shape(&self, input: Seq<nat>) {
    }
}

/// The rectifier `max(x, 0)` of tensors with two axes.
#[derive(Default, Clone, Copy, Debug)]
pub struct ReLU2 {}

impl Module for ReLU2 {
    type Input = Tensor;

    type Output = Tensor;

    open spec fn forward_spec(&self, input: Seq<nat>) -> Result<Seq<nat>, ShapeError> {
        ranked_shape(input, 2)
    }

    open spec fn parameters_spec(&self) -> Seq<ParameterView> {
        Seq::empty()
    }

    open spec fn in_mode(&self, training: bool) -> bool {
        true
    }

    fn train(&mut self) {
    }

    fn eval(&mut self) {
    }

    fn forward(&self, input: Tensor) -> (out: Result<Tensor, ShapeError>) {
        Ok(ranked(input, 2)?.relu())
    }

    fn parameters(&self) -> (params: Vec<Parameter>) {
        let params: Vec<Parameter> = Vec::new();
        assert(parameter_views(params@) =~= Seq::empty());
        params
    }
}

impl Activation for ReLU2 {
    proof fn lemma_keeps_shape(&self, input: Seq<nat>) {
    }
}

/// The rectifier `max(x, 0)` of tensors with three axes.
#[derive(Default, Clone, Copy, Debug)]
pub struct ReLU3 {}

impl Module for ReLU3 {
    type Input = Tensor;

    type Output = Tensor;

    open spec fn forward_spec(&self, input: Seq<nat>) -> Result<Seq<nat>, ShapeError> {
        ranked_shape(input, 3)
    }

    open spec fn parameters_spec(&self) -> Seq<ParameterView> {
        Seq::empty()
    }

    open spec fn in_mode(&self, training: bool) -> bool {
        true
    }

    fn train(&mut self) {
    }

    fn eval(&mut self) {
    }

    fn forward(&self, input: Tensor) -> (out: Result<Tensor, ShapeError>) {
        Ok(ranked(input, 3)?.relu())
    }

    fn parameters(&self) -> (params: Vec<Parameter>) {
        let params: Vec<Parameter> = Vec::new();
        assert(parameter_views(params@) =~= Seq::empty());
        params
    }
}

impl Activation for ReLU3 {
    proof fn lemma_keeps_shape(&self, input: Seq<nat>) {
    }
}

/// The Gaussian error linear unit of tensors with one axis.
#[derive(Default, Clone, Copy, Debug)]
pub struct GeLU1 {}

impl Module for GeLU1 {
    type Input = Tensor;

    type Output = Tensor;

    open spec fn forward_spec(&self, input: Seq<nat>) -> Result<Seq<nat>, ShapeError> {
        ranked_shape(input, 1)
    }

    open spec fn parameters_spec(&self) -> Seq<ParameterView> {
        Seq::empty()
    }

    open spec fn in_mode(&self, training: bool) -> bool {
        true
    }

    fn train(&mut self) {
    }

    fn eval(&mut self) {
    }

    fn forward(&self, input: Tensor) -> (out: Result<Tensor, ShapeError>) {
        Ok(ranked(input, 1)?.gelu())
    }

    fn parameters(&self) -> (params: Vec<Parameter>) {
        let params: Vec<Parameter> = Vec::new();
        assert(parameter_views(params@) =~= Seq::empty());
        params
    }
}

impl Activation for GeLU1 {
    proof fn lemma_keeps_shape(&self, input: Seq<nat>) {
    }
}

/// The Gaussian error linear unit of tensors with two axes.
#[derive(Default, Clone, Copy, Debug)]
pub struct GeLU2 {}

impl Module for GeLU2 {
    type Input = Tensor;

    type Output = Tensor;

    open spec fn forward_spec(&self, input: Seq<nat>) -> Result<Seq<nat>, ShapeError> {
        ranked_shape(input, 2)
    }

    open spec fn parameters_spec(&self) -> Seq<ParameterView> {
        Seq::empty()
    }

    open spec fn in_mode(&self, training: bool) -> bool {
        true
    }

    fn train(&mut self) {
    }

    fn eval(&mut self) {
    }

    fn forward(&self, input: Tensor) -> (out: Result<Tensor, ShapeError>) {
        Ok(ranked(input, 2)?.gelu())
    }

    fn parameters(&self) -> (params: Vec<Parameter>) {
        let params: Vec<Parameter> = Vec::new();
        assert(parameter_views(params@) =~= Seq::empty());
        params
    }
}

impl Activation for GeLU2 {
    proof fn lemma_keeps_shape(&self, input: Seq<nat>) {
    }
}

/// The Gaussian error linear unit of tensors with three axes.
#[derive(Default, Clone, Copy, Debug)]
pub struct GeLU3 {}

impl Module for GeLU3 {
    type Input = Tensor;

    type Output = Tensor;

    open spec fn forward_spec(&self, input: Seq<nat>) -> Result<Seq<nat>, ShapeError> {
        ranked_shape(input, 3)
    }

    open spec fn parameters_spec(&self) -> Seq<ParameterView> {
        Seq::empty()
    }

    open spec fn in_mode(&self, training: bool) -> bool {
        true
    }

    fn train(&mut self) {
    }

    fn eval(&mut self) {
    }

    fn forward(&self, input: Tensor) -> (out: Result<Tensor, ShapeError>) {
        Ok(ranked(input, 3)?.gelu())
    }

    fn parameters(&self) -> (params: Vec<Parameter>) {
        let params: Vec<Parameter> = Vec::new();
        assert(parameter_views(params@) =~= Seq::empty());
        params
    }
}

impl Activation for GeLU3 {
    proof fn lemma_keeps_shape(&self, input: Seq<nat>) {
    }
}

/// The logistic function of tensors with one axis.
#[derive(Default, Clone, Copy, Debug)]
pub struct Sigmoid1 {}

impl Module for Sigmoid1 {
    type Input = Tensor;

    type Output = Tensor;

    open spec fn forward_spec(&self, input: Seq<nat>) -> Result<Seq<nat>, ShapeError> {
        ranked_shape(input, 1)
    }

    open spec fn parameters_spec(&self) -> Seq<ParameterView> {
        Seq::empty()
    }

    open spec fn in_mode(&self, training: bool) -> bool {
        true
    }

    fn train(&mut self) {
    }

    fn eval(&mut self) {
    }

    fn forward(&self, input: Tensor) -> (out: Result<Tensor, ShapeError>) {
        Ok(ranked(input, 1)?.sigmoid())
    }

    fn parameters(&self) -> (params: Vec<Parameter>) {
        let params: Vec<Parameter> = Vec::new();
        assert(parameter_views(params@) =~= Seq::empty());
        params
    }
}

impl Activation for Sigmoid1 {
    proof fn lemma_keeps_shape(&self, input: Seq<nat>) {
    }
}

/// The logistic function of tensors with two axes.
#[derive(Default, Clone, Copy, Debug)]
pub struct Sigmoid2 {}

impl Module for Sigmoid2 {
    type Input = Tensor;

    type Output = Tensor;

    open spec fn forward_spec(&self, input: Seq<nat>) -> Result<Seq<nat>, ShapeError> {
        ranked_shape(input, 2)
    }

    open spec fn parameters_spec(&self) -> Seq<ParameterView> {
        Seq::empty()
    }

    open spec fn in_mode(&self, training: bool) -> bool {
        true
    }

    fn train(&mut self) {
    }

    fn eval(&mut self) {
    }

    fn forward(&self, input: Tensor) -> (out: Result<Tensor, ShapeError>) {
        Ok(ranked(input, 2)?.sigmoid())
    }

    fn parameters(&self) -> (params: Vec<Parameter>) {
        let params: Vec<Parameter> = Vec::new();
        assert(parameter_views(params@) =~= Seq::empty());
        params
    }
}

impl Activation for Sigmoid2 {
    proof fn lemma_keeps_shape(&self, input: Seq<nat>) {
    }
}

/// The logistic function of tensors with three axes.
#[derive(Default, Clone, Copy, Debug)]
pub struct Sigmoid3 {}

impl Module for Sigmoid3 {
    type Input = Tensor;

    type Output = Tensor;

    open spec fn forward_spec(&self, input: Seq<nat>) -> Result<Seq<nat>, ShapeError> {
        ranked_shape(input, 3)
    }

    open spec fn parameters_spec(&self) -> Seq<ParameterView> {
        Seq::empty()
    }

    open spec fn in_mode(&self, training: bool) -> bool {
        true
    }

    fn train(&mut self) {
    }

    fn eval(&mut self) {
    }

    fn forward(&self, input: Tensor) -> (out: Result<Tensor, ShapeError>) {
        Ok(ranked(input, 3)?.sigmoid())
    }

    fn parameters(&self) -> (params: Vec<Parameter>) {
        let params: Vec<Parameter> = Vec::new();
        assert(parameter_views(params@) =~= Seq::empty());
        params
    }
}

impl Activation for Sigmoid3 {
    proof fn lemma_keeps_shape(&self, input: Seq<nat>) {
    }
}

/// The parametric rectifier of tensors with one axis: `max(x, 0)` plus a
/// learned slope times `min(x, 0)`.
#[derive(Clone, Copy, Debug)]
pub struct PReLU1 {
    weight: Tensor,
}

impl PReLU1 {
    /// Every such rectifier that executable code can hold satisfies this.
    #[verifier::type_invariant]
    pub closed spec fn well_formed(self) -> bool {
        self.weight.well_formed() && self.weight@ == seq![1nat]
    }

    /// The rectifier with a slope drawn between zero and one.
    pub fn new() -> (p: PReLU1)
        ensures
            p.well_formed(),
    {
        let weight = Tensor::scalar();
        proof {
            use_type_invariant(&weight);
        }
        PReLU1 { weight }
    }

    /// The slope: one element.
    pub fn weight(&self) -> (t: Tensor)
        ensures
            t@ == seq![1nat],
    {
        proof {
            use_type_invariant(self);
        }
        self.weight
    }
}

impl Default for PReLU1 {
    fn default() -> (p: PReLU1)
        ensures
            p.well_formed(),
    {
        PReLU1::new()
    }
}

impl Module for PReLU1 {
    type Input = Tensor;

    type Output = Tensor;

    open spec fn forward_spec(&self, input: Seq<nat>) -> Result<Seq<nat>, ShapeError> {
        ranked_shape(input, 1)
    }

    open spec fn parameters_spec(&self) -> Seq<ParameterView> {
        slope_parameters()
    }

    open spec fn in_mode(&self, training: bool) -> bool {
        true
    }

    fn train(&mut self) {
    }

    fn eval(&mut self) {
    }

    fn forward(&self, input: Tensor) -> (out: Result<Tensor, ShapeError>) {
        proof {
            use_type_invariant(self);
            crate::tensor::lemma_count1(1);
        }
        ranked(input, 1)?.prelu(&self.weight)
    }

    fn parameters(&self) -> (params: Vec<Parameter>) {
        proof {
            use_type_invariant(self);
        }
        let mut params: Vec<Parameter> = Vec::new();
        params.push(Parameter { shape: self.weight, init: Init::Uniform, trainable: true });
        assert(parameter_views(params@) =~= slope_parameters());
        params
    }
}

impl Activation for PReLU1 {
    proof fn lemma_keeps_shape(&self, input: Seq<nat>) {
    }
}

impl ModuleCopy for PReLU1 {
    open spec fn copy_spec(&self, source: &Self) -> Result<(), CopyFailure> {
        Ok(())
    }

    fn check_copy(&self, source: &Self) -> (r: Result<(), WeightCopyError>) {
        proof {
            use_type_invariant(self);
            use_type_invariant(source);
        }
        if self.weight.same_shape(&source.weight) {
            Ok(())
        } else {
            Err(WeightCopyError::SizeMismatch)
        }
    }
}

/// The parametric rectifier of tensors with two axes: `max(x, 0)` plus a
/// learned slope times `min(x, 0)`.
#[derive(Clone, Copy, Debug)]
pub struct PReLU2 {
    weight: Tensor,
}

impl PReLU2 {
    /// Every such rectifier that executable code can hold satisfies this.
    #[verifier::type_invariant]
    pub closed spec fn well_formed(self) -> bool {
        self.weight.well_formed() && self.weight@ == seq![1nat]
    }

    /// The rectifier with a slope drawn between zero and one.
    pub fn new() -> (p: PReLU2)
        ensures
            p.well_formed(),
    {
        let weight = Tensor::scalar();
        proof {
            use_type_invariant(&weight);
        }
        PReLU2 { weight }
    }

    /// The slope: one element.
    pub fn weight(&self) -> (t: Tensor)
        ensures
            t@ == seq![1nat],
    {
        proof {
            use_type_invariant(self);
        }
        self.weight
    }
}

impl Default for PReLU2 {
    fn default() -> (p: PReLU2)
        ensures
            p.well_formed(),
    {
        PReLU2::new()
    }
}

impl Module for PReLU2 {
    type Input = Tensor;

    type Output = Tensor;

    open spec fn forward_spec(&self, input: Seq<nat>) -> Result<Seq<nat>, ShapeError> {
        ranked_shape(input, 2)
    }

    open spec fn parameters_spec(&self) -> Seq<ParameterView> {
        slope_parameters()
    }

    open spec fn in_mode(&self, training: bool) -> bool {
        true
    }

    fn train(&mut self) {
    }

    fn eval(&mut self) {
    }

    fn forward(&self, input: Tensor) -> (out: Result<Tensor, ShapeError>) {
        proof {
            use_type_invariant(self);
            crate::tensor::lemma_count1(1);
        }
        ranked(input, 2)?.prelu(&self.weight)
    }

    fn parameters(&self) -> (params: Vec<Parameter>) {
        proof {
            use_type_invariant(self);
        }
        let mut params: Vec<Parameter> = Vec::new();
        params.push(Parameter { shape: self.weight, init: Init::Uniform, trainable: true });
        assert(parameter_views(params@) =~= slope_parameters());
        params
    }
}

impl Activation for PReLU2 {
    proof fn lemma_keeps_shape(&self, input: Seq<nat>) {
    }
}

impl ModuleCopy for PReLU2 {
    open spec fn copy_spec(&self, source: &Self) -> Result<(), CopyFailure> {
        Ok(())
    }

    fn check_copy(&self, source: &Self) -> (r: Result<(), WeightCopyError>) {
        proof {
            use_type_invariant(self);
            use_type_invariant(source);
        }
        if self.weight.same_shape(&source.weight) {
            Ok(())
        } else {
            Err(WeightCopyError::SizeMismatch)
        }
    }
}

/// The parametric rectifier of tensors with three axes: `max(x, 0)` plus a
/// learned slope times `min(x, 0)`.
#[derive(Clone, Copy, Debug)]
pub struct PReLU3 {
    weight: Tensor,
}

impl PReLU3 {
    /// Every such rectifier that executable code can hold satisfies this.
    #[verifier::type_invariant]
    pub closed spec fn well_formed(self) -> bool {
        self.weight.well_formed() && self.weight@ == seq![1nat]
    }

    /// The rectifier with a slope drawn between zero and one.
    pub fn new() -> (p: PReLU3)
        ensures
            p.well_formed(),
    {
        let weight = Tensor::scalar();
        proof {
            use_type_invariant(&weight);
        }
        PReLU3 { weight }
    }

    /// The slope: one element.
    pub fn weight(&self) -> (t: Tensor)
        ensures
            t@ == seq![1nat],
    {
        proof {
            use_type_invariant(self);
        }
        self.weight
    }
}

impl Default for PReLU3 {
    fn default() -> (p: PReLU3)
        ensures
            p.well_formed(),
    {
        PReLU3::new()
    }
}

impl Module for PReLU3 {
    type Input = Tensor;

    type Output = Tensor;

    open spec fn forward_spec(&self, input: Seq<nat>) -> Result<Seq<nat>, ShapeError> {
        ranked_shape(input, 3)
    }

    open spec fn parameters_spec(&self) -> Seq<ParameterView> {
        slope_parameters()
    }

    open spec fn in_mode(&self, training: bool) -> bool {
        true
    }

    fn train(&mut self) {
    }

    fn eval(&mut self) {
    }

    fn forward(&self, input: Tensor) -> (out: Result<Tensor, ShapeError>) {
        proof {
            use_type_invariant(self);
            crate::tensor::lemma_count1(1);
        }
        ranked(input, 3)?.prelu(&self.weight)
    }

    fn parameters(&self) -> (params: Vec<Parameter>) {
        proof {
            use_type_invariant(self);
        }
        let mut params: Vec<Parameter> = Vec::new();
        params.push(Parameter { shape: self.weight, init: Init::Uniform, trainable: true });
        assert(parameter_views(params@) =~= slope_parameters());
        params
    }
}

impl Activation for PReLU3 {
    proof fn lemma_keeps_shape(&self, input: Seq<nat>) {
    }
}

impl ModuleCopy for PReLU3 {
    open spec fn copy_spec(&self, source: &Self) -> Result<(), CopyFailure> {
        Ok(())
    }

    fn check_copy(&self, source: &Self) -> (r: Result<(), WeightCopyError>) {
        proof {
            use_type_invariant(self);
            use_type_invariant(source);
        }
        if self.weight.same_shape(&source.weight) {
            Ok(())
        } else {
            Err(WeightCopyError::SizeMismatch)
        }
    }
}

} // verus!
