use vstd::prelude::*;
use crate::error::ShapeError;

verus! {

/// The largest number of axes a tensor may have.
pub const MAX_RANK: usize = 5;

/// Size of axis `i` of the shape `dims`, with 1 standing in for an axis the
/// shape does not have.
pub open spec fn axis_or_one(dims: Seq<nat>, i: int) -> nat {
    if 0 <= i < dims.len() {
        dims[i]
    } else {
        1
    }
}

/// Number of elements of a tensor with at most five axes.
pub open spec fn element_count(dims: Seq<nat>) -> nat {
    axis_or_one(dims, 0) * axis_or_one(dims, 1) * axis_or_one(dims, 2) * axis_or_one(dims, 3)
        * axis_or_one(dims, 4)
}

/// Number of entries along the axes before `axis`, taken together.
pub open spec fn count_before(dims: Seq<nat>, axis: int) -> nat {
    element_count(dims.take(axis))
}

/// Number of elements in one entry along the axes before `axis`: the axis
/// `axis` and those behind it, taken together.
pub open spec fn count_from(dims: Seq<nat>, axis: int) -> nat {
    element_count(dims.skip(axis))
}

/// One to five axes, none of them empty.
pub open spec fn axes_ok(dims: Seq<nat>) -> bool {
    &&& 1 <= dims.len() <= MAX_RANK
    &&& forall|i: int| 0 <= i < dims.len() ==> dims[i] >= 1
}

/// The shapes this crate can represent.
pub open spec fn valid_shape(dims: Seq<nat>) -> bool {
    axes_ok(dims) && element_count(dims) <= u64::MAX
}

/// What building a tensor from `dims` gives.
pub open spec fn checked_shape(dims: Seq<nat>) -> Result<Seq<nat>, ShapeError> {
    if !axes_ok(dims) {
        Err(ShapeError::Invalid)
    } else if element_count(dims) > u64::MAX {
        Err(ShapeError::TooLarge)
    } else {
        Ok(dims)
    }
}

/// The vector `b` can be added along the last axis of `a`.
pub open spec fn bias_broadcast(a: Seq<nat>, b: Seq<nat>) -> bool {
    a.len() >= 2 && b.len() == 1 && b[0] == a.last()
}

/// Shape of an element-wise sum, difference, product or quotient of `a` and `b`.
pub open spec fn elementwise_shape(a: Seq<nat>, b: Seq<nat>) -> Result<Seq<nat>, ShapeError> {
    if a == b || bias_broadcast(a, b) {
        Ok(a)
    } else {
        Err(ShapeError::Mismatch)
    }
}

/// The rank pairs for which a matrix product is implemented.
pub open spec fn matmul_ranks_supported(a: nat, b: nat) -> bool {
    ||| a == 1 && b == 2
    ||| a >= 2 && b <= 2
    ||| a >= 3 && a == b
}

/// The axis of the right operand that the product sums over.
pub open spec fn contracted_axis(b: Seq<nat>) -> int {
    if b.len() == 1 {
        0
    } else {
        b.len() - 2
    }
}

/// The right operand's leading axes repeat the left operand's.
pub open spec fn same_batch(a: Seq<nat>, b: Seq<nat>) -> bool {
    a.len() == b.len() ==> forall|i: int| 0 <= i < a.len() - 2 ==> a[i] == b[i]
}

/// Shape of the product before its size is checked.
pub open spec fn matmul_axes(a: Seq<nat>, b: Seq<nat>) -> Seq<nat> {
    if b.len() == 1 {
        a.drop_last()
    } else if a.len() == 1 {
        seq![b[1]]
    } else {
        a.drop_last().push(b.last())
    }
}

/// Shape of the matrix product of `a` and `b`.
pub open spec fn matmul_shape(a: Seq<nat>, b: Seq<nat>) -> Result<Seq<nat>, ShapeError> {
    if !matmul_ranks_supported(a.len(), b.len()) {
        Err(ShapeError::NotImplemented)
    } else if a.last() != b[contracted_axis(b)] || !same_batch(a, b) {
        Err(ShapeError::Mismatch)
    } else if element_count(matmul_axes(a, b)) > u64::MAX {
        Err(ShapeError::TooLarge)
    } else {
        Ok(matmul_axes(a, b))
    }
}

/// `a` with the axes `i` and `j` exchanged.
pub open spec fn swap_axes(a: Seq<nat>, i: int, j: int) -> Seq<nat> {
    a.update(i, a[j]).update(j, a[i])
}

/// Shape after exchanging the axes `i` and `j`.
pub open spec fn transpose_shape(a: Seq<nat>, i: int, j: int) -> Result<Seq<nat>, ShapeError> {
    if 0 <= i < a.len() && 0 <= j < a.len() {
        Ok(swap_axes(a, i, j))
    } else {
        Err(ShapeError::OutOfRange)
    }
}

/// Shape of the transpose of a matrix.
pub open spec fn tr_shape(a: Seq<nat>) -> Result<Seq<nat>, ShapeError> {
    if a.len() == 2 {
        Ok(seq![a[1], a[0]])
    } else {
        Err(ShapeError::Mismatch)
    }
}

/// Shape after laying the same elements out along the axes `dims`.
pub open spec fn reshape_shape(a: Seq<nat>, dims: Seq<nat>) -> Result<Seq<nat>, ShapeError> {
    if checked_shape(dims) is Err {
        checked_shape(dims)
    } else if element_count(dims) != element_count(a) {
        Err(ShapeError::Mismatch)
    } else {
        Ok(dims)
    }
}

/// Shape after putting an axis of size one in front.
pub open spec fn unsqueeze_start_shape(a: Seq<nat>) -> Result<Seq<nat>, ShapeError> {
    if a.len() >= MAX_RANK {
        Err(ShapeError::Invalid)
    } else {
        Ok(seq![1nat] + a)
    }
}

/// Shape after putting an axis of size one behind.
pub open spec fn unsqueeze_end_shape(a: Seq<nat>) -> Result<Seq<nat>, ShapeError> {
    if a.len() >= MAX_RANK {
        Err(ShapeError::Invalid)
    } else {
        Ok(a.push(1))
    }
}

/// Shape after taking away the first axis, which must have size one.
pub open spec fn squeeze_start_shape(a: Seq<nat>) -> Result<Seq<nat>, ShapeError> {
    if a.len() < 2 {
        Err(ShapeError::Invalid)
    } else if a[0] != 1 {
        Err(ShapeError::Mismatch)
    } else {
        Ok(a.drop_first())
    }
}

/// Shape after taking away the last axis, which must have size one.
pub open spec fn squeeze_end_shape(a: Seq<nat>) -> Result<Seq<nat>, ShapeError> {
    if a.len() < 2 {
        Err(ShapeError::Invalid)
    } else if a.last() != 1 {
        Err(ShapeError::Mismatch)
    } else {
        Ok(a.drop_last())
    }
}

/// Shape after tiling the axis `axis`, which must have size one, `repeats` times.
pub open spec fn repeat_shape(a: Seq<nat>, axis: int, repeats: nat) -> Result<
    Seq<nat>,
    ShapeError,
> {
    if !(0 <= axis < a.len()) {
        Err(ShapeError::OutOfRange)
    } else if a[axis] != 1 {
        Err(ShapeError::Mismatch)
    } else if repeats == 0 {
        Err(ShapeError::Invalid)
    } else if element_count(a.update(axis, repeats)) > u64::MAX {
        Err(ShapeError::TooLarge)
    } else {
        Ok(a.update(axis, repeats))
    }
}

/// `a` and `b` agree on every axis but `axis`.
pub open spec fn same_but(a: Seq<nat>, b: Seq<nat>, axis: int) -> bool {
    a.len() == b.len() && forall|i: int| 0 <= i < a.len() && i != axis ==> a[i] == b[i]
}

/// Shape after joining `a` and `b` along `axis`.
pub open spec fn cat_shape(a: Seq<nat>, b: Seq<nat>, axis: int) -> Result<Seq<nat>, ShapeError> {
    if !(0 <= axis < a.len()) {
        Err(ShapeError::OutOfRange)
    } else if !same_but(a, b, axis) {
        Err(ShapeError::Mismatch)
    } else if element_count(a.update(axis, a[axis] + b[axis])) > u64::MAX {
        Err(ShapeError::TooLarge)
    } else {
        Ok(a.update(axis, a[axis] + b[axis]))
    }
}

/// Shape of one entry along the first axis: one axis fewer, and a single
/// element where the tensor is a vector.
pub open spec fn entry_shape(a: Seq<nat>) -> Seq<nat> {
    if a.len() >= 2 {
        a.drop_first()
    } else {
        seq![1nat]
    }
}

/// Shape of the entry `index` along the first axis.
pub open spec fn get_shape(a: Seq<nat>, index: nat) -> Result<Seq<nat>, ShapeError> {
    if index < a[0] {
        Ok(entry_shape(a))
    } else {
        Err(ShapeError::OutOfRange)
    }
}

/// Whether `value` may overwrite the entry `index` along the first axis.
pub open spec fn set_check(a: Seq<nat>, index: nat, value: Seq<nat>) -> Result<(), ShapeError> {
    if index >= a[0] {
        Err(ShapeError::OutOfRange)
    } else if value != entry_shape(a) {
        Err(ShapeError::Mismatch)
    } else {
        Ok(())
    }
}

/// The mask `mask` covers `a`: axis by axis it has the same size or size one.
pub open spec fn mask_fits(a: Seq<nat>, mask: Seq<nat>) -> bool {
    a.len() == mask.len() && forall|i: int|
        0 <= i < a.len() ==> mask[i] == a[i] || mask[i] == 1
}

/// Shape after overwriting the masked elements of `a`.
pub open spec fn masked_fill_shape(a: Seq<nat>, mask: Seq<nat>) -> Result<Seq<nat>, ShapeError> {
    if mask_fits(a, mask) {
        Ok(a)
    } else {
        Err(ShapeError::Mismatch)
    }
}

/// Shape after a parametric rectifier with the learned slope `weight`.
pub open spec fn prelu_shape(a: Seq<nat>, weight: Seq<nat>) -> Result<Seq<nat>, ShapeError> {
    if element_count(weight) == 1 {
        Ok(a)
    } else {
        Err(ShapeError::Mismatch)
    }
}

/// Shape after keeping the first `len` entries along `axis`.
pub open spec fn narrow_shape(a: Seq<nat>, axis: int, len: nat) -> Result<Seq<nat>, ShapeError> {
    if !(0 <= axis < a.len()) || len > a[axis] {
        Err(ShapeError::OutOfRange)
    } else if len == 0 {
        Err(ShapeError::Invalid)
    } else {
        Ok(a.update(axis, len))
    }
}

/// Shape of the entry `index` along `axis`: the tensor without that axis.
pub open spec fn select_shape(a: Seq<nat>, axis: int, index: nat) -> Result<Seq<nat>, ShapeError> {
    if !(0 <= axis < a.len()) || index >= a[axis] {
        Err(ShapeError::OutOfRange)
    } else if a.len() < 2 {
        Err(ShapeError::Invalid)
    } else {
        Ok(a.remove(axis))
    }
}

/// What a declaration says of one axis.
#[derive(Clone, Copy, Debug, PartialEq, Eq, Structural)]
pub enum DimType {
    /// The axis has this size.
    Static(u64),
    /// The size is known only when the tensor is there.
    Dynamic,
}

/// Whether an axis of size `size` is what `declared` says.
pub open spec fn dim_admits(declared: DimType, size: nat) -> bool {
    match declared {
        DimType::Static(n) => n == size,
        DimType::Dynamic => true,
    }
}

/// Whether a tensor of shape `dims` is what `declared` says, axis by axis.
pub open spec fn shape_conforms(dims: Seq<nat>, declared: Seq<DimType>) -> bool {
    dims.len() == declared.len() && forall|i: int|
        0 <= i < dims.len() ==> dim_admits(#[trigger] declared[i], dims[i])
}

/// A tensor as this crate sees it: its shape.
#[derive(Clone, Copy, Debug)]
pub struct Tensor {
    rank: usize,
    dims: [u64; 5],
}

impl View for Tensor {
    type V = Seq<nat>;

    closed spec fn view(&self) -> Seq<nat> {
        Seq::new(self.rank as nat, |i: int| self.dims[i] as nat)
    }
}

/// The shape inside a result, or the error.
pub open spec fn shape_of(r: Result<Tensor, ShapeError>) -> Result<Seq<nat>, ShapeError> {
    match r {
        Ok(t) => Ok(t@),
        Err(e) => Err(e),
    }
}

proof fn lemma_partial_products(a: nat, b: nat, c: nat, d: nat, e: nat)
    requires
        a >= 1,
        b >= 1,
        c >= 1,
        d >= 1,
        e >= 1,
    ensures
        a <= a * b <= a * b * c <= a * b * c * d <= a * b * c * d * e,
{
    assert(a <= a * b) by (nonlinear_arith)
        requires a >= 1, b >= 1;
    assert(a * b <= a * b * c) by (nonlinear_arith)
        requires a * b >= 1, c >= 1;
    assert(a * b * c <= a * b * c * d) by (nonlinear_arith)
        requires a * b * c >= 1, d >= 1;
    assert(a * b * c * d <= a * b * c * d * e) by (nonlinear_arith)
        requires a * b * c * d >= 1, e >= 1;
}

impl Tensor {
    /// Every tensor that executable code can hold satisfies this.
    #[verifier::type_invariant]
    pub closed spec fn well_formed(self) -> bool {
        &&& 1 <= self.rank <= MAX_RANK
        &&& forall|i: int| 0 <= i < 5 ==> self.dims[i] >= 1
        &&& forall|i: int| self.rank <= i < 5 ==> self.dims[i] == 1
        &&& self.dims[0] * self.dims[1] * self.dims[2] * self.dims[3] * self.dims[4] <= u64::MAX
    }

    /// A well-formed tensor has a valid shape.
    pub proof fn lemma_valid(self)
        requires
            self.well_formed(),
        ensures
            valid_shape(self@),
    {
        let s = self@;
        assert(forall|i: int| 0 <= i < 5 ==> axis_or_one(s, i) == self.dims[i]);
    }

    fn build(rank: usize, dims: [u64; 5]) -> (r: Result<Tensor, ShapeError>)
        requires
            forall|i: int| rank <= i < 5 ==> dims[i] == 1,
        ensures
            shape_of(r) == checked_shape(Seq::new(rank as nat, |i: int| dims[i] as nat)),
            r matches Ok(t) ==> t.rank == rank && t.dims == dims,
    {
        let ghost s = Seq::new(rank as nat, |i: int| dims[i] as nat);
        if rank < 1 || rank > MAX_RANK {
            return Err(ShapeError::Invalid);
        }
        if dims[0] == 0 || dims[1] == 0 || dims[2] == 0 || dims[3] == 0 || dims[4] == 0 {
            proof {
                let k = choose|k: int| 0 <= k < 5 && dims[k] == 0;
                assert(k < rank);
                assert(s[k] == 0);
            }
            return Err(ShapeError::Invalid);
        }
        assert(axes_ok(s));
        assert(forall|i: int| 0 <= i < 5 ==> axis_or_one(s, i) == dims[i]);
        proof {
            lemma_partial_products(
                dims[0] as nat,
                dims[1] as nat,
                dims[2] as nat,
                dims[3] as nat,
                dims[4] as nat,
            );
        }
        let two = match dims[0].checked_mul(dims[1]) {
            Some(p) => p,
            None => {
                return Err(ShapeError::TooLarge);
            },
        };
        let three = match two.checked_mul(dims[2]) {
            Some(p) => p,
            None => {
                return Err(ShapeError::TooLarge);
            },
        };
        let four = match three.checked_mul(dims[3]) {
            Some(p) => p,
            None => {
                return Err(ShapeError::TooLarge);
            },
        };
        match four.checked_mul(dims[4]) {
            Some(_) => {},
            None => {
                return Err(ShapeError::TooLarge);
            },
        };
        let t = Tensor { rank, dims };
        assert(t@ =~= s);
        Ok(t)
    }

    /// The tensor with the given axes, first axis first.
    pub fn new(dims: &[u64]) -> (r: Result<Tensor, ShapeError>)
        ensures
            shape_of(r) == checked_shape(dims@.map_values(|d: u64| d as nat)),
    {
        let ghost want = dims@.map_values(|d: u64| d as nat);
        let n = dims.len();
        if n < 1 || n > MAX_RANK {
            return Err(ShapeError::Invalid);
        }
        let mut a: [u64; 5] = [1, 1, 1, 1, 1];
        let mut i: usize = 0;
        while i < n
            invariant
                n == dims.len(),
                1 <= n <= 5,
                i <= n,
                forall|k: int| 0 <= k < i ==> a[k] == dims[k],
                forall|k: int| i <= k < 5 ==> a[k] == 1,
            decreases n - i,
        {
            a[i] = dims[i];
            i = i + 1;
        }
        assert(Seq::new(n as nat, |i: int| a[i] as nat) =~= want);
        Tensor::build(n, a)
    }

    proof fn lemma_view(self)
        requires
            self.well_formed(),
        ensures
            self@.len() == self.rank,
            forall|i: int| 0 <= i < self.rank ==> self@[i] == self.dims[i],
            forall|i: int| 0 <= i < 5 ==> axis_or_one(self@, i) == self.dims[i],
            element_count(self@) == self.dims[0] * self.dims[1] * self.dims[2] * self.dims[3]
                * self.dims[4],
            valid_shape(self@),
    {
        let s = self@;
        assert(forall|i: int| 0 <= i < 5 ==> axis_or_one(s, i) == self.dims[i]);
    }

    /// The tensor with the given axes, which describe one.
    pub fn with_dims(dims: &[u64]) -> (t: Tensor)
        requires
            valid_shape(dims@.map_values(|d: u64| d as nat)),
        ensures
            t@ == dims@.map_values(|d: u64| d as nat),
    {
        match Tensor::new(dims) {
            Ok(t) => t,
            Err(_) => Tensor::scalar(),
        }
    }

    /// The vector of `n` entries.
    pub fn vector(n: u64) -> (t: Tensor)
        requires
            n >= 1,
        ensures
            t@ == seq![n as nat],
    {
        let d: [u64; 5] = [n, 1, 1, 1, 1];
        assert(d[0] * d[1] * d[2] * d[3] * d[4] == n) by (nonlinear_arith)
            requires
                d[0] == n,
                d[1] == 1,
                d[2] == 1,
                d[3] == 1,
                d[4] == 1,
        ;
        let t = Tensor { rank: 1, dims: d };
        assert(t@ =~= seq![n as nat]);
        t
    }

    /// The matrix of `rows` rows and `cols` columns.
    pub fn matrix(rows: u64, cols: u64) -> (t: Tensor)
        requires
            rows >= 1,
            cols >= 1,
            rows * cols <= u64::MAX,
        ensures
            t@ == seq![rows as nat, cols as nat],
    {
        let d: [u64; 5] = [rows, cols, 1, 1, 1];
        assert(d[0] * d[1] * d[2] * d[3] * d[4] == rows * cols) by (nonlinear_arith)
            requires
                d[0] == rows,
                d[1] == cols,
                d[2] == 1,
                d[3] == 1,
                d[4] == 1,
        ;
        let t = Tensor { rank: 2, dims: d };
        assert(t@ =~= seq![rows as nat, cols as nat]);
        t
    }

    /// Number of axes.
    pub fn rank(&self) -> (n: usize)
        ensures
            n == self@.len(),
            1 <= n <= MAX_RANK,
    {
        proof {
            use_type_invariant(self);
        }
        self.rank
    }

    /// The axes, first axis first.
    pub fn size(&self) -> (dims: Vec<u64>)
        ensures
            dims@.map_values(|d: u64| d as nat) == self@,
    {
        proof {
            use_type_invariant(self);
        }
        let mut out: Vec<u64> = Vec::new();
        let mut i: usize = 0;
        while i < self.rank
            invariant
                i <= self.rank <= 5,
                out@.len() == i,
                forall|k: int| 0 <= k < i ==> out@[k] == self.dims[k],
            decreases self.rank - i,
        {
            out.push(self.dims[i]);
            i = i + 1;
        }
        assert(out@.map_values(|d: u64| d as nat) =~= self@);
        out
    }

    /// Number of elements.
    pub fn numel(&self) -> (n: u64)
        ensures
            n == element_count(self@),
    {
        proof {
            use_type_invariant(self);
            let s = self@;
            assert(forall|i: int| 0 <= i < 5 ==> axis_or_one(s, i) == self.dims[i]);
            lemma_partial_products(
                self.dims[0] as nat,
                self.dims[1] as nat,
                self.dims[2] as nat,
                self.dims[3] as nat,
                self.dims[4] as nat,
            );
        }
        self.dims[0] * self.dims[1] * self.dims[2] * self.dims[3] * self.dims[4]
    }
    /// Number of entries along the axes before `axis`, taken together.
    pub fn count_before(&self, axis: usize) -> (n: u64)
        requires
            axis <= self@.len(),
        ensures
            n == count_before(self@, axis as int),
            n >= 1,
    {
        proof {
            use_type_invariant(self);
            self.lemma_view();
            lemma_count_split(self@, axis as int);
            lemma_count_positive(self@.take(axis as int));
            lemma_count_positive(self@.skip(axis as int));
        }
        let ghost head = self@.take(axis as int);
        let ghost total = element_count(self@);
        let ghost rest = element_count(self@.skip(axis as int));
        proof {
            assert(element_count(head) <= u64::MAX) by (nonlinear_arith)
                requires
                    total == element_count(head) * rest,
                    rest >= 1,
                    total <= u64::MAX,
            ;
            assert(head.take(0) =~= Seq::<nat>::empty());
            assert(1 * 1 * 1 * 1 * 1 == 1) by (nonlinear_arith);
        }
        let mut n: u64 = 1;
        let mut i: usize = 0;
        while i < axis
            invariant
                i <= axis <= self.rank <= 5,
                self@.len() == self.rank,
                head == self@.take(axis as int),
                forall|k: int| 0 <= k < self.rank ==> self@[k] == self.dims[k],
                forall|k: int| 0 <= k < self.rank ==> self@[k] >= 1,
                n == element_count(head.take(i as int)),
                element_count(head) <= u64::MAX,
            decreases axis - i,
        {
            proof {
                lemma_count_push(head.take(i as int), head[i as int]);
                assert(head.take(i as int).push(head[i as int]) =~= head.take(i + 1));
                lemma_count_split(head, i + 1);
                lemma_count_positive(head.skip(i + 1));
                assert(element_count(head.take(i + 1)) <= element_count(head))
                    by (nonlinear_arith)
                    requires
                        element_count(head) == element_count(head.take(i + 1)) * element_count(
                            head.skip(i + 1),
                        ),
                        element_count(head.skip(i + 1)) >= 1,
                ;
            }
            n = n * self.dims[i];
            i = i + 1;
        }
        proof {
            assert(head.take(axis as int) =~= head);
        }
        n
    }

    /// Number of elements in one entry along the axes before `axis`.
    pub fn count_from(&self, axis: usize) -> (n: u64)
        requires
            axis <= self@.len(),
        ensures
            n == count_from(self@, axis as int),
            n >= 1,
            count_before(self@, axis as int) * n == element_count(self@),
    {
        proof {
            use_type_invariant(self);
            self.lemma_view();
            lemma_count_split(self@, axis as int);
            lemma_count_positive(self@.take(axis as int));
            lemma_count_positive(self@.skip(axis as int));
        }
        let before = self.count_before(axis);
        let total = self.numel();
        proof {
            let a = count_before(self@, axis as int);
            let b = count_from(self@, axis as int);
            assert((a * b) / a == b) by (nonlinear_arith)
                requires
                    a >= 1,
            ;
        }
        total / before
    }

    /// Whether the tensor is what `declared` says: as many axes, and each
    /// declared size met.
    pub fn conforms(&self, declared: &[DimType]) -> (ok: bool)
        ensures
            ok == shape_conforms(self@, declared@),
    {
        proof {
            use_type_invariant(self);
            self.lemma_view();
        }
        if declared.len() != self.rank {
            return false;
        }
        let mut i: usize = 0;
        while i < self.rank
            invariant
                i <= self.rank <= 5,
                declared@.len() == self.rank,
                self@.len() == self.rank,
                forall|k: int| 0 <= k < self.rank ==> self@[k] == self.dims[k],
                forall|k: int| 0 <= k < i ==> dim_admits(#[trigger] declared@[k], self@[k]),
            decreases self.rank - i,
        {
            match declared[i] {
                DimType::Static(n) => {
                    if n != self.dims[i] {
                        assert(!dim_admits(declared@[i as int], self@[i as int]));
                        return false;
                    }
                },
                DimType::Dynamic => {},
            }
            i = i + 1;
        }
        true
    }

    /// Whether both tensors have the same shape.
    pub fn same_shape(&self, other: &Tensor) -> (b: bool)
        ensures
            b == (self@ == other@),
    {
        proof {
            use_type_invariant(self);
            use_type_invariant(other);
            self.lemma_view();
            other.lemma_view();
        }
        let b = self.rank == other.rank && self.dims[0] == other.dims[0] && self.dims[1]
            == other.dims[1] && self.dims[2] == other.dims[2] && self.dims[3] == other.dims[3]
            && self.dims[4] == other.dims[4];
        proof {
            if b {
                assert(self@ =~= other@);
            } else if self@ == other@ {
                assert(self.rank == other.rank);
                assert forall|i: int| 0 <= i < 5 implies self.dims[i] == other.dims[i] by {
                    if i < self.rank {
                        assert(self@[i] == other@[i]);
                    }
                }
            }
        }
        b
    }

    /// Size of the last axis.
    pub fn last_dim(&self) -> (d: u64)
        ensures
            d == self@.last(),
    {
        proof {
            use_type_invariant(self);
            self.lemma_view();
        }
        self.dims[self.rank - 1]
    }

    /// Size of the axis `axis`, if the tensor has it.
    pub fn dim(&self, axis: usize) -> (d: Option<u64>)
        ensures
            axis < self@.len() ==> d is Some && d->Some_0 == self@[axis as int],
            axis >= self@.len() ==> d is None,
    {
        proof {
            use_type_invariant(self);
            self.lemma_view();
        }
        if axis < self.rank {
            Some(self.dims[axis])
        } else {
            None
        }
    }

    fn elementwise(&self, rhs: &Tensor) -> (r: Result<Tensor, ShapeError>)
        ensures
            shape_of(r) == elementwise_shape(self@, rhs@),
    {
        proof {
            use_type_invariant(self);
            use_type_invariant(rhs);
            self.lemma_view();
            rhs.lemma_view();
        }
        if self.same_shape(rhs) {
            Ok(*self)
        } else if self.rank >= 2 && rhs.rank == 1 && rhs.dims[0] == self.dims[self.rank - 1] {
            Ok(*self)
        } else {
            Err(ShapeError::Mismatch)
        }
    }

    /// Shape of the element-wise sum `self + rhs`.
    pub fn add(&self, rhs: &Tensor) -> (r: Result<Tensor, ShapeError>)
        ensures
            shape_of(r) == elementwise_shape(self@, rhs@),
    {
        self.elementwise(rhs)
    }

    /// Shape of the element-wise difference `self - rhs`.
    pub fn sub(&self, rhs: &Tensor) -> (r: Result<Tensor, ShapeError>)
        ensures
            shape_of(r) == elementwise_shape(self@, rhs@),
    {
        self.elementwise(rhs)
    }

    /// Shape of the element-wise product `self * rhs`.
    pub fn mul(&self, rhs: &Tensor) -> (r: Result<Tensor, ShapeError>)
        ensures
            shape_of(r) == elementwise_shape(self@, rhs@),
    {
        self.elementwise(rhs)
    }

    /// Shape of the element-wise quotient `self / rhs`.
    pub fn div(&self, rhs: &Tensor) -> (r: Result<Tensor, ShapeError>)
        ensures
            shape_of(r) == elementwise_shape(self@, rhs@),
    {
        self.elementwise(rhs)
    }

    /// Shape of the matrix product `self · rhs`.
    pub fn matmul(&self, rhs: &Tensor) -> (r: Result<Tensor, ShapeError>)
        ensures
            shape_of(r) == matmul_shape(self@, rhs@),
    {
        proof {
            use_type_invariant(self);
            use_type_invariant(rhs);
            self.lemma_view();
            rhs.lemma_view();
        }
        let ra = self.rank;
        let rb = rhs.rank;
        let supported = (ra == 1 && rb == 2) || (ra >= 2 && rb <= 2) || (ra >= 3 && ra == rb);
        if !supported {
            return Err(ShapeError::NotImplemented);
        }
        let inner = self.dims[ra - 1];
        let contracted = if rb == 1 {
            rhs.dims[0]
        } else {
            rhs.dims[rb - 2]
        };
        if inner != contracted {
            return Err(ShapeError::Mismatch);
        }
        if ra == rb && ra >= 3 {
            let mut i: usize = 0;
            while i < ra - 2
                invariant
                    3 <= ra <= 5,
                    ra == rb,
                    ra == self.rank,
                    rb == rhs.rank,
                    i <= ra - 2,
                    self@.len() == ra,
                    rhs@.len() == rb,
                    forall|k: int| 0 <= k < ra ==> self@[k] == self.dims[k],
                    forall|k: int| 0 <= k < rb ==> rhs@[k] == rhs.dims[k],
                    forall|k: int| 0 <= k < i ==> self@[k] == rhs@[k],
                decreases ra - 2 - i,
            {
                if self.dims[i] != rhs.dims[i] {
                    return Err(ShapeError::Mismatch);
                }
                i = i + 1;
            }
        }
        assert(same_batch(self@, rhs@));
        let mut d = self.dims;
        let rank = if rb == 1 {
            d[ra - 1] = 1;
            ra - 1
        } else if ra == 1 {
            d[0] = rhs.dims[1];
            1
        } else {
            d[ra - 1] = rhs.dims[rb - 1];
            ra
        };
        let out = Tensor::build(rank, d);
        proof {
            assert(Seq::new(rank as nat, |i: int| d[i] as nat) =~= matmul_axes(self@, rhs@));
            assert(axes_ok(matmul_axes(self@, rhs@)));
        }
        out
    }

    /// Shape after exchanging the axes `i` and `j`.
    pub fn transpose(&self, i: usize, j: usize) -> (r: Result<Tensor, ShapeError>)
        ensures
            shape_of(r) == transpose_shape(self@, i as int, j as int),
    {
        proof {
            use_type_invariant(self);
            self.lemma_view();
        }
        if i >= self.rank || j >= self.rank {
            return Err(ShapeError::OutOfRange);
        }
        let mut d = self.dims;
        d[i] = self.dims[j];
        d[j] = self.dims[i];
        proof {
            lemma_swap_keeps_product(self.dims@, d@, i as int, j as int);
        }
        let t = Tensor { rank: self.rank, dims: d };
        assert(t@ =~= swap_axes(self@, i as int, j as int));
        Ok(t)
    }

    /// Shape of the transpose of a matrix.
    pub fn tr(&self) -> (r: Result<Tensor, ShapeError>)
        ensures
            shape_of(r) == tr_shape(self@),
    {
        proof {
            use_type_invariant(self);
            self.lemma_view();
        }
        if self.rank != 2 {
            return Err(ShapeError::Mismatch);
        }
        let out = self.transpose(0, 1);
        proof {
            assert(swap_axes(self@, 0, 1) =~= seq![self@[1], self@[0]]);
        }
        out
    }

    /// Shape after laying the same elements out along the axes `dims`.
    pub fn reshape(&self, dims: &[u64]) -> (r: Result<Tensor, ShapeError>)
        ensures
            shape_of(r) == reshape_shape(self@, dims@.map_values(|d: u64| d as nat)),
    {
        let t = Tensor::new(dims)?;
        if t.numel() != self.numel() {
            return Err(ShapeError::Mismatch);
        }
        Ok(t)
    }

    /// Shape after putting an axis of size one in front.
    pub fn unsqueeze_start(&self) -> (r: Result<Tensor, ShapeError>)
        ensures
            shape_of(r) == unsqueeze_start_shape(self@),
    {
        proof {
            use_type_invariant(self);
            self.lemma_view();
        }
        if self.rank >= MAX_RANK {
            return Err(ShapeError::Invalid);
        }
        let d: [u64; 5] = [1, self.dims[0], self.dims[1], self.dims[2], self.dims[3]];
        assert(1 * self.dims[0] * self.dims[1] * self.dims[2] * self.dims[3] == self.dims[0]
            * self.dims[1] * self.dims[2] * self.dims[3] * self.dims[4]) by (nonlinear_arith)
            requires
                self.dims[4] == 1,
        ;
        let t = Tensor { rank: self.rank + 1, dims: d };
        assert(t@ =~= seq![1nat] + self@);
        Ok(t)
    }

    /// Shape after putting an axis of size one behind.
    pub fn unsqueeze_end(&self) -> (r: Result<Tensor, ShapeError>)
        ensures
            shape_of(r) == unsqueeze_end_shape(self@),
    {
        proof {
            use_type_invariant(self);
            self.lemma_view();
        }
        if self.rank >= MAX_RANK {
            return Err(ShapeError::Invalid);
        }
        let t = Tensor { rank: self.rank + 1, dims: self.dims };
        assert(t@ =~= self@.push(1));
        Ok(t)
    }

    fn without_first(&self) -> (t: Tensor)
        requires
            self@.len() >= 2,
        ensures
            t@ == self@.drop_first(),
    {
        proof {
            use_type_invariant(self);
            self.lemma_view();
        }
        let d: [u64; 5] = [self.dims[1], self.dims[2], self.dims[3], self.dims[4], 1];
        assert(self.dims[1] * self.dims[2] * self.dims[3] * self.dims[4] * 1 <= self.dims[0]
            * self.dims[1] * self.dims[2] * self.dims[3] * self.dims[4]) by (nonlinear_arith)
            requires
                self.dims[0] >= 1,
        ;
        let t = Tensor { rank: self.rank - 1, dims: d };
        assert(t@ =~= self@.drop_first());
        t
    }

    /// The tensor with one element on one axis.
    pub fn scalar() -> (t: Tensor)
        ensures
            t@ == seq![1nat],
    {
        let d: [u64; 5] = [1, 1, 1, 1, 1];
        assert(d[0] * d[1] * d[2] * d[3] * d[4] == 1) by (nonlinear_arith)
            requires
                d[0] == 1,
                d[1] == 1,
                d[2] == 1,
                d[3] == 1,
                d[4] == 1,
        ;
        let t = Tensor { rank: 1, dims: d };
        assert(t@ =~= seq![1nat]);
        t
    }

    /// Shape after taking away the first axis, which must have size one.
    pub fn squeeze_start(&self) -> (r: Result<Tensor, ShapeError>)
        ensures
            shape_of(r) == squeeze_start_shape(self@),
    {
        proof {
            use_type_invariant(self);
            self.lemma_view();
        }
        if self.rank < 2 {
            return Err(ShapeError::Invalid);
        }
        if self.dims[0] != 1 {
            return Err(ShapeError::Mismatch);
        }
        Ok(self.without_first())
    }

    /// Shape after taking away the last axis, which must have size one.
    pub fn squeeze_end(&self) -> (r: Result<Tensor, ShapeError>)
        ensures
            shape_of(r) == squeeze_end_shape(self@),
    {
        proof {
            use_type_invariant(self);
            self.lemma_view();
        }
        if self.rank < 2 {
            return Err(ShapeError::Invalid);
        }
        if self.dims[self.rank - 1] != 1 {
            return Err(ShapeError::Mismatch);
        }
        let t = Tensor { rank: self.rank - 1, dims: self.dims };
        assert(t@ =~= self@.drop_last());
        Ok(t)
    }

    /// Shape after tiling the axis `axis`, which must have size one, `repeats` times.
    pub fn repeat(&self, axis: usize, repeats: u64) -> (r: Result<Tensor, ShapeError>)
        ensures
            shape_of(r) == repeat_shape(self@, axis as int, repeats as nat),
    {
        proof {
            use_type_invariant(self);
            self.lemma_view();
        }
        if axis >= self.rank {
            return Err(ShapeError::OutOfRange);
        }
        if self.dims[axis] != 1 {
            return Err(ShapeError::Mismatch);
        }
        let mut d = self.dims;
        d[axis] = repeats;
        let out = Tensor::build(self.rank, d);
        proof {
            let want = self@.update(axis as int, repeats as nat);
            assert(Seq::new(self.rank as nat, |i: int| d[i] as nat) =~= want);
            if repeats == 0 {
                assert(want[axis as int] == 0);
            } else {
                assert(axes_ok(want));
            }
        }
        out
    }

    /// Shape after joining `self` and `other` along `axis`.
    pub fn cat(&self, other: &Tensor, axis: usize) -> (r: Result<Tensor, ShapeError>)
        ensures
            shape_of(r) == cat_shape(self@, other@, axis as int),
    {
        proof {
            use_type_invariant(self);
            use_type_invariant(other);
            self.lemma_view();
            other.lemma_view();
        }
        if axis >= self.rank {
            return Err(ShapeError::OutOfRange);
        }
        if self.rank != other.rank {
            return Err(ShapeError::Mismatch);
        }
        let mut i: usize = 0;
        while i < self.rank
            invariant
                i <= self.rank <= 5,
                axis < self.rank,
                self.rank == other.rank,
                self@.len() == self.rank,
                other@.len() == other.rank,
                forall|k: int| 0 <= k < self.rank ==> self@[k] == self.dims[k],
                forall|k: int| 0 <= k < self.rank ==> other@[k] == other.dims[k],
                forall|k: int| 0 <= k < i && k != axis ==> self@[k] == other@[k],
            decreases self.rank - i,
        {
            if i != axis && self.dims[i] != other.dims[i] {
                assert(self@[i as int] != other@[i as int]);
                return Err(ShapeError::Mismatch);
            }
            i = i + 1;
        }
        let ghost want = self@.update(axis as int, self@[axis as int] + other@[axis as int]);
        match self.dims[axis].checked_add(other.dims[axis]) {
            None => {
                proof {
                    assert(axes_ok(want));
                    lemma_count_covers_axis(want, axis as int);
                }
                Err(ShapeError::TooLarge)
            },
            Some(sum) => {
                let mut d = self.dims;
                d[axis] = sum;
                let out = Tensor::build(self.rank, d);
                proof {
                    assert(Seq::new(self.rank as nat, |i: int| d[i] as nat) =~= want);
                    assert(axes_ok(want));
                }
                out
            },
        }
    }

    /// Shape after joining along the first axis.
    pub fn cat_1(&self, other: &Tensor) -> (r: Result<Tensor, ShapeError>)
        ensures
            shape_of(r) == cat_shape(self@, other@, 0),
    {
        self.cat(other, 0)
    }

    /// Shape after joining along the second axis.
    pub fn cat_2(&self, other: &Tensor) -> (r: Result<Tensor, ShapeError>)
        ensures
            shape_of(r) == cat_shape(self@, other@, 1),
    {
        self.cat(other, 1)
    }

    /// Shape after joining along the third axis.
    pub fn cat_3(&self, other: &Tensor) -> (r: Result<Tensor, ShapeError>)
        ensures
            shape_of(r) == cat_shape(self@, other@, 2),
    {
        self.cat(other, 2)
    }

    fn entry(&self) -> (t: Tensor)
        ensures
            t@ == entry_shape(self@),
    {
        proof {
            use_type_invariant(self);
            self.lemma_view();
        }
        if self.rank >= 2 {
            self.without_first()
        } else {
            Tensor::scalar()
        }
    }

    /// Shape of the entry `index` along the first axis.
    pub fn get(&self, index: u64) -> (r: Result<Tensor, ShapeError>)
        ensures
            shape_of(r) == get_shape(self@, index as nat),
    {
        proof {
            use_type_invariant(self);
            self.lemma_view();
        }
        if index >= self.dims[0] {
            return Err(ShapeError::OutOfRange);
        }
        Ok(self.entry())
    }

    /// Whether `value` may overwrite the entry `index` along the first axis.
    /// The tensor keeps its shape either way.
    pub fn set(&self, index: u64, value: &Tensor) -> (r: Result<(), ShapeError>)
        ensures
            r == set_check(self@, index as nat, value@),
    {
        proof {
            use_type_invariant(self);
            self.lemma_view();
        }
        if index >= self.dims[0] {
            return Err(ShapeError::OutOfRange);
        }
        let e = self.entry();
        if !value.same_shape(&e) {
            return Err(ShapeError::Mismatch);
        }
        Ok(())
    }

    /// Shape after keeping the first `len` entries along `axis`.
    pub fn narrow(&self, axis: usize, len: u64) -> (r: Result<Tensor, ShapeError>)
        ensures
            shape_of(r) == narrow_shape(self@, axis as int, len as nat),
    {
        proof {
            use_type_invariant(self);
            self.lemma_view();
        }
        if axis >= self.rank || len > self.dims[axis] {
            return Err(ShapeError::OutOfRange);
        }
        let mut d = self.dims;
        d[axis] = len;
        let out = Tensor::build(self.rank, d);
        proof {
            let want = self@.update(axis as int, len as nat);
            assert(Seq::new(self.rank as nat, |i: int| d[i] as nat) =~= want);
            if len == 0 {
                assert(want[axis as int] == 0);
            } else {
                assert(axes_ok(want));
                lemma_count_monotone(want, self@);
            }
        }
        out
    }

    /// Shape of the entry `index` along `axis`: the tensor without that axis.
    pub fn select(&self, axis: usize, index: u64) -> (r: Result<Tensor, ShapeError>)
        ensures
            shape_of(r) == select_shape(self@, axis as int, index as nat),
    {
        proof {
            use_type_invariant(self);
            self.lemma_view();
        }
        if axis >= self.rank || index >= self.dims[axis] {
            return Err(ShapeError::OutOfRange);
        }
        if self.rank < 2 {
            return Err(ShapeError::Invalid);
        }
        let mut d: [u64; 5] = [1, 1, 1, 1, 1];
        let mut i: usize = 0;
        while i < self.rank - 1
            invariant
                2 <= self.rank <= 5,
                axis < self.rank,
                i <= self.rank - 1,
                forall|k: int| 0 <= k < 5 ==> self.dims[k] >= 1,
                forall|k: int| 0 <= k < i && k < axis ==> d[k] == self.dims[k],
                forall|k: int| 0 <= k < i && k >= axis ==> d[k] == self.dims[k + 1],
                forall|k: int| i <= k < 5 ==> d[k] == 1,
            decreases self.rank - 1 - i,
        {
            d[i] = if i < axis {
                self.dims[i]
            } else {
                self.dims[i + 1]
            };
            i = i + 1;
        }
        let out = Tensor::build(self.rank - 1, d);
        proof {
            let want = self@.remove(axis as int);
            assert(Seq::new((self.rank - 1) as nat, |i: int| d[i] as nat) =~= want);
            assert(axes_ok(want));
            lemma_count_without_axis(self@, axis as int);
        }
        out
    }

    /// Shape after overwriting the elements that `mask` marks.
    pub fn masked_fill(&self, mask: &Tensor) -> (r: Result<Tensor, ShapeError>)
        ensures
            shape_of(r) == masked_fill_shape(self@, mask@),
    {
        proof {
            use_type_invariant(self);
            use_type_invariant(mask);
            self.lemma_view();
            mask.lemma_view();
        }
        if self.rank != mask.rank {
            return Err(ShapeError::Mismatch);
        }
        let mut i: usize = 0;
        while i < self.rank
            invariant
                i <= self.rank <= 5,
                self.rank == mask.rank,
                self@.len() == self.rank,
                mask@.len() == mask.rank,
                forall|k: int| 0 <= k < self.rank ==> self@[k] == self.dims[k],
                forall|k: int| 0 <= k < self.rank ==> mask@[k] == mask.dims[k],
                forall|k: int| 0 <= k < i ==> mask@[k] == self@[k] || mask@[k] == 1,
            decreases self.rank - i,
        {
            if mask.dims[i] != self.dims[i] && mask.dims[i] != 1 {
                assert(!(mask@[i as int] == self@[i as int] || mask@[i as int] == 1));
                return Err(ShapeError::Mismatch);
            }
            i = i + 1;
        }
        Ok(*self)
    }

    /// Shape after the rectifier `max(x, 0)`.
    pub fn relu(&self) -> (t: Tensor)
        ensures
            t@ == self@,
    {
        *self
    }

    /// Shape after the Gaussian error linear unit.
    pub fn gelu(&self) -> (t: Tensor)
        ensures
            t@ == self@,
    {
        *self
    }

    /// Shape after the logistic function.
    pub fn sigmoid(&self) -> (t: Tensor)
        ensures
            t@ == self@,
    {
        *self
    }

    /// Shape after a parametric rectifier whose learned slope is `weight`.
    pub fn prelu(&self, weight: &Tensor) -> (r: Result<Tensor, ShapeError>)
        ensures
            shape_of(r) == prelu_shape(self@, weight@),
    {
        if weight.numel() == 1 {
            Ok(*self)
        } else {
            Err(ShapeError::Mismatch)
        }
    }
}

/// A tensor has at least as many elements as any of its axes is long.
pub proof fn lemma_count_covers_axis(s: Seq<nat>, i: int)
    requires
        s.len() <= 5,
        0 <= i < s.len(),
        forall|k: int| 0 <= k < s.len() ==> s[k] >= 1,
    ensures
        element_count(s) >= s[i],
{
    let a = axis_or_one(s, 0);
    let b = axis_or_one(s, 1);
    let c = axis_or_one(s, 2);
    let d = axis_or_one(s, 3);
    let e = axis_or_one(s, 4);
    assert(a * b * c * d * e >= a && a * b * c * d * e >= b && a * b * c * d * e >= c && a * b
        * c * d * e >= d && a * b * c * d * e >= e) by (nonlinear_arith)
        requires
            a >= 1,
            b >= 1,
            c >= 1,
            d >= 1,
            e >= 1,
    ;
}

proof fn lemma_swap_keeps_product(old_dims: Seq<u64>, new_dims: Seq<u64>, i: int, j: int)
    requires
        old_dims.len() == 5,
        new_dims.len() == 5,
        0 <= i < 5,
        0 <= j < 5,
        new_dims == old_dims.update(i, old_dims[j]).update(j, old_dims[i]),
    ensures
        new_dims[0] * new_dims[1] * new_dims[2] * new_dims[3] * new_dims[4] == old_dims[0]
            * old_dims[1] * old_dims[2] * old_dims[3] * old_dims[4],
{
    let a = old_dims[0] as int;
    let b = old_dims[1] as int;
    let c = old_dims[2] as int;
    let d = old_dims[3] as int;
    let e = old_dims[4] as int;
    assert(b * a * c * d * e == a * b * c * d * e) by (nonlinear_arith);
    assert(c * b * a * d * e == a * b * c * d * e) by (nonlinear_arith);
    assert(d * b * c * a * e == a * b * c * d * e) by (nonlinear_arith);
    assert(e * b * c * d * a == a * b * c * d * e) by (nonlinear_arith);
    assert(a * c * b * d * e == a * b * c * d * e) by (nonlinear_arith);
    assert(a * d * c * b * e == a * b * c * d * e) by (nonlinear_arith);
    assert(a * e * c * d * b == a * b * c * d * e) by (nonlinear_arith);
    assert(a * b * d * c * e == a * b * c * d * e) by (nonlinear_arith);
    assert(a * b * e * d * c == a * b * c * d * e) by (nonlinear_arith);
    assert(a * b * c * e * d == a * b * c * d * e) by (nonlinear_arith);
}

/// A tensor with no axis larger than another's has no more elements.
pub proof fn lemma_count_monotone(small: Seq<nat>, large: Seq<nat>)
    requires
        small.len() == large.len(),
        forall|i: int| 0 <= i < small.len() ==> small[i] <= large[i],
    ensures
        element_count(small) <= element_count(large),
{
    let a = axis_or_one(small, 0);
    let b = axis_or_one(small, 1);
    let c = axis_or_one(small, 2);
    let d = axis_or_one(small, 3);
    let e = axis_or_one(small, 4);
    let a2 = axis_or_one(large, 0);
    let b2 = axis_or_one(large, 1);
    let c2 = axis_or_one(large, 2);
    let d2 = axis_or_one(large, 3);
    let e2 = axis_or_one(large, 4);
    assert(a * b <= a2 * b2) by (nonlinear_arith)
        requires
            a <= a2,
            b <= b2,
    ;
    assert(a * b * c <= a2 * b2 * c2) by (nonlinear_arith)
        requires
            a * b <= a2 * b2,
            c <= c2,
    ;
    assert(a * b * c * d <= a2 * b2 * c2 * d2) by (nonlinear_arith)
        requires
            a * b * c <= a2 * b2 * c2,
            d <= d2,
    ;
    assert(a * b * c * d * e <= a2 * b2 * c2 * d2 * e2) by (nonlinear_arith)
        requires
            a * b * c * d <= a2 * b2 * c2 * d2,
            e <= e2,
    ;
}

/// Taking an axis away leaves no more elements than there were.
pub proof fn lemma_count_without_axis(a: Seq<nat>, axis: int)
    requires
        2 <= a.len() <= 5,
        0 <= axis < a.len(),
        forall|i: int| 0 <= i < a.len() ==> a[i] >= 1,
    ensures
        element_count(a.remove(axis)) <= element_count(a),
{
    let r = a.remove(axis);
    let v = axis_or_one(a, 0);
    let w = axis_or_one(a, 1);
    let x = axis_or_one(a, 2);
    let y = axis_or_one(a, 3);
    let z = axis_or_one(a, 4);
    assert(forall|i: int| 0 <= i < r.len() && i < axis ==> r[i] == a[i]);
    assert(forall|i: int| 0 <= i < r.len() && i >= axis ==> r[i] == a[i + 1]);
    assert(w * x * y * z * 1 <= v * w * x * y * z) by (nonlinear_arith)
        requires
            v >= 1,
    ;
    assert(v * x * y * z * 1 <= v * w * x * y * z) by (nonlinear_arith)
        requires
            w >= 1,
    ;
    assert(v * w * y * z * 1 <= v * w * x * y * z) by (nonlinear_arith)
        requires
            x >= 1,
    ;
    assert(v * w * x * z * 1 <= v * w * x * y * z) by (nonlinear_arith)
        requires
            y >= 1,
    ;
    assert(v * w * x * y * 1 <= v * w * x * y * z) by (nonlinear_arith)
        requires
            z >= 1,
    ;
}

/// A shape without empty axes has at least one element.
pub proof fn lemma_count_positive(dims: Seq<nat>)
    requires
        forall|i: int| 0 <= i < dims.len() ==> dims[i] >= 1,
    ensures
        element_count(dims) >= 1,
{
    let a = axis_or_one(dims, 0);
    let b = axis_or_one(dims, 1);
    let c = axis_or_one(dims, 2);
    let d = axis_or_one(dims, 3);
    let e = axis_or_one(dims, 4);
    assert(a * b * c * d * e >= 1) by (nonlinear_arith)
        requires
            a >= 1,
            b >= 1,
            c >= 1,
            d >= 1,
            e >= 1,
    ;
}

/// One more axis at the end multiplies the number of elements by its size.
pub proof fn lemma_count_push(dims: Seq<nat>, size: nat)
    requires
        dims.len() < 5,
    ensures
        element_count(dims.push(size)) == element_count(dims) * size,
{
    let p = dims.push(size);
    let a = axis_or_one(dims, 0);
    let b = axis_or_one(dims, 1);
    let c = axis_or_one(dims, 2);
    let d = axis_or_one(dims, 3);
    assert(forall|i: int| 0 <= i < dims.len() ==> p[i] == dims[i]);
    assert(p[dims.len() as int] == size);
    assert(size * 1 * 1 * 1 * 1 == 1 * 1 * 1 * 1 * 1 * size) by (nonlinear_arith);
    assert(a * size * 1 * 1 * 1 == a * 1 * 1 * 1 * 1 * size) by (nonlinear_arith);
    assert(a * b * size * 1 * 1 == a * b * 1 * 1 * 1 * size) by (nonlinear_arith);
    assert(a * b * c * size * 1 == a * b * c * 1 * 1 * size) by (nonlinear_arith);
    assert(a * b * c * d * size == a * b * c * d * 1 * size) by (nonlinear_arith);
}

/// The elements of a tensor are the entries along its first axes times the
/// elements of one such entry.
pub proof fn lemma_count_split(dims: Seq<nat>, axis: int)
    requires
        dims.len() <= 5,
        0 <= axis <= dims.len(),
    ensures
        element_count(dims) == count_before(dims, axis) * count_from(dims, axis),
    decreases dims.len() - axis,
{
    let head = dims.take(axis);
    let tail = dims.skip(axis);
    if axis == dims.len() {
        assert(head =~= dims);
        assert(tail =~= Seq::<nat>::empty());
        assert(element_count(dims) * 1 == element_count(dims)) by (nonlinear_arith);
        assert(1 * 1 * 1 * 1 * 1 == 1) by (nonlinear_arith);
    } else {
        lemma_count_split(dims, axis + 1);
        let next = dims.skip(axis + 1);
        assert(dims.take(axis + 1) =~= head.push(dims[axis]));
        lemma_count_push(head, dims[axis]);
        assert(tail =~= seq![dims[axis]] + next);
        lemma_count_front(dims[axis], next);
        let h = element_count(head);
        let x = dims[axis];
        let n = element_count(next);
        assert((h * x) * n == h * (x * n)) by (nonlinear_arith);
    }
}

/// One more axis in front multiplies the number of elements by its size.
pub proof fn lemma_count_front(size: nat, dims: Seq<nat>)
    requires
        dims.len() < 5,
    ensures
        element_count(seq![size] + dims) == size * element_count(dims),
{
    let p = seq![size] + dims;
    let a = axis_or_one(dims, 0);
    let b = axis_or_one(dims, 1);
    let c = axis_or_one(dims, 2);
    let d = axis_or_one(dims, 3);
    assert(p[0] == size);
    assert(forall|i: int| 1 <= i < p.len() ==> p[i] == dims[i - 1]);
    assert(size * a * b * c * d == size * (a * b * c * d * 1)) by (nonlinear_arith);
}

/// A vector of `a` entries has `a` elements.
pub proof fn lemma_count1(a: nat)
    ensures
        element_count(seq![a]) == a,
{
    assert(a * 1 * 1 * 1 * 1 == a) by (nonlinear_arith);
}

/// A tensor of the axes `a` and `b` has `a * b` elements.
pub proof fn lemma_count2(a: nat, b: nat)
    ensures
        element_count(seq![a, b]) == a * b,
{
    assert(a * b * 1 * 1 * 1 == a * b) by (nonlinear_arith);
}

/// A tensor of the axes `a`, `b` and `c` has `a * b * c` elements.
pub proof fn lemma_count3(a: nat, b: nat, c: nat)
    ensures
        element_count(seq![a, b, c]) == a * b * c,
{
    assert(a * b * c * 1 * 1 == a * b * c) by (nonlinear_arith);
}

/// A tensor of the axes `a`, `b`, `c` and `d` has `a * b * c * d` elements.
pub proof fn lemma_count4(a: nat, b: nat, c: nat, d: nat)
    ensures
        element_count(seq![a, b, c, d]) == a * b * c * d,
{
    assert(a * b * c * d * 1 == a * b * c * d) by (nonlinear_arith);
}

/// Matrix product, for the operand types that have one.
pub trait MatMul<T> {
    /// What the product is.
    type Output;

    /// The product `self · other`.
    fn matmul(&self, other: &T) -> Self::Output;
}

impl MatMul<Tensor> for Tensor {
    type Output = Result<Tensor, ShapeError>;

    fn matmul(&self, other: &Tensor) -> (r: Result<Tensor, ShapeError>)
        ensures
            shape_of(r) == matmul_shape(self@, other@),
    {
        Tensor::matmul(self, other)
    }
}

/// Tiling along the first axis.
pub trait Repeat1<Output> {
    /// `self`, whose first axis has size one, `repeats` times along that axis.
    fn repeat_1(self, repeats: u64) -> Output;
}

/// Tiling along the second axis.
pub trait Repeat2<Output> {
    /// `self`, whose second axis has size one, `repeats` times along that axis.
    fn repeat_2(self, repeats: u64) -> Output;
}

/// Tiling along the third axis.
pub trait Repeat3<Output> {
    /// `self`, whose third axis has size one, `repeats` times along that axis.
    fn repeat_3(self, repeats: u64) -> Output;
}

impl Repeat1<Result<Tensor, ShapeError>> for Tensor {
    fn repeat_1(self, repeats: u64) -> (r: Result<Tensor, ShapeError>)
        ensures
            shape_of(r) == repeat_shape(self@, 0, repeats as nat),
    {
        self.repeat(0, repeats)
    }
}

impl Repeat2<Result<Tensor, ShapeError>> for Tensor {
    fn repeat_2(self, repeats: u64) -> (r: Result<Tensor, ShapeError>)
        ensures
            shape_of(r) == repeat_shape(self@, 1, repeats as nat),
    {
        self.repeat(1, repeats)
    }
}

impl Repeat3<Result<Tensor, ShapeError>> for Tensor {
    fn repeat_3(self, repeats: u64) -> (r: Result<Tensor, ShapeError>)
        ensures
            shape_of(r) == repeat_shape(self@, 2, repeats as nat),
    {
        self.repeat(2, repeats)
    }
}

/// An element-wise operation is defined exactly when both shapes are equal or
/// the right operand is a bias vector for the left one, and it then has the
/// left operand's shape.
pub proof fn lemma_elementwise_defined(a: Seq<nat>, b: Seq<nat>)
    ensures
        elementwise_shape(a, b) is Ok <==> (a == b || bias_broadcast(a, b)),
        elementwise_shape(a, b) is Ok ==> elementwise_shape(a, b) == Ok::<Seq<nat>, ShapeError>(a),
{
}

/// Adding an operand and then subtracting the same operand gives back the
/// shape one started from.
pub proof fn lemma_elementwise_round_trip(a: Seq<nat>, b: Seq<nat>)
    requires
        elementwise_shape(a, b) is Ok,
    ensures
        elementwise_shape(elementwise_shape(a, b)->Ok_0, b) == Ok::<Seq<nat>, ShapeError>(a),
{
}

/// The product of an `m` by `k` matrix and a `k` by `n` matrix is an `m` by
/// `n` matrix, whenever that many elements can be counted in 64 bits.
pub proof fn lemma_matmul_of_matrices(m: nat, k: nat, n: nat)
    requires
        m * n <= u64::MAX,
    ensures
        matmul_shape(seq![m, k], seq![k, n]) == Ok::<Seq<nat>, ShapeError>(seq![m, n]),
{
    let a = seq![m, k];
    let b = seq![k, n];
    assert(matmul_axes(a, b) =~= seq![m, n]);
    assert(element_count(seq![m, n]) == m * n) by (nonlinear_arith)
        requires
            element_count(seq![m, n]) == m * n * 1 * 1 * 1,
    ;
}

/// The transpose of a product is the product of the transposes in the other
/// order: both are `n` by `m`.
pub proof fn lemma_matmul_transposed(m: nat, k: nat, n: nat)
    requires
        m * n <= u64::MAX,
    ensures
        matmul_shape(seq![m, k], seq![k, n]) matches Ok(p) && tr_shape(p) == Ok::<
            Seq<nat>,
            ShapeError,
        >(seq![n, m]),
        tr_shape(seq![k, n]) matches Ok(bt) && tr_shape(seq![m, k]) matches Ok(at)
            && matmul_shape(bt, at) == Ok::<Seq<nat>, ShapeError>(seq![n, m]),
{
    lemma_matmul_of_matrices(m, k, n);
    assert(n * m == m * n) by (nonlinear_arith);
    lemma_matmul_of_matrices(n, k, m);
    assert(seq![seq![k, n][1], seq![k, n][0]] =~= seq![n, k]);
    assert(seq![seq![m, k][1], seq![m, k][0]] =~= seq![k, m]);
    assert(seq![seq![m, n][1], seq![m, n][0]] =~= seq![n, m]);
}

/// Putting an axis of size one in front and taking it away again gives back
/// the shape one started from.
pub proof fn lemma_unsqueeze_then_squeeze(a: Seq<nat>)
    requires
        1 <= a.len() < MAX_RANK,
    ensures
        unsqueeze_start_shape(a) matches Ok(u) && squeeze_start_shape(u) == Ok::<
            Seq<nat>,
            ShapeError,
        >(a),
{
    let u = seq![1nat] + a;
    assert(u.drop_first() =~= a);
}

/// Putting an axis of size one behind and taking it away again gives back the
/// shape one started from.
pub proof fn lemma_unsqueeze_end_then_squeeze(a: Seq<nat>)
    requires
        1 <= a.len() < MAX_RANK,
    ensures
        unsqueeze_end_shape(a) matches Ok(u) && squeeze_end_shape(u) == Ok::<
            Seq<nat>,
            ShapeError,
        >(a),
{
    let u = a.push(1);
    assert(u.drop_last() =~= a);
}

/// After tiling the first axis to `repeats`, every entry below `repeats` exists
/// and has the shape of the one entry there was before.
pub proof fn lemma_repeat_then_get(a: Seq<nat>, repeats: nat, index: nat)
    requires
        a.len() >= 1,
        a[0] == 1,
        index < repeats,
        element_count(a.update(0, repeats)) <= u64::MAX,
    ensures
        repeat_shape(a, 0, repeats) matches Ok(r) && get_shape(r, index) == get_shape(a, 0),
        get_shape(a, 0) == Ok::<Seq<nat>, ShapeError>(entry_shape(a)),
{
    let r = a.update(0, repeats);
    if a.len() >= 2 {
        assert(r.drop_first() =~= a.drop_first());
    }
}

} // verus!
