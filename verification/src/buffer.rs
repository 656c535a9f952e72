use vstd::prelude::*;
use crate::error::{ShapeError, WeightCopyError};
use crate::module::{copy_view, CopyFailure};
use crate::tensor::{
    cat_shape, count_before, count_from, element_count, elementwise_shape, entry_shape,
    get_shape, lemma_count_front, lemma_count_positive, lemma_count_split, repeat_shape,
    reshape_shape, set_check, squeeze_end_shape, squeeze_start_shape, unsqueeze_end_shape,
    unsqueeze_start_shape, valid_shape, Tensor, MAX_RANK,
};

verus! {

/// The elements of a tensor as contracts speak of them.
pub struct BufferView<T> {
    /// The axes, first axis first.
    pub shape: Seq<nat>,
    /// The elements, last axis fastest.
    pub data: Seq<T>,
}

/// The elements of a tensor, kept on the caller's side of the engine: one
/// value for each element, row by row, together with the shape.
#[derive(Debug)]
pub struct Buffer<T> {
    shape: Tensor,
    data: Vec<T>,
}

impl<T> View for Buffer<T> {
    type V = BufferView<T>;

    closed spec fn view(&self) -> BufferView<T> {
        BufferView { shape: self.shape@, data: self.data@ }
    }
}

/// A shape with as many elements as the data has values.
pub open spec fn filled<T>(v: BufferView<T>) -> bool {
    valid_shape(v.shape) && v.data.len() == element_count(v.shape)
}

/// The view inside a result, or the error.
pub open spec fn buffer_of<T>(r: Result<Buffer<T>, ShapeError>) -> Result<
    BufferView<T>,
    ShapeError,
> {
    match r {
        Ok(b) => Ok(b@),
        Err(e) => Err(e),
    }
}

/// The same elements under the shape `shape`, where that is one.
pub open spec fn with_shape<T>(v: BufferView<T>, shape: Result<Seq<nat>, ShapeError>) -> Result<
    BufferView<T>,
    ShapeError,
> {
    match shape {
        Ok(s) => Ok(BufferView { shape: s, data: v.data }),
        Err(e) => Err(e),
    }
}

/// The elements `data` under the shape `shape`, where that is one and a
/// vector can hold so many elements.
pub open spec fn held<T>(shape: Result<Seq<nat>, ShapeError>, data: Seq<T>) -> Result<
    BufferView<T>,
    ShapeError,
> {
    match shape {
        Ok(s) => if element_count(s) > usize::MAX {
            Err(ShapeError::TooLarge)
        } else {
            Ok(BufferView { shape: s, data })
        },
        Err(e) => Err(e),
    }
}

/// The block of `size` elements with the number `index`, counted from zero.
pub open spec fn block_of<T>(data: Seq<T>, size: nat, index: nat) -> Seq<T> {
    data.subrange((index * size) as int, ((index + 1) * size) as int)
}

/// The entry `index` along the first axis: its elements lie side by side.
pub open spec fn get_view<T>(v: BufferView<T>, index: nat) -> Result<BufferView<T>, ShapeError> {
    match get_shape(v.shape, index) {
        Ok(s) => Ok(BufferView { shape: s, data: block_of(v.data, count_from(v.shape, 1), index) }),
        Err(e) => Err(e),
    }
}

/// The tensor after `value` took the place of the entry `index` along the
/// first axis.
pub open spec fn set_view<T>(v: BufferView<T>, index: nat, value: BufferView<T>) -> Result<
    BufferView<T>,
    ShapeError,
> {
    let size = count_from(v.shape, 1);
    match set_check(v.shape, index, value.shape) {
        Ok(_) => Ok(
            BufferView {
                shape: v.shape,
                data: v.data.subrange(0, (index * size) as int) + value.data + v.data.subrange(
                    ((index + 1) * size) as int,
                    v.data.len() as int,
                ),
            },
        ),
        Err(e) => Err(e),
    }
}

/// `block`, `times` times in a row.
pub open spec fn tiled<T>(block: Seq<T>, times: nat) -> Seq<T>
    decreases times,
{
    if times == 0 {
        Seq::empty()
    } else {
        tiled(block, (times - 1) as nat) + block
    }
}

/// The first `blocks` blocks of `size` elements of `data`, each `times`
/// times in a row.
pub open spec fn tiled_blocks<T>(data: Seq<T>, size: nat, times: nat, blocks: nat) -> Seq<T>
    decreases blocks,
{
    if blocks == 0 {
        Seq::empty()
    } else {
        tiled_blocks(data, size, times, (blocks - 1) as nat) + tiled(
            block_of(data, size, (blocks - 1) as nat),
            times,
        )
    }
}

/// The tensor after its axis `axis`, of size one, was tiled `repeats` times:
/// each entry along the axes before it comes `repeats` times in a row.
pub open spec fn repeat_view<T>(v: BufferView<T>, axis: int, repeats: nat) -> Result<
    BufferView<T>,
    ShapeError,
> {
    held(
        repeat_shape(v.shape, axis, repeats),
        tiled_blocks(v.data, count_from(v.shape, axis), repeats, count_before(v.shape, axis)),
    )
}

/// The first `blocks` blocks of `a`, each followed by the block of `b` with
/// the same number.
pub open spec fn interleaved<T>(a: Seq<T>, a_size: nat, b: Seq<T>, b_size: nat, blocks: nat) -> Seq<
    T,
>
    decreases blocks,
{
    if blocks == 0 {
        Seq::empty()
    } else {
        interleaved(a, a_size, b, b_size, (blocks - 1) as nat) + block_of(
            a,
            a_size,
            (blocks - 1) as nat,
        ) + block_of(b, b_size, (blocks - 1) as nat)
    }
}

/// Two tensors joined along `axis`: for each entry along the axes before
/// it, what the first tensor holds there, then what the second holds there.
pub open spec fn cat_view<T>(a: BufferView<T>, b: BufferView<T>, axis: int) -> Result<
    BufferView<T>,
    ShapeError,
> {
    held(
        cat_shape(a.shape, b.shape, axis),
        interleaved(
            a.data,
            count_from(a.shape, axis),
            b.data,
            count_from(b.shape, axis),
            count_before(a.shape, axis),
        ),
    )
}

/// The first `n` rows of `rows`, one after the other.
pub open spec fn joined<T>(rows: Seq<Vec<T>>, n: nat) -> Seq<T>
    decreases n,
{
    if n == 0 {
        Seq::empty()
    } else {
        joined(rows, (n - 1) as nat) + rows[n - 1]@
    }
}

/// Whether each of the first `n` rows has `cols` values.
pub open spec fn rows_of<T>(rows: Seq<Vec<T>>, n: nat, cols: nat) -> bool {
    forall|i: int| 0 <= i < n ==> (#[trigger] rows[i])@.len() == cols
}

/// The vector that holds `values`.
pub open spec fn vector_view<T>(values: Seq<T>) -> Result<BufferView<T>, ShapeError> {
    if values.len() == 0 {
        Err(ShapeError::Invalid)
    } else {
        Ok(BufferView { shape: seq![values.len()], data: values })
    }
}

/// The matrix that holds `rows`, which must be equally long and not empty.
pub open spec fn matrix_view<T>(rows: Seq<Vec<T>>) -> Result<BufferView<T>, ShapeError> {
    if rows.len() == 0 || rows[0]@.len() == 0 {
        Err(ShapeError::Invalid)
    } else if !rows_of(rows, rows.len(), rows[0]@.len()) {
        Err(ShapeError::Mismatch)
    } else if rows.len() * rows[0]@.len() > usize::MAX {
        Err(ShapeError::TooLarge)
    } else {
        Ok(BufferView { shape: seq![rows.len(), rows[0]@.len()], data: joined(rows, rows.len()) })
    }
}

/// Rows of `cols` values, joined, have `cols` values for each row.
pub proof fn lemma_joined_len<T>(rows: Seq<Vec<T>>, n: nat, cols: nat)
    requires
        n <= rows.len(),
        rows_of(rows, n, cols),
    ensures
        joined(rows, n).len() == n * cols,
    decreases n,
{
    if n > 0 {
        lemma_joined_len(rows, (n - 1) as nat, cols);
        assert(rows[n - 1]@.len() == cols);
        assert((n - 1) * cols + cols == n * cols) by (nonlinear_arith)
            requires
                n >= 1,
        ;
    } else {
        assert(n * cols == 0) by (nonlinear_arith)
            requires
                n == 0,
        ;
    }
}

/// Whether `mask` has `size` rows of `size` entries.
pub open spec fn square_mask(mask: Seq<Vec<bool>>, size: nat) -> bool {
    mask.len() == size && rows_of(mask, size, size)
}

/// The elements after `value` took the place of each one that `visible`
/// hides. Along the last two axes, both `size` long, the element in row `q`
/// and column `k` stays where entry `k` of row `q` of `visible` holds.
pub open spec fn masked_data<T>(data: Seq<T>, visible: Seq<Vec<bool>>, size: nat, value: T) -> Seq<
    T,
> {
    Seq::new(
        data.len(),
        |i: int|
            if visible[(i / size as int) % size as int]@[i % size as int] {
                data[i]
            } else {
                value
            },
    )
}

/// The tensor after `value` took the place of each element that `visible`
/// hides; the last two axes must be equally long and `visible` as large.
pub open spec fn masked_view<T>(v: BufferView<T>, visible: Seq<Vec<bool>>, value: T) -> Result<
    BufferView<T>,
    ShapeError,
> {
    let n = v.shape.len();
    if n < 2 || v.shape[n - 1] != v.shape[n - 2] || !square_mask(visible, v.shape[n - 1]) {
        Err(ShapeError::Mismatch)
    } else {
        Ok(BufferView { shape: v.shape, data: masked_data(v.data, visible, v.shape[n - 1], value) })
    }
}

/// `times` blocks of `block` have `times` times as many elements.
pub proof fn lemma_tiled_len<T>(block: Seq<T>, times: nat)
    ensures
        tiled(block, times).len() == times * block.len(),
    decreases times,
{
    if times > 0 {
        lemma_tiled_len(block, (times - 1) as nat);
        assert((times - 1) * block.len() + block.len() == times * block.len())
            by (nonlinear_arith)
            requires
                times >= 1,
        ;
    } else {
        assert(times * block.len() == 0) by (nonlinear_arith)
            requires
                times == 0,
        ;
    }
}

/// Every block of a tiling is the block that was tiled.
pub proof fn lemma_tiled_block<T>(block: Seq<T>, times: nat, index: nat)
    requires
        index < times,
    ensures
        block_of(tiled(block, times), block.len(), index) == block,
    decreases times,
{
    let n = block.len();
    let before = tiled(block, (times - 1) as nat);
    lemma_tiled_len(block, (times - 1) as nat);
    lemma_tiled_len(block, times);
    assert(index * n + n == (index + 1) * n) by (nonlinear_arith);
    if index == times - 1 {
        assert((before + block).subrange((index * n) as int, ((index + 1) * n) as int) =~= block);
    } else {
        lemma_tiled_block(block, (times - 1) as nat, index);
        assert((index + 1) * n <= (times - 1) * n) by (nonlinear_arith)
            requires
                index + 1 <= times - 1,
        ;
        assert((before + block).subrange((index * n) as int, ((index + 1) * n) as int)
            =~= before.subrange((index * n) as int, ((index + 1) * n) as int));
    }
}

/// Tiled blocks have `times` times as many elements as the blocks.
pub proof fn lemma_tiled_blocks_len<T>(data: Seq<T>, size: nat, times: nat, blocks: nat)
    requires
        blocks * size <= data.len(),
    ensures
        tiled_blocks(data, size, times, blocks).len() == blocks * (times * size),
    decreases blocks,
{
    if blocks > 0 {
        assert((blocks - 1) * size + size == blocks * size) by (nonlinear_arith)
            requires
                blocks >= 1,
        ;
        assert((blocks - 1) * size >= 0) by (nonlinear_arith)
            requires
                blocks >= 1,
        ;
        lemma_tiled_blocks_len(data, size, times, (blocks - 1) as nat);
        lemma_tiled_len(block_of(data, size, (blocks - 1) as nat), times);
        assert((blocks - 1) * (times * size) + times * size == blocks * (times * size))
            by (nonlinear_arith)
            requires
                blocks >= 1,
        ;
    } else {
        assert(blocks * (times * size) == 0) by (nonlinear_arith)
            requires
                blocks == 0,
        ;
    }
}

/// Interleaved blocks have as many elements as the blocks of both together.
pub proof fn lemma_interleaved_len<T>(
    a: Seq<T>,
    a_size: nat,
    b: Seq<T>,
    b_size: nat,
    blocks: nat,
)
    requires
        blocks * a_size <= a.len(),
        blocks * b_size <= b.len(),
    ensures
        interleaved(a, a_size, b, b_size, blocks).len() == blocks * (a_size + b_size),
    decreases blocks,
{
    if blocks > 0 {
        assert((blocks - 1) * a_size + a_size == blocks * a_size && (blocks - 1) * a_size >= 0)
            by (nonlinear_arith)
            requires
                blocks >= 1,
        ;
        assert((blocks - 1) * b_size + b_size == blocks * b_size && (blocks - 1) * b_size >= 0)
            by (nonlinear_arith)
            requires
                blocks >= 1,
        ;
        lemma_interleaved_len(a, a_size, b, b_size, (blocks - 1) as nat);
        assert((blocks - 1) * (a_size + b_size) + a_size + b_size == blocks * (a_size + b_size))
            by (nonlinear_arith)
            requires
                blocks >= 1,
        ;
    } else {
        assert(blocks * (a_size + b_size) == 0) by (nonlinear_arith)
            requires
                blocks == 0,
        ;
    }
}

/// Along an axis, a tensor holds as many elements from that axis on as the
/// axis is long times the elements behind it.
pub proof fn lemma_count_from_axis(dims: Seq<nat>, axis: int)
    requires
        dims.len() <= 5,
        0 <= axis < dims.len(),
    ensures
        count_from(dims, axis) == dims[axis] * count_from(dims, axis + 1),
{
    assert(dims.skip(axis) =~= seq![dims[axis]] + dims.skip(axis + 1));
    lemma_count_front(dims[axis], dims.skip(axis + 1));
}

/// Another size on one axis changes the number of elements from that axis
/// on in proportion, and nothing before it.
pub proof fn lemma_count_update(dims: Seq<nat>, axis: int, size: nat)
    requires
        dims.len() <= 5,
        0 <= axis < dims.len(),
    ensures
        count_before(dims.update(axis, size), axis) == count_before(dims, axis),
        count_from(dims.update(axis, size), axis) == size * count_from(dims, axis + 1),
        element_count(dims.update(axis, size)) == count_before(dims, axis) * (size * count_from(
            dims,
            axis + 1,
        )),
{
    let new = dims.update(axis, size);
    assert(new.take(axis) =~= dims.take(axis));
    assert(new.skip(axis + 1) =~= dims.skip(axis + 1));
    lemma_count_from_axis(new, axis);
    lemma_count_split(new, axis);
}

impl<T> Buffer<T> {
    /// Every buffer that executable code can hold satisfies this.
    #[verifier::type_invariant]
    pub closed spec fn well_formed(self) -> bool {
        self.shape.well_formed() && self.data@.len() == element_count(self.shape@)
    }

    /// A well-formed buffer has a value for each element of its shape.
    pub proof fn lemma_filled(self)
        requires
            self.well_formed(),
        ensures
            filled(self@),
    {
        self.shape.lemma_valid();
    }
}

impl<T: Copy> Buffer<T> {
    /// The tensor of shape `shape` with the elements `data`, row by row.
    pub fn new(shape: Tensor, data: Vec<T>) -> (r: Result<Buffer<T>, ShapeError>)
        ensures
            buffer_of(r) == if data@.len() == element_count(shape@) {
                Ok::<BufferView<T>, ShapeError>(BufferView { shape: shape@, data: data@ })
            } else {
                Err::<BufferView<T>, ShapeError>(ShapeError::Mismatch)
            },
    {
        proof {
            use_type_invariant(&shape);
        }
        if data.len() as u64 != shape.numel() {
            return Err(ShapeError::Mismatch);
        }
        Ok(Buffer { shape, data })
    }

    /// The tensor of shape `shape` whose elements are all `value`, unless a
    /// vector cannot hold so many.
    pub fn filled(shape: Tensor, value: T) -> (r: Result<Buffer<T>, ShapeError>)
        ensures
            buffer_of(r) == held(
                Ok::<Seq<nat>, ShapeError>(shape@),
                Seq::new(element_count(shape@), |i: int| value),
            ),
    {
        proof {
            use_type_invariant(&shape);
        }
        let count = shape.numel();
        if count > usize::MAX as u64 {
            return Err(ShapeError::TooLarge);
        }
        let n = count as usize;
        let mut data: Vec<T> = Vec::new();
        let mut i: usize = 0;
        while i < n
            invariant
                i <= n,
                data@.len() == i,
                forall|k: int| 0 <= k < i ==> data@[k] == value,
            decreases n - i,
        {
            data.push(value);
            i = i + 1;
        }
        assert(data@ =~= Seq::new(element_count(shape@), |i: int| value));
        Ok(Buffer { shape, data })
    }

    /// The vector that holds `values`.
    pub fn from_arr(values: &[T]) -> (r: Result<Buffer<T>, ShapeError>)
        ensures
            buffer_of(r) == vector_view(values@),
    {
        let n = values.len();
        if n == 0 {
            return Err(ShapeError::Invalid);
        }
        let mut data: Vec<T> = Vec::new();
        let mut i: usize = 0;
        while i < n
            invariant
                i <= n,
                n == values@.len(),
                data@ == values@.subrange(0, i as int),
            decreases n - i,
        {
            data.push(values[i]);
            assert(values@.subrange(0, i as int).push(values@[i as int]) =~= values@.subrange(
                0,
                i + 1,
            ));
            i = i + 1;
        }
        assert(values@.subrange(0, n as int) =~= values@);
        proof {
            crate::tensor::lemma_count1(n as nat);
        }
        let shape = Tensor::vector(n as u64);
        proof {
            use_type_invariant(&shape);
        }
        Ok(Buffer { shape, data })
    }

    /// The matrix that holds `rows`, first row first.
    pub fn from_arr_2d(rows: &Vec<Vec<T>>) -> (r: Result<Buffer<T>, ShapeError>)
        ensures
            buffer_of(r) == matrix_view(rows@),
    {
        let n = rows.len();
        if n == 0 {
            return Err(ShapeError::Invalid);
        }
        let cols = rows[0].len();
        if cols == 0 {
            return Err(ShapeError::Invalid);
        }
        let mut i: usize = 0;
        while i < n
            invariant
                i <= n,
                n == rows@.len(),
                cols == rows@[0]@.len(),
                cols >= 1,
                rows_of(rows@, i as nat, cols as nat),
            decreases n - i,
        {
            if rows[i].len() != cols {
                assert(rows@[i as int]@.len() != cols);
                return Err(ShapeError::Mismatch);
            }
            i = i + 1;
        }
        if n.checked_mul(cols).is_none() {
            return Err(ShapeError::TooLarge);
        }
        let mut data: Vec<T> = Vec::new();
        let mut i: usize = 0;
        while i < n
            invariant
                i <= n,
                n == rows@.len(),
                cols == rows@[0]@.len(),
                cols >= 1,
                n * cols <= usize::MAX,
                rows_of(rows@, n as nat, cols as nat),
                data@ == joined(rows@, i as nat),
            decreases n - i,
        {
            let row = &rows[i];
            let ghost so_far = data@;
            let mut j: usize = 0;
            while j < cols
                invariant
                    j <= cols,
                    cols == row@.len(),
                    data@ == so_far + row@.subrange(0, j as int),
                decreases cols - j,
            {
                data.push(row[j]);
                assert((so_far + row@.subrange(0, j as int)).push(row@[j as int]) =~= so_far
                    + row@.subrange(0, j + 1));
                j = j + 1;
            }
            assert(row@.subrange(0, cols as int) =~= row@);
            i = i + 1;
        }
        proof {
            lemma_joined_len(rows@, n as nat, cols as nat);
            crate::tensor::lemma_count2(n as nat, cols as nat);
        }
        let shape = Tensor::matrix(n as u64, cols as u64);
        proof {
            use_type_invariant(&shape);
        }
        Ok(Buffer { shape, data })
    }

    /// The shape.
    pub fn shape(&self) -> (t: Tensor)
        ensures
            t@ == self@.shape,
    {
        self.shape
    }

    /// The elements, row by row.
    pub fn data(&self) -> (d: &Vec<T>)
        ensures
            d@ == self@.data,
    {
        &self.data
    }

    fn copy_range(&self, from: usize, to: usize) -> (out: Vec<T>)
        requires
            from <= to <= self@.data.len(),
        ensures
            out@ == self@.data.subrange(from as int, to as int),
    {
        let mut out: Vec<T> = Vec::new();
        let mut i: usize = from;
        while i < to
            invariant
                from <= i <= to <= self.data@.len(),
                out@ == self.data@.subrange(from as int, i as int),
            decreases to - i,
        {
            out.push(self.data[i]);
            assert(self.data@.subrange(from as int, i as int).push(self.data@[i as int])
                =~= self.data@.subrange(from as int, i + 1));
            i = i + 1;
        }
        out
    }

    fn entry_size(&self) -> (size: usize)
        ensures
            size == count_from(self@.shape, 1),
            size >= 1,
            self@.shape[0] * size == self@.data.len(),
    {
        proof {
            use_type_invariant(self);
            self.shape.lemma_valid();
            lemma_count_split(self.shape@, 1);
            lemma_count_positive(self.shape@.skip(1));
            assert(self.shape@.take(1) =~= seq![self.shape@[0]]);
            crate::tensor::lemma_count1(self.shape@[0]);
            let size = count_from(self.shape@, 1);
            let first = self.shape@[0];
            assert(first >= 1);
            assert(count_before(self.shape@, 1) == first);
            assert(element_count(self.shape@) == first * size);
            assert(size <= first * size) by (nonlinear_arith)
                requires
                    first >= 1,
            ;
            assert(self.data@.len() == first * size);
        }
        let n = self.data.len();
        let size = self.shape.count_from(1);
        assert(size <= n);
        size as usize
    }

    fn blocks(&self, axis: usize) -> (r: (usize, usize))
        requires
            axis <= self@.shape.len(),
        ensures
            r.0 == count_before(self@.shape, axis as int),
            r.1 == count_from(self@.shape, axis as int),
            r.0 >= 1,
            r.1 >= 1,
            r.0 * r.1 == self@.data.len(),
            r.0 * r.1 <= usize::MAX,
    {
        proof {
            use_type_invariant(self);
        }
        let n = self.data.len();
        let before = self.shape.count_before(axis);
        let from = self.shape.count_from(axis);
        proof {
            assert(before <= before * from && from <= before * from) by (nonlinear_arith)
                requires
                    before >= 1,
                    from >= 1,
            ;
        }
        (before as usize, from as usize)
    }

    proof fn lemma_entry(self, index: nat, size: nat)
        requires
            self.well_formed(),
            size == count_from(self@.shape, 1),
            self@.shape[0] * size == self@.data.len(),
            size >= 1,
            index < self@.shape[0],
        ensures
            index < self@.data.len(),
            (index + 1) * size == index * size + size,
            0 <= index * size,
            index * size + size <= self@.data.len(),
            element_count(entry_shape(self@.shape)) == size,
    {
        let first = self@.shape[0];
        assert((index + 1) * size == index * size + size && 0 <= index * size && index * size
            + size <= first * size && first <= first * size) by (nonlinear_arith)
            requires
                index < first,
                size >= 1,
        ;
        if self@.shape.len() >= 2 {
            assert(self@.shape.drop_first() =~= self@.shape.skip(1));
        } else {
            self.shape.lemma_valid();
            assert(self@.shape.skip(1) =~= Seq::<nat>::empty());
            crate::tensor::lemma_count1(1);
            assert(1 * 1 * 1 * 1 * 1 == 1) by (nonlinear_arith);
        }
    }

    /// The entry `index` along the first axis.
    pub fn get(&self, index: u64) -> (r: Result<Buffer<T>, ShapeError>)
        ensures
            buffer_of(r) == get_view(self@, index as nat),
    {
        proof {
            use_type_invariant(self);
        }
        let shape = self.shape.get(index)?;
        let size = self.entry_size();
        let n = self.data.len();
        proof {
            use_type_invariant(&shape);
            self.lemma_entry(index as nat, size as nat);
        }
        let from = (index as usize) * size;
        let data = self.copy_range(from, from + size);
        Ok(Buffer { shape, data })
    }

    /// Puts `value` in the place of the entry `index` along the first axis.
    pub fn set(&mut self, index: u64, value: &Buffer<T>) -> (r: Result<(), ShapeError>)
        ensures
            match set_view(old(self)@, index as nat, value@) {
                Ok(v) => r is Ok && final(self)@ == v,
                Err(e) => r == Err::<(), ShapeError>(e) && final(self)@ == old(self)@,
            },
    {
        proof {
            use_type_invariant(&*self);
            use_type_invariant(value);
        }
        self.shape.set(index, &value.shape)?;
        let size = self.entry_size();
        let n = self.data.len();
        proof {
            self.lemma_entry(index as nat, size as nat);
        }
        let from = (index as usize) * size;
        let ghost before = self.data@;
        let mut data = self.copy_range(0, from);
        let mut i: usize = 0;
        while i < size
            invariant
                i <= size,
                size == value.data@.len(),
                data@ == before.subrange(0, from as int) + value.data@.subrange(0, i as int),
            decreases size - i,
        {
            data.push(value.data[i]);
            assert((before.subrange(0, from as int) + value.data@.subrange(0, i as int)).push(
                value.data@[i as int],
            ) =~= before.subrange(0, from as int) + value.data@.subrange(0, i + 1));
            i = i + 1;
        }
        let mut rest = self.copy_range(from + size, n);
        assert(value.data@.subrange(0, size as int) =~= value.data@);
        data.append(&mut rest);
        let shape = self.shape;
        *self = Buffer { shape, data };
        Ok(())
    }

    fn reshaped(&self, shape: Tensor) -> (b: Buffer<T>)
        requires
            element_count(shape@) == element_count(self@.shape),
        ensures
            b@ == (BufferView { shape: shape@, data: self@.data }),
    {
        proof {
            use_type_invariant(self);
            use_type_invariant(&shape);
        }
        let data = self.copy_range(0, self.data.len());
        assert(self.data@.subrange(0, self.data@.len() as int) =~= self.data@);
        Buffer { shape, data }
    }

    /// The same elements laid out along the axes `dims`.
    pub fn reshape(&self, dims: &[u64]) -> (r: Result<Buffer<T>, ShapeError>)
        ensures
            buffer_of(r) == with_shape(
                self@,
                reshape_shape(self@.shape, dims@.map_values(|d: u64| d as nat)),
            ),
    {
        let shape = self.shape.reshape(dims)?;
        Ok(self.reshaped(shape))
    }

    /// The same elements with an axis of size one in front.
    pub fn unsqueeze_start(&self) -> (r: Result<Buffer<T>, ShapeError>)
        ensures
            buffer_of(r) == with_shape(self@, unsqueeze_start_shape(self@.shape)),
    {
        proof {
            use_type_invariant(self);
            if self.shape@.len() < MAX_RANK {
                lemma_count_front(1, self.shape@);
                assert(1 * element_count(self.shape@) == element_count(self.shape@))
                    by (nonlinear_arith);
            }
        }
        let shape = self.shape.unsqueeze_start()?;
        Ok(self.reshaped(shape))
    }

    /// The same elements with an axis of size one behind.
    pub fn unsqueeze_end(&self) -> (r: Result<Buffer<T>, ShapeError>)
        ensures
            buffer_of(r) == with_shape(self@, unsqueeze_end_shape(self@.shape)),
    {
        proof {
            use_type_invariant(self);
            if self.shape@.len() < MAX_RANK {
                crate::tensor::lemma_count_push(self.shape@, 1);
                assert(element_count(self.shape@) * 1 == element_count(self.shape@))
                    by (nonlinear_arith);
            }
        }
        let shape = self.shape.unsqueeze_end()?;
        Ok(self.reshaped(shape))
    }

    /// The same elements without the first axis, which must have size one.
    pub fn squeeze_start(&self) -> (r: Result<Buffer<T>, ShapeError>)
        ensures
            buffer_of(r) == with_shape(self@, squeeze_start_shape(self@.shape)),
    {
        proof {
            use_type_invariant(self);
            self.shape.lemma_valid();
            let s = self.shape@;
            if s.len() >= 2 && s[0] == 1 {
                assert(s =~= seq![1nat] + s.drop_first());
                lemma_count_front(1, s.drop_first());
                assert(1 * element_count(s.drop_first()) == element_count(s.drop_first()))
                    by (nonlinear_arith);
            }
        }
        let shape = self.shape.squeeze_start()?;
        Ok(self.reshaped(shape))
    }

    /// The same elements without the last axis, which must have size one.
    pub fn squeeze_end(&self) -> (r: Result<Buffer<T>, ShapeError>)
        ensures
            buffer_of(r) == with_shape(self@, squeeze_end_shape(self@.shape)),
    {
        proof {
            use_type_invariant(self);
            self.shape.lemma_valid();
            let s = self.shape@;
            if s.len() >= 2 && s.last() == 1 {
                assert(s =~= s.drop_last().push(1));
                crate::tensor::lemma_count_push(s.drop_last(), 1);
                assert(element_count(s.drop_last()) * 1 == element_count(s.drop_last()))
                    by (nonlinear_arith);
            }
        }
        let shape = self.shape.squeeze_end()?;
        Ok(self.reshaped(shape))
    }

    /// The tensor after its axis `axis`, of size one, was tiled `repeats` times.
    pub fn repeat(&self, axis: usize, repeats: u64) -> (r: Result<Buffer<T>, ShapeError>)
        ensures
            buffer_of(r) == repeat_view(self@, axis as int, repeats as nat),
    {
        proof {
            use_type_invariant(self);
            self.shape.lemma_valid();
        }
        let shape = self.shape.repeat(axis, repeats)?;
        let count = shape.numel();
        if count > usize::MAX as u64 {
            return Err(ShapeError::TooLarge);
        }
        let (blocks, size) = self.blocks(axis);
        let ghost data = self.data@;
        proof {
            use_type_invariant(&shape);
            lemma_count_from_axis(self.shape@, axis as int);
            lemma_count_update(self.shape@, axis as int, repeats as nat);
            let inner = count_from(self.shape@, axis + 1);
            assert(1 * inner == inner) by (nonlinear_arith);
            assert(count == blocks * (repeats * size));
            assert(repeats <= blocks * (repeats * size)) by (nonlinear_arith)
                requires
                    blocks >= 1,
                    size >= 1,
            ;
        }
        let times = repeats as usize;
        let mut out: Vec<T> = Vec::new();
        let mut o: usize = 0;
        while o < blocks
            invariant
                o <= blocks,
                data == self.data@,
                blocks * size == data.len(),
                blocks * size <= usize::MAX,
                out@ == tiled_blocks(data, size as nat, times as nat, o as nat),
            decreases blocks - o,
        {
            proof {
                assert(o * size + size <= blocks * size && (o + 1) * size == o * size + size && 0
                    <= o * size) by (nonlinear_arith)
                    requires
                        o < blocks,
                        0 <= size,
                ;
            }
            let block = self.copy_range(o * size, o * size + size);
            assert(block@ == block_of(data, size as nat, o as nat));
            let ghost before = out@;
            let mut t: usize = 0;
            while t < times
                invariant
                    t <= times,
                    block@.len() == size,
                    out@ == before + tiled(block@, t as nat),
                decreases times - t,
            {
                let ghost so_far = out@;
                let mut j: usize = 0;
                while j < size
                    invariant
                        j <= size,
                        block@.len() == size,
                        out@ == so_far + block@.subrange(0, j as int),
                    decreases size - j,
                {
                    out.push(block[j]);
                    assert((so_far + block@.subrange(0, j as int)).push(block@[j as int])
                        =~= so_far + block@.subrange(0, j + 1));
                    j = j + 1;
                }
                assert(block@.subrange(0, size as int) =~= block@);
                assert(before + tiled(block@, t as nat) + block@ =~= before + tiled(
                    block@,
                    (t + 1) as nat,
                ));
                t = t + 1;
            }
            o = o + 1;
        }
        proof {
            lemma_tiled_blocks_len(data, size as nat, times as nat, blocks as nat);
        }
        Ok(Buffer { shape, data: out })
    }

    /// Two tensors joined along `axis`.
    pub fn cat(&self, other: &Buffer<T>, axis: usize) -> (r: Result<Buffer<T>, ShapeError>)
        ensures
            buffer_of(r) == cat_view(self@, other@, axis as int),
    {
        proof {
            use_type_invariant(self);
            use_type_invariant(other);
            self.shape.lemma_valid();
            other.shape.lemma_valid();
        }
        let shape = self.shape.cat(&other.shape, axis)?;
        let count = shape.numel();
        if count > usize::MAX as u64 {
            return Err(ShapeError::TooLarge);
        }
        let (blocks, a_size) = self.blocks(axis);
        let (b_blocks, b_size) = other.blocks(axis);
        let ghost a = self.data@;
        let ghost b = other.data@;
        proof {
            use_type_invariant(&shape);
            let sa = self.shape@;
            let sb = other.shape@;
            assert(sa.take(axis as int) =~= sb.take(axis as int));
            assert(sa.skip(axis + 1) =~= sb.skip(axis + 1));
            assert(b_blocks == blocks);
            lemma_count_from_axis(sa, axis as int);
            lemma_count_from_axis(sb, axis as int);
            lemma_count_update(sa, axis as int, sa[axis as int] + sb[axis as int]);
            let inner = count_from(sa, axis + 1);
            assert((sa[axis as int] + sb[axis as int]) * inner == sa[axis as int] * inner
                + sb[axis as int] * inner) by (nonlinear_arith);
            assert(count == blocks * (a_size + b_size));
        }
        let mut out: Vec<T> = Vec::new();
        let mut o: usize = 0;
        while o < blocks
            invariant
                o <= blocks,
                a == self.data@,
                b == other.data@,
                blocks * a_size == a.len(),
                blocks * b_size == b.len(),
                blocks * a_size <= usize::MAX,
                blocks * b_size <= usize::MAX,
                out@ == interleaved(a, a_size as nat, b, b_size as nat, o as nat),
            decreases blocks - o,
        {
            proof {
                assert(o * a_size + a_size <= blocks * a_size && (o + 1) * a_size == o * a_size
                    + a_size && 0 <= o * a_size) by (nonlinear_arith)
                    requires
                        o < blocks,
                        0 <= a_size,
                ;
                assert(o * b_size + b_size <= blocks * b_size && (o + 1) * b_size == o * b_size
                    + b_size && 0 <= o * b_size) by (nonlinear_arith)
                    requires
                        o < blocks,
                        0 <= b_size,
                ;
            }
            let mut first = self.copy_range(o * a_size, o * a_size + a_size);
            let mut second = other.copy_range(o * b_size, o * b_size + b_size);
            assert(first@ == block_of(a, a_size as nat, o as nat));
            assert(second@ == block_of(b, b_size as nat, o as nat));
            out.append(&mut first);
            out.append(&mut second);
            o = o + 1;
        }
        proof {
            lemma_interleaved_len(a, a_size as nat, b, b_size as nat, blocks as nat);
        }
        Ok(Buffer { shape, data: out })
    }

    /// Puts `value` in the place of every element that `visible` hides.
    pub fn masked_fill(&self, visible: &Vec<Vec<bool>>, value: T) -> (r: Result<
        Buffer<T>,
        ShapeError,
    >)
        ensures
            buffer_of(r) == masked_view(self@, visible@, value),
    {
        proof {
            use_type_invariant(self);
            self.shape.lemma_valid();
        }
        let rank = self.shape.rank();
        if rank < 2 {
            return Err(ShapeError::Mismatch);
        }
        let last = self.shape.last_dim();
        if self.shape.dim(rank - 2) != Some(last) || visible.len() as u64 != last {
            return Err(ShapeError::Mismatch);
        }
        let size = visible.len();
        let mut q: usize = 0;
        while q < size
            invariant
                q <= size,
                size == visible@.len(),
                rows_of(visible@, q as nat, size as nat),
            decreases size - q,
        {
            if visible[q].len() != size {
                assert(visible@[q as int]@.len() != size);
                return Err(ShapeError::Mismatch);
            }
            q = q + 1;
        }
        let n = self.data.len();
        let mut data: Vec<T> = Vec::new();
        let mut i: usize = 0;
        while i < n
            invariant
                i <= n,
                n == self.data@.len(),
                size >= 1,
                square_mask(visible@, size as nat),
                data@ == masked_data(self.data@, visible@, size as nat, value).subrange(
                    0,
                    i as int,
                ),
            decreases n - i,
        {
            let row = &visible[(i / size) % size];
            assert(row@.len() == size);
            let kept = if row[i % size] {
                self.data[i]
            } else {
                value
            };
            data.push(kept);
            assert(data@ =~= masked_data(self.data@, visible@, size as nat, value).subrange(
                0,
                i + 1,
            ));
            i = i + 1;
        }
        assert(data@ =~= masked_data(self.data@, visible@, size as nat, value));
        let shape = self.shape;
        Ok(Buffer { shape, data })
    }

    /// Takes over the elements of `source`, which must have the same shape.
    /// Where the shapes differ nothing is taken over.
    pub fn copy_from(&mut self, source: &Buffer<T>) -> (r: Result<(), WeightCopyError>)
        ensures
            old(self)@.shape == source@.shape ==> r is Ok && final(self)@ == source@,
            old(self)@.shape != source@.shape ==> copy_view(r) == Err::<(), CopyFailure>(
                CopyFailure::SizeMismatch,
            ) && final(self)@ == old(self)@,
    {
        proof {
            use_type_invariant(&*self);
            use_type_invariant(source);
        }
        if !self.shape.same_shape(&source.shape) {
            return Err(WeightCopyError::SizeMismatch);
        }
        let data = source.copy_range(0, source.data.len());
        assert(source.data@.subrange(0, source.data@.len() as int) =~= source.data@);
        let shape = self.shape;
        *self = Buffer { shape, data };
        Ok(())
    }

    /// The tensor of the same shape whose elements are `f` of the elements.
    pub fn map<F: Fn(T) -> T>(&self, f: F) -> (b: Buffer<T>)
        requires
            forall|x: T| call_requires(f, (x,)),
        ensures
            b@.shape == self@.shape,
            b@.data.len() == self@.data.len(),
            forall|k: int|
                0 <= k < self@.data.len() ==> call_ensures(
                    f,
                    (self@.data[k],),
                    #[trigger] b@.data[k],
                ),
    {
        proof {
            use_type_invariant(self);
        }
        let n = self.data.len();
        let mut data: Vec<T> = Vec::new();
        let mut i: usize = 0;
        while i < n
            invariant
                i <= n,
                n == self.data@.len(),
                data@.len() == i,
                forall|x: T| call_requires(f, (x,)),
                forall|k: int|
                    0 <= k < i ==> call_ensures(f, (self.data@[k],), #[trigger] data@[k]),
            decreases n - i,
        {
            data.push(f(self.data[i]));
            i = i + 1;
        }
        let shape = self.shape;
        Buffer { shape, data }
    }

    /// The tensor whose elements are `f` of the elements of `self` and `rhs`
    /// that lie in the same place; a bias vector lies along each row.
    pub fn zip_with<F: Fn(T, T) -> T>(&self, rhs: &Buffer<T>, f: F) -> (r: Result<
        Buffer<T>,
        ShapeError,
    >)
        requires
            forall|x: T, y: T| call_requires(f, (x, y)),
        ensures
            match elementwise_shape(self@.shape, rhs@.shape) {
                Err(e) => r matches Err(e2) && e2 == e,
                Ok(s) => r matches Ok(b) && b@.shape == s && b@.data.len() == self@.data.len()
                    && forall|k: int|
                    0 <= k < self@.data.len() ==> call_ensures(
                        f,
                        (self@.data[k], rhs@.data[k % (rhs@.data.len() as int)]),
                        #[trigger] b@.data[k],
                    ),
            },
    {
        proof {
            use_type_invariant(self);
            use_type_invariant(rhs);
            rhs.shape.lemma_valid();
            lemma_count_positive(rhs.shape@);
        }
        let shape = self.shape.add(&rhs.shape)?;
        assert(shape@ == self.shape@);
        let n = self.data.len();
        let m = rhs.data.len();
        let mut data: Vec<T> = Vec::new();
        let mut i: usize = 0;
        while i < n
            invariant
                i <= n,
                n == self.data@.len(),
                m == rhs.data@.len(),
                m >= 1,
                shape@ == self.shape@,
                n == element_count(shape@),
                data@.len() == i,
                forall|x: T, y: T| call_requires(f, (x, y)),
                forall|k: int|
                    0 <= k < i ==> call_ensures(
                        f,
                        (self.data@[k], rhs.data@[k % (m as int)]),
                        #[trigger] data@[k],
                    ),
            decreases n - i,
        {
            data.push(f(self.data[i], rhs.data[i % m]));
            i = i + 1;
        }
        proof {
            use_type_invariant(&shape);
        }
        Ok(Buffer { shape, data })
    }
}

/// Putting an axis of size one in front and taking it away again gives back
/// the tensor one started from, shape and elements.
pub proof fn lemma_buffer_unsqueeze_then_squeeze<T>(v: BufferView<T>)
    requires
        1 <= v.shape.len() < MAX_RANK,
    ensures
        with_shape(v, unsqueeze_start_shape(v.shape)) matches Ok(u) && with_shape(
            u,
            squeeze_start_shape(u.shape),
        ) == Ok::<BufferView<T>, ShapeError>(v),
{
    crate::tensor::lemma_unsqueeze_then_squeeze(v.shape);
}

/// After tiling the first axis to `repeats`, every entry below `repeats` is
/// the one entry there was before, shape and elements.
pub proof fn lemma_buffer_repeat_then_get<T>(v: BufferView<T>, repeats: nat, index: nat)
    requires
        filled(v),
        v.shape[0] == 1,
        index < repeats,
        element_count(v.shape.update(0, repeats)) <= usize::MAX,
    ensures
        repeat_view(v, 0, repeats) matches Ok(r) && get_view(r, index) == get_view(v, 0),
        get_view(v, 0) == Ok::<BufferView<T>, ShapeError>(
            BufferView { shape: entry_shape(v.shape), data: v.data },
        ),
{
    let s = v.shape;
    let n = v.data.len();
    let r_shape = s.update(0, repeats);
    crate::tensor::lemma_repeat_then_get(s, repeats, index);
    assert(s.take(0) =~= Seq::<nat>::empty());
    assert(1 * 1 * 1 * 1 * 1 == 1) by (nonlinear_arith);
    assert(s.skip(0) =~= s);
    lemma_count_from_axis(s, 0);
    assert(1 * count_from(s, 1) == count_from(s, 1)) by (nonlinear_arith);
    assert(r_shape.skip(1) =~= s.skip(1));
    let data = tiled_blocks(v.data, n, repeats, 1);
    assert(tiled_blocks(v.data, n, repeats, 0) =~= Seq::<T>::empty());
    assert(0 * n == 0 && 1 * n == n) by (nonlinear_arith);
    assert(v.data.subrange(0, n as int) =~= v.data);
    assert(data =~= tiled(v.data, repeats));
    lemma_tiled_block(v.data, repeats, index);
    assert(0 * n == 0 && (0 + 1) * n == n) by (nonlinear_arith);
}

} // verus!
