//! A dense matrix of fixed shape, stored row by row in one vector.
//!
//! A matrix is indexed by a [`Vec2`] of `(x, y)`: `x` counts columns and `y`
//! counts rows. The cell `(x, y)` of a matrix `width` cells wide lies at offset
//! `y * width + x` of the store. An index names a cell when it lies strictly
//! below the shape in the dominance order of [`Vec2`].

use crate::vector::lemma_strictly_below_on_indices;
use crate::vector::Vec2;
use std::ops::Index;
use std::ops::IndexMut;
use vstd::prelude::*;
use vstd::std_specs::cmp::PartialEqSpec;

verus! {

/// A grid of `width` by `height` items kept in row-major order.
#[derive(Debug)]
pub struct Matrix<Item> {
    internal_vector: Vec<Item>,
    size: Vec2<usize>,
}

/// The offset of cell `(x, y)` in a row-major store whose rows hold `width`
/// cells.
pub open spec fn row_major(width: int, x: int, y: int) -> int {
    y * width + x
}

/// The offset of a cell of a `width` by `height` grid lies inside a store of
/// `width * height` items, at or after the start of the cell's row.
pub proof fn lemma_row_major_in_store(width: int, height: int, x: int, y: int)
    requires
        0 <= x < width,
        0 <= y < height,
    ensures
        0 <= y * width <= row_major(width, x, y) < width * height,
{
    assert(0 <= y * width && (y + 1) * width <= height * width) by (nonlinear_arith)
        requires
            0 <= y < height,
            0 < width,
    ;
    assert((y + 1) * width == y * width + width) by (nonlinear_arith);
    assert(height * width == width * height) by (nonlinear_arith);
}

/// Two cells of one grid that lie at the same offset are the same cell.
pub proof fn lemma_row_major_injective(width: int, x1: int, y1: int, x2: int, y2: int)
    requires
        0 <= x1 < width,
        0 <= x2 < width,
        0 <= y1,
        0 <= y2,
        row_major(width, x1, y1) == row_major(width, x2, y2),
    ensures
        x1 == x2,
        y1 == y2,
{
    if y1 < y2 {
        assert((y1 + 1) * width <= y2 * width) by (nonlinear_arith)
            requires
                y1 + 1 <= y2,
                0 < width,
        ;
        assert((y1 + 1) * width == y1 * width + width) by (nonlinear_arith);
    } else if y2 < y1 {
        assert((y2 + 1) * width <= y1 * width) by (nonlinear_arith)
            requires
                y2 + 1 <= y1,
                0 < width,
        ;
        assert((y2 + 1) * width == y2 * width + width) by (nonlinear_arith);
    }
}

/// `slice::swap`: exchanges the items at positions `first` and `second`, which
/// must both lie inside the vector, and leaves every other item where it was.
#[verifier::external_body]
fn swap_items<Item>(items: &mut Vec<Item>, first: usize, second: usize)
    requires
        first < old(items)@.len(),
        second < old(items)@.len(),
    ensures
        final(items)@ == old(items)@.update(first as int, old(items)@[second as int]).update(
            second as int,
            old(items)@[first as int],
        ),
    no_unwind
{
    items.swap(first, second)
}

/// `Vec::from` on an array: a vector of the array's items in the array's order.
#[verifier::external_body]
fn array_into_vec<Item, const N: usize>(array: [Item; N]) -> (items: Vec<Item>)
    ensures
        items@ == array@,
{
    Vec::from(array)
}

impl<Item: Clone> Matrix<Item> {
    /// A matrix of the given `(width, height)` whose every cell holds a clone
    /// of `filler`. The number of cells must fit in a `usize`.
    pub fn filled(filler: &Item, size: Vec2<usize>) -> (matrix: Matrix<Item>)
        requires
            size.0 * size.1 <= usize::MAX,
        ensures
            matrix.shape() == size,
            matrix@.len() == size.0 * size.1,
            forall|k: int| 0 <= k < matrix@.len() ==> cloned(*filler, #[trigger] matrix@[k]),
    {
        let length: usize = size.0 * size.1;
        let mut internal_vector = Vec::<Item>::with_capacity(length);
        for count in 0..length
            invariant
                internal_vector@.len() == count,
                forall|k: int| 0 <= k < count ==> cloned(*filler, #[trigger] internal_vector@[k]),
        {
            internal_vector.push(filler.clone());
        }
        Self { internal_vector, size }
    }
}

impl<Item> Matrix<Item> {
    /// A matrix of `H` rows of `W` items each: row `y` of `array` becomes row
    /// `y` of the matrix. The number of cells must fit in a `usize`.
    pub fn new<const W: usize, const H: usize>(array: [[Item; W]; H]) -> (matrix: Matrix<Item>)
        requires
            W * H <= usize::MAX,
        ensures
            matrix.shape() == Vec2(W, H),
            matrix@.len() == W * H,
            forall|x: int, y: int|
                0 <= x < W && 0 <= y < H ==> matrix@[row_major(W as int, x, y)]
                    == #[trigger] array[y][x],
    {
        let mut internal_vector = Vec::<Item>::with_capacity(W * H);
        let rows = array_into_vec(array);
        for row in it: rows
            invariant
                it.seq() == array@,
                internal_vector@.len() == it.index() * W,
                forall|x: int, y: int|
                    0 <= x < W && 0 <= y < it.index() ==> internal_vector@[row_major(W as int, x, y)]
                        == #[trigger] array[y][x],
        {
            let ghost rows_before = it.index();
            let ghost items_before = internal_vector@;
            let mut items = array_into_vec(row);
            internal_vector.append(&mut items);
            proof {
                assert((rows_before + 1) * W == rows_before * W + W) by (nonlinear_arith);
                assert forall|x: int, y: int|
                    0 <= x < W && 0 <= y < rows_before + 1 implies internal_vector@[row_major(W as int, x, y)]
                    == #[trigger] array[y][x] by {
                    if y < rows_before {
                        lemma_row_major_in_store(W as int, rows_before, x, y);
                        assert(W * rows_before == rows_before * W) by (nonlinear_arith);
                        assert(items_before[row_major(W as int, x, y)] == array[y][x]);
                    } else {
                        assert(row_major(W as int, x, y) == items_before.len() + x);
                    }
                }
            }
        }
        proof {
            assert(H * W == W * H) by (nonlinear_arith);
        }
        Self { internal_vector, size: Vec2(W, H) }
    }

    /// The store holds exactly one item for each cell of the shape.
    #[verifier::type_invariant]
    pub open spec fn well_formed(&self) -> bool {
        self@.len() == self.width() * self.height()
    }

    /// The items, row after row.
    pub closed spec fn view(&self) -> Seq<Item> {
        self.internal_vector@
    }

    /// The shape as `(width, height)`.
    pub closed spec fn shape(&self) -> Vec2<usize> {
        self.size
    }

    /// The number of columns.
    pub open spec fn width(&self) -> int {
        self.shape().0 as int
    }

    /// The number of rows.
    pub open spec fn height(&self) -> int {
        self.shape().1 as int
    }

    /// Whether `index` names a cell: each coordinate lies below the shape's.
    pub open spec fn contains_index(&self, index: Vec2<usize>) -> bool {
        index.0 < self.width() && index.1 < self.height()
    }

    /// Where the cell at `index` lies in the view.
    pub open spec fn offset(&self, index: Vec2<usize>) -> int {
        row_major(self.width(), index.0 as int, index.1 as int)
    }

    /// The item in the cell at `index`.
    pub open spec fn at(&self, index: Vec2<usize>) -> Item {
        self@[self.offset(index)]
    }

    /// Every cell has its own place in the view, and no two cells share one.
    pub proof fn lemma_cells(&self, first: Vec2<usize>, second: Vec2<usize>)
        requires
            self.well_formed(),
            self.contains_index(first),
            self.contains_index(second),
        ensures
            0 <= self.offset(first) < self@.len(),
            self.offset(first) == self.offset(second) <==> first == second,
    {
        lemma_row_major_in_store(self.width(), self.height(), first.0 as int, first.1 as int);
        if self.offset(first) == self.offset(second) {
            lemma_row_major_injective(
                self.width(),
                first.0 as int,
                first.1 as int,
                second.0 as int,
                second.1 as int,
            );
        }
    }

    /// Replacing the item of one cell writes to that cell and to no other:
    /// the matrix keeps its shape, the cell at `index` then holds `item`, and
    /// every other cell holds what it held before.
    pub proof fn lemma_write_reaches_one_cell(
        before: &Self,
        after: &Self,
        index: Vec2<usize>,
        item: Item,
    )
        requires
            before.well_formed(),
            before.contains_index(index),
            after.shape() == before.shape(),
            after@ == before@.update(before.offset(index), item),
        ensures
            after.well_formed(),
            after.at(index) == item,
            forall|other: Vec2<usize>|
                before.contains_index(other) && other != index ==> #[trigger] after.at(other)
                    == before.at(other),
    {
        assert forall|other: Vec2<usize>| before.contains_index(other) implies {
            &&& 0 <= #[trigger] before.offset(other) < before@.len()
            &&& before.offset(other) == before.offset(index) <==> other == index
        } by {
            before.lemma_cells(other, index);
        }
    }

    /// The shape as `(width, height)`.
    pub fn size(&self) -> (size: Vec2<usize>)
        ensures
            size == self.shape(),
            self@.len() == size.0 * size.1,
    {
        proof {
            use_type_invariant(self);
        }
        self.size
    }

    /// The items in row-major order.
    pub fn as_slice(&self) -> (items: &[Item])
        ensures
            items@ == self@,
    {
        self.internal_vector.as_slice()
    }

    fn to_scalar_index(&self, index: Vec2<usize>) -> (offset: usize)
        requires
            self.contains_index(index),
        ensures
            offset == self.offset(index),
            offset < self@.len(),
    {
        proof {
            use_type_invariant(self);
            lemma_row_major_in_store(self.width(), self.height(), index.0 as int, index.1 as int);
            // A vector's length is a `usize`, so every offset inside it is one too.
            assert(self.internal_vector.len() == self@.len());
        }
        index.1 * self.size.0 + index.0
    }

    /// Whether `index` names a cell of the matrix.
    pub fn check_index(&self, index: Vec2<usize>) -> (inside: bool)
        ensures
            inside == self.contains_index(index),
    {
        proof {
            lemma_strictly_below_on_indices(index, self.size);
        }
        index < self.size
    }

    /// The item at `index`, which must name a cell.
    pub fn get_unchecked(&self, index: Vec2<usize>) -> (item: &Item)
        requires
            self.contains_index(index),
        ensures
            *item == self.at(index),
    {
        &self.internal_vector[self.to_scalar_index(index)]
    }

    /// The cell at `index`, which must name a cell, for writing. What is
    /// written through the result replaces the item of that cell and of no
    /// other.
    pub fn get_unchecked_mut(&mut self, index: Vec2<usize>) -> (item: &mut Item)
        requires
            old(self).contains_index(index),
        ensures
            *item == old(self).at(index),
            final(self).shape() == old(self).shape(),
            0 <= old(self).offset(index) < old(self)@.len(),
            final(self)@ == old(self)@.update(old(self).offset(index), *final(item)),
    {
        proof {
            use_type_invariant(&*self);
        }
        let index: usize = self.to_scalar_index(index);
        &mut self.internal_vector[index]
    }

    /// The item at `index`, or nothing where `index` names no cell.
    pub fn get(&self, index: Vec2<usize>) -> (item: Option<&Item>)
        ensures
            self.contains_index(index) ==> item == Some(&self.at(index)),
            !self.contains_index(index) ==> item is None,
    {
        if index < self.size {
            Some(self.get_unchecked(index))
        } else {
            None
        }
    }

    /// The cell at `index` for writing, or nothing where `index` names no
    /// cell; the matrix is then left as it was.
    pub fn get_mut(&mut self, index: Vec2<usize>) -> (item: Option<&mut Item>)
        ensures
            old(self).contains_index(index) <==> item is Some,
            final(self).shape() == old(self).shape(),
            item matches Some(cell) ==> *cell == old(self).at(index),
            item matches Some(cell) ==> 0 <= old(self).offset(index) < old(self)@.len(),
            item matches Some(cell) ==> final(self)@ == old(self)@.update(
                old(self).offset(index),
                *final(cell),
            ),
            item is None ==> final(self)@ == old(self)@,
    {
        if index < self.size {
            Some(self.get_unchecked_mut(index))
        } else {
            None
        }
    }

    /// Exchanges the items of the cells at `first_index` and `second_index`,
    /// which must both name cells. Every other cell keeps its item.
    pub fn swap(&mut self, first_index: Vec2<usize>, second_index: Vec2<usize>)
        requires
            old(self).contains_index(first_index),
            old(self).contains_index(second_index),
        ensures
            final(self).shape() == old(self).shape(),
            final(self)@ == old(self)@.update(
                old(self).offset(first_index),
                old(self).at(second_index),
            ).update(old(self).offset(second_index), old(self).at(first_index)),
            final(self).at(first_index) == old(self).at(second_index),
            final(self).at(second_index) == old(self).at(first_index),
            forall|other: Vec2<usize>|
                old(self).contains_index(other) && other != first_index && other != second_index
                    ==> #[trigger] final(self).at(other) == old(self).at(other),
    {
        proof {
            use_type_invariant(&*self);
            assert forall|other: Vec2<usize>| old(self).contains_index(other) implies {
                &&& 0 <= #[trigger] old(self).offset(other) < old(self)@.len()
                &&& old(self).offset(other) == old(self).offset(first_index) <==> other
                    == first_index
                &&& old(self).offset(other) == old(self).offset(second_index) <==> other
                    == second_index
            } by {
                old(self).lemma_cells(other, first_index);
                old(self).lemma_cells(other, second_index);
            }
        }
        let first: usize = self.to_scalar_index(first_index);
        let second: usize = self.to_scalar_index(second_index);
        swap_items(&mut self.internal_vector, first, second)
    }
}

impl<Item: Clone> Clone for Matrix<Item> {
    /// A matrix of the same shape whose every cell holds a clone of the item
    /// of the same cell.
    fn clone(&self) -> (copy: Self)
        ensures
            copy.shape() == self.shape(),
            copy@.len() == self@.len(),
            forall|k: int| 0 <= k < self@.len() ==> cloned(self@[k], #[trigger] copy@[k]),
    {
        proof {
            use_type_invariant(self);
        }
        Self { internal_vector: self.internal_vector.clone(), size: self.size }
    }
}

impl<Item: PartialEq> PartialEq for Matrix<Item> {
    /// Two matrices are equal when they have the same shape and hold equal
    /// items cell by cell.
    fn eq(&self, other: &Self) -> (equal: bool)
        ensures
            Item::obeys_eq_spec() ==> equal == (self.shape() == other.shape()
                && self@.len() == other@.len()
                && forall|k: int| #![trigger self@[k]] 0 <= k < self@.len() ==> self@[k].eq_spec(&other@[k])),
    {
        self.size == other.size && self.internal_vector == other.internal_vector
    }
}

impl<Item: PartialEq> vstd::std_specs::cmp::PartialEqSpecImpl for Matrix<Item> {
    open spec fn obeys_eq_spec() -> bool {
        Item::obeys_eq_spec()
    }

    open spec fn eq_spec(&self, other: &Self) -> bool {
        &&& self.shape() == other.shape()
        &&& self@.len() == other@.len()
        &&& forall|k: int| #![trigger self@[k]] 0 <= k < self@.len() ==> self@[k].eq_spec(&other@[k])
    }
}

impl<Item: Eq> Eq for Matrix<Item> {}

impl<Item> Index<Vec2<usize>> for Matrix<Item> {
    type Output = Item;

    /// The item at `index`, which must name a cell.
    fn index(&self, index: Vec2<usize>) -> (item: &Item)
        ensures
            *item == self.at(index),
    {
        self.get_unchecked(index)
    }
}

impl<Item> vstd::std_specs::core::IndexSpecImpl<Vec2<usize>> for Matrix<Item> {
    open spec fn index_req(&self, index: &Vec2<usize>) -> bool {
        self.contains_index(*index)
    }
}

impl<Item> IndexMut<Vec2<usize>> for Matrix<Item> {
    /// The cell at `index`, which must name a cell, for writing.
    fn index_mut(&mut self, index: Vec2<usize>) -> (item: &mut Item)
        requires
            old(self).contains_index(index),
        ensures
            *item == old(self).at(index),
            final(self).shape() == old(self).shape(),
            0 <= old(self).offset(index) < old(self)@.len(),
            final(self)@ == old(self)@.update(old(self).offset(index), *final(item)),
    {
        self.get_unchecked_mut(index)
    }
}

} // verus!
