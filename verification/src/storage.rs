//! What this crate takes on trust about `array2d::Array2D`.

use array2d::Array2D;
use vstd::prelude::*;

verus! {

#[verifier::external_type_specification]
#[verifier::external_body]
#[verifier::reject_recursive_types(T)]
pub struct ExArray2D<T>(Array2D<T>);

/// The rows of an array from first to last, each from its first column to
/// its last: what `Array2D::as_rows` hands out. Every row is as long as the
/// array has columns.
pub uninterp spec fn array_rows(a: Array2D<u64>) -> Seq<Seq<u64>>;

/// `Array2D::filled_with`: an array of `num_rows` rows and `num_columns`
/// columns that holds `element` everywhere. The bound keeps the element
/// count and the allocation within what the machine can address.
#[verifier::external_body]
pub(crate) fn array_filled_with(element: u64, num_rows: usize, num_columns: usize) -> (a: Array2D<
    u64,
>)
    requires
        num_rows * num_columns * 8 <= isize::MAX,
    ensures
        array_rows(a).len() == num_rows,
        forall|r: int| 0 <= r < num_rows ==> (#[trigger] array_rows(a)[r]).len() == num_columns,
        forall|r: int, c: int|
            0 <= r < num_rows && 0 <= c < num_columns ==> (#[trigger] array_rows(a)[r][c])
                == element,
{
    Array2D::filled_with(element, num_rows, num_columns)
}

/// `Index::index` of `Array2D` at `(row, column)`: the element there. It
/// panics outside the array, which the precondition rules out.
#[verifier::external_body]
pub(crate) fn array_get(a: &Array2D<u64>, row: usize, column: usize) -> (element: u64)
    requires
        row < array_rows(*a).len(),
        column < array_rows(*a)[row as int].len(),
    ensures
        element == array_rows(*a)[row as int][column as int],
{
    a[(row, column)]
}

/// `IndexMut::index_mut` of `Array2D` at `(row, column)`, assigned
/// `element`: that one place changes and nothing else does. It panics
/// outside the array, which the precondition rules out.
#[verifier::external_body]
pub(crate) fn array_set(a: &mut Array2D<u64>, row: usize, column: usize, element: u64)
    requires
        row < array_rows(*old(a)).len(),
        column < array_rows(*old(a))[row as int].len(),
    ensures
        array_rows(*final(a)) == array_rows(*old(a)).update(
            row as int,
            array_rows(*old(a))[row as int].update(column as int, element),
        ),
{
    a[(row, column)] = element;
}

} // verus!
