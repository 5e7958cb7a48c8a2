//! Rectangles of bytes in memory.
use vstd::arithmetic::div_mod::lemma_fundamental_div_mod_converse;
use vstd::prelude::*;

verus! {

broadcast use vstd::seq_lib::group_seq_properties;

/// The rectangle of a picture that another one is copied to.
#[derive(Debug, Clone, Copy, PartialEq, Eq, Structural)]
pub struct PixelRect {
    pub x: usize,
    pub y: usize,
    pub width: usize,
    pub height: usize,
}

impl PixelRect {
    /// Whether the rectangle holds a byte of a picture with rows of this length.
    pub open spec fn holds(self, index: int, stride: int) -> bool {
        &&& self.x <= index % stride < self.x + self.width
        &&& self.y <= index / stride < self.y + self.height
    }

    /// Whether the rectangle fits into rows of this length.
    pub open spec fn fits(self, len: nat, stride: nat) -> bool {
        &&& self.x + self.width <= stride
        &&& self.height > 0 && self.width > 0 ==> (self.y + self.height - 1) * stride + self.x
            + self.width <= len
    }
}

/// A picture with a rectangle of another one copied into it.
pub open spec fn blitted(
    target: Seq<u8>,
    stride: nat,
    rect: PixelRect,
    source: Seq<u8>,
    source_stride: nat,
) -> Seq<u8> {
    Seq::new(
        target.len(),
        |i: int|
            if rect.holds(i, stride as int) {
                source[(i / stride as int - rect.y) * source_stride + (i % stride as int - rect.x)]
            } else {
                target[i]
            },
    )
}

/// The row and column of a byte.
pub proof fn lemma_row_column(stride: int, row: int, column: int)
    requires
        0 <= column < stride,
        0 <= row,
    ensures
        (row * stride + column) / stride == row,
        (row * stride + column) % stride == column,
{
    lemma_fundamental_div_mod_converse(row * stride + column, stride, row, column);
}

/// Whether a byte is in the rows of a rectangle that come before a place in it.
spec fn is_before(rect: PixelRect, index: int, stride: int, row: int, column: int) -> bool {
    let r = index / stride - rect.y;
    let c = index % stride - rect.x;
    0 <= c < rect.width && 0 <= r < rect.height && (r < row || (r == row && c < column))
}

/// Copies the first rows of a picture to a rectangle of another one.
pub fn blit(
    target: &mut Vec<u8>,
    stride: usize,
    rect: PixelRect,
    source: &Vec<u8>,
    source_stride: usize,
)
    requires
        stride > 0,
        rect.fits(old(target)@.len(), stride as nat),
        rect.height > 0 && rect.width > 0 ==> (rect.height - 1) * source_stride + rect.width
            <= source@.len(),
    ensures
        final(target)@ == blitted(
            old(target)@,
            stride as nat,
            rect,
            source@,
            source_stride as nat,
        ),
{
    let size: usize = target.len();
    let available: usize = source.len();
    let ghost before = target@;
    let ghost wanted = blitted(
        before,
        stride as nat,
        rect,
        source@,
        source_stride as nat,
    );
    if rect.width == 0 || rect.height == 0 {
        assert(target@ =~= wanted);
        return;
    }
    let mut row: usize = 0;
    while row < rect.height
        invariant
            row <= rect.height,
            rect.width > 0,
            stride > 0,
            size == before.len(),
            target@.len() == size,
            available == source@.len(),
            rect.x + rect.width <= stride,
            (rect.y + rect.height - 1) * stride + rect.x + rect.width <= size,
            (rect.height - 1) * source_stride + rect.width <= available,
            wanted == blitted(before, stride as nat, rect, source@, source_stride as nat),
            forall|i: int|
                0 <= i < size ==> #[trigger] target@[i] == if is_before(
                    rect,
                    i,
                    stride as int,
                    row as int,
                    0,
                ) {
                    wanted[i]
                } else {
                    before[i]
                },
        decreases rect.height - row,
    {
        proof {
            assert((rect.y + row) * stride <= (rect.y + rect.height - 1) * stride && (rect.y + row)
                * stride >= 0 && rect.y + row <= (rect.y + row) * stride) by (nonlinear_arith)
                requires
                    0 <= row <= rect.height - 1,
                    rect.y >= 0,
                    stride > 0,
            ;
            assert(row * source_stride <= (rect.height - 1) * source_stride && row * source_stride
                >= 0) by (nonlinear_arith)
                requires
                    0 <= row <= rect.height - 1,
                    source_stride >= 0,
            ;
        }
        let to: usize = (rect.y + row) * stride + rect.x;
        let from: usize = row * source_stride;
        let mut column: usize = 0;
        while column < rect.width
            invariant
                column <= rect.width,
                row < rect.height,
                stride > 0,
                size == before.len(),
                target@.len() == size,
                available == source@.len(),
                rect.x + rect.width <= stride,
                to == (rect.y + row) * stride + rect.x,
                to + rect.width <= size,
                from == row * source_stride,
                from + rect.width <= available,
                wanted == blitted(before, stride as nat, rect, source@, source_stride as nat),
                forall|i: int|
                    0 <= i < size ==> #[trigger] target@[i] == if is_before(
                        rect,
                        i,
                        stride as int,
                        row as int,
                        column as int,
                    ) {
                        wanted[i]
                    } else {
                        before[i]
                    },
            decreases rect.width - column,
        {
            let ghost old_target = target@;
            let at: usize = to + column;
            target[at] = source[from + column];
            proof {
                lemma_row_column(stride as int, rect.y + row, rect.x + column);
                assert(at / stride == rect.y + row && at % stride == rect.x + column);
                assert(rect.holds(at as int, stride as int));
                assert(wanted[at as int] == source@[from + column]);
                assert forall|i: int| 0 <= i < size implies #[trigger] target@[i] == if is_before(
                    rect,
                    i,
                    stride as int,
                    row as int,
                    column + 1,
                ) {
                    wanted[i]
                } else {
                    before[i]
                } by {
                    if i != at {
                        assert(target@[i] == old_target[i]);
                        if i / stride as int == rect.y + row && i % stride as int == rect.x
                            + column {
                            vstd::arithmetic::div_mod::lemma_fundamental_div_mod(
                                i,
                                stride as int,
                            );
                            assert(i == at) by (nonlinear_arith)
                                requires
                                    i == stride * (i / stride as int) + i % stride as int,
                                    i / stride as int == rect.y + row,
                                    i % stride as int == rect.x + column,
                                    at == (rect.y + row) * stride + rect.x + column,
                            ;
                        }
                    }
                }
            }
            column += 1;
        }
        row += 1;
    }
    assert forall|i: int| 0 <= i < size implies target@[i] == wanted[i] by {
        assert(is_before(rect, i, stride as int, rect.height as int, 0) <==> rect.holds(
            i,
            stride as int,
        ));
    }
    assert(target@ =~= wanted);
}

/// A picture is copied place by place: each of its pixels stands in the row and column
/// of the rectangle that it had in the source, and nothing outside is touched.
pub proof fn law_pictures_are_copied_place_by_place(
    target: Seq<u8>,
    stride: nat,
    rect: PixelRect,
    source: Seq<u8>,
    source_stride: nat,
    row: int,
    column: int,
)
    requires
        stride > 0,
        0 <= column < stride,
        0 <= row,
        row * stride + column < target.len(),
    ensures
        ({
            let copied = blitted(target, stride, rect, source, source_stride);
            let at = row * stride + column;
            let inside = rect.x <= column < rect.x + rect.width && rect.y <= row < rect.y
                + rect.height;
            &&& copied.len() == target.len()
            &&& inside ==> copied[at] == source[(row - rect.y) * source_stride + (column - rect.x)]
            &&& !inside ==> copied[at] == target[at]
        }),
{
    lemma_fundamental_div_mod_converse(row * stride + column, stride as int, row, column);
    assert(0 <= row * stride) by (nonlinear_arith)
        requires
            row >= 0,
            stride > 0,
    ;
}

} // verus!
