//! Planes of decoded video, packed tightly for a renderer.
use vstd::arithmetic::div_mod::lemma_fundamental_div_mod_converse;
use vstd::prelude::*;

verus! {

broadcast use vstd::seq_lib::group_seq_properties;

/// How the pixels of a decoded frame lie in memory.
#[derive(Debug, Clone, Copy, PartialEq, Eq, Structural)]
pub enum SourcePixelFormat {
    /// Eight bits; three planes, the chroma at half resolution.
    Yuv420p,
    /// Eight bits; the chroma interleaved in one plane.
    Nv12,
    /// Ten bits in sixteen, low; three planes.
    Yuv420p10Le,
    /// Ten bits in sixteen, high; the chroma interleaved in one plane.
    P010Le,
    /// Another format.
    Other,
}

/// A plane of a decoded frame: bytes in rows.
#[derive(Debug, Clone, PartialEq, Eq)]
pub struct SourcePlane {
    pub bytes: Vec<u8>,
    pub stride: i32,
}

/// A frame that was decoded in software. A plane may be missing.
#[derive(Debug, Clone, PartialEq, Eq)]
pub struct SourceFrame {
    pub width: u32,
    pub height: u32,
    pub format: SourcePixelFormat,
    pub first: Option<SourcePlane>,
    pub second: Option<SourcePlane>,
    pub third: Option<SourcePlane>,
}

/// Tightly packed planes of eight bits: the luma, and the interleaved chroma at
/// half resolution.
#[derive(Debug, Clone, PartialEq, Eq)]
pub struct Nv12Frame {
    pub width: u32,
    pub height: u32,
    pub luma: Vec<u8>,
    pub chroma: Vec<u8>,
}

/// What the packed planes hold.
#[derive(Debug, Clone, Copy, PartialEq, Eq, Structural)]
pub enum PlanarPixelFormat {
    /// Eight bits.
    Nv12,
    /// Ten bits in sixteen, high, the low byte first.
    P010,
}

/// Tightly packed planes: the luma, and the interleaved chroma at half
/// resolution.
#[derive(Debug, Clone, PartialEq, Eq)]
pub struct PlanarFrame {
    pub format: PlanarPixelFormat,
    pub width: u32,
    pub height: u32,
    pub luma: Vec<u8>,
    pub chroma: Vec<u8>,
}

// ---------------------------------------------------------------------------
// Rows
// ---------------------------------------------------------------------------

/// The length of a row; a negative one counts as none.
pub open spec fn row_length(plane: SourcePlane) -> nat {
    if plane.stride < 0 {
        0
    } else {
        plane.stride as nat
    }
}

/// Whether a plane is there and its rows are long enough.
pub open spec fn has_rows(plane: Option<SourcePlane>, row_bytes: nat) -> bool {
    plane is Some && row_length(plane->0) >= row_bytes
}

/// Whether the bytes of a plane reach the end of its last row.
pub open spec fn reaches(plane: Option<SourcePlane>, row_bytes: nat, rows: nat) -> bool {
    plane matches Some(source) ==> row_length(source) >= row_bytes ==> rows > 0 ==> (rows - 1)
        * row_length(source) + row_bytes <= source.bytes@.len()
}

/// The rows of a plane without what stands behind them.
pub open spec fn packed_rows(bytes: Seq<u8>, stride: nat, row_bytes: nat, rows: nat) -> Seq<u8> {
    Seq::new(
        row_bytes * rows,
        |i: int| bytes[(i / row_bytes as int) * stride + i % row_bytes as int],
    )
}

proof fn lemma_packed_index(row_bytes: int, rows: int, row: int, column: int)
    requires
        0 <= column < row_bytes,
        0 <= row < rows,
    ensures
        0 <= row * row_bytes + column < row_bytes * rows,
        (row * row_bytes + column) / row_bytes == row,
        (row * row_bytes + column) % row_bytes == column,
{
    lemma_fundamental_div_mod_converse(row * row_bytes + column, row_bytes, row, column);
    assert(0 <= row * row_bytes + column < row_bytes * rows) by (nonlinear_arith)
        requires
            0 <= column < row_bytes,
            0 <= row < rows,
    ;
}

proof fn lemma_row_start(stride: int, row_bytes: int, rows: int, row: int, len: int)
    requires
        0 <= row < rows,
        stride >= row_bytes >= 0,
        (rows - 1) * stride + row_bytes <= len,
    ensures
        0 <= row * stride,
        row * stride + row_bytes <= len,
{
    assert(0 <= row * stride <= (rows - 1) * stride) by (nonlinear_arith)
        requires
            0 <= row <= rows - 1,
            stride >= 0,
    ;
}

/// Copies the rows of a plane without what stands behind them.
fn pack_rows(bytes: &Vec<u8>, stride: usize, row_bytes: usize, rows: usize) -> (result: Vec<u8>)
    requires
        row_bytes > 0,
        stride >= row_bytes,
        rows > 0 ==> (rows - 1) * stride + row_bytes <= bytes@.len(),
        row_bytes * rows <= usize::MAX,
    ensures
        result@ == packed_rows(bytes@, stride as nat, row_bytes as nat, rows as nat),
{
    let mut out: Vec<u8> = Vec::new();
    let available: usize = bytes.len();
    let ghost whole = packed_rows(bytes@, stride as nat, row_bytes as nat, rows as nat);
    let mut row: usize = 0;
    assert(0 * row_bytes == 0) by (nonlinear_arith);
    assert(out@ =~= whole.take(0));
    while row < rows
        invariant
            row <= rows,
            row_bytes > 0,
            stride >= row_bytes,
            available == bytes@.len(),
            rows > 0 ==> (rows - 1) * stride + row_bytes <= available,
            whole == packed_rows(bytes@, stride as nat, row_bytes as nat, rows as nat),
            out@ == whole.take(row * row_bytes),
            row * row_bytes <= whole.len(),
        decreases rows - row,
    {
        proof {
            lemma_row_start(
                stride as int,
                row_bytes as int,
                rows as int,
                row as int,
                available as int,
            );
        }
        let start: usize = row * stride;
        let mut column: usize = 0;
        while column < row_bytes
            invariant
                column <= row_bytes,
                row < rows,
                start == row * stride,
                start + row_bytes <= bytes@.len() <= usize::MAX,
                whole == packed_rows(bytes@, stride as nat, row_bytes as nat, rows as nat),
                out@ == whole.take(row * row_bytes + column),
                row * row_bytes + column <= whole.len(),
            decreases row_bytes - column,
        {
            proof {
                lemma_packed_index(row_bytes as int, rows as int, row as int, column as int);
            }
            out.push(bytes[start + column]);
            column += 1;
            assert(out@ =~= whole.take(row * row_bytes + column));
        }
        assert((row + 1) * row_bytes == row * row_bytes + row_bytes) by (nonlinear_arith);
        row += 1;
    }
    assert(rows * row_bytes == row_bytes * rows) by (nonlinear_arith);
    assert(whole.take(row * row_bytes) =~= whole);
    out
}

/// Two planes interleaved, sample by sample.
pub open spec fn interleaved(
    u: Seq<u8>,
    u_stride: nat,
    v: Seq<u8>,
    v_stride: nat,
    width: nat,
    height: nat,
) -> Seq<u8> {
    Seq::new(
        width * height * 2,
        |i: int|
            if i % 2 == 0 {
                u[(i / 2 / width as int) * u_stride + i / 2 % width as int]
            } else {
                v[(i / 2 / width as int) * v_stride + i / 2 % width as int]
            },
    )
}

/// Interleaves two planes of bytes.
fn interleave(
    u: &Vec<u8>,
    u_stride: usize,
    v: &Vec<u8>,
    v_stride: usize,
    width: usize,
    height: usize,
) -> (result: Vec<u8>)
    requires
        width > 0,
        u_stride >= width,
        v_stride >= width,
        height > 0 ==> (height - 1) * u_stride + width <= u@.len(),
        height > 0 ==> (height - 1) * v_stride + width <= v@.len(),
        width * height * 2 <= usize::MAX,
    ensures
        result@ == interleaved(
            u@,
            u_stride as nat,
            v@,
            v_stride as nat,
            width as nat,
            height as nat,
        ),
{
    let mut out: Vec<u8> = Vec::new();
    let u_size: usize = u.len();
    let v_size: usize = v.len();
    let ghost whole = interleaved(
        u@,
        u_stride as nat,
        v@,
        v_stride as nat,
        width as nat,
        height as nat,
    );
    let mut row: usize = 0;
    assert(0 * width == 0) by (nonlinear_arith);
    assert(out@ =~= whole.take(0));
    while row < height
        invariant
            row <= height,
            width > 0,
            u_stride >= width,
            v_stride >= width,
            u_size == u@.len(),
            v_size == v@.len(),
            height > 0 ==> (height - 1) * u_stride + width <= u_size,
            height > 0 ==> (height - 1) * v_stride + width <= v_size,
            whole == interleaved(
                u@,
                u_stride as nat,
                v@,
                v_stride as nat,
                width as nat,
                height as nat,
            ),
            out@ == whole.take(row * width * 2),
            row * width * 2 <= whole.len(),
        decreases height - row,
    {
        proof {
            lemma_row_start(
                u_stride as int,
                width as int,
                height as int,
                row as int,
                u_size as int,
            );
            lemma_row_start(
                v_stride as int,
                width as int,
                height as int,
                row as int,
                v_size as int,
            );
        }
        let u_start: usize = row * u_stride;
        let v_start: usize = row * v_stride;
        let mut column: usize = 0;
        while column < width
            invariant
                column <= width,
                row < height,
                u_start == row * u_stride,
                v_start == row * v_stride,
                u_start + width <= u@.len() <= usize::MAX,
                v_start + width <= v@.len() <= usize::MAX,
                whole == interleaved(
                    u@,
                    u_stride as nat,
                    v@,
                    v_stride as nat,
                    width as nat,
                    height as nat,
                ),
                out@ == whole.take((row * width + column) * 2),
                (row * width + column) * 2 <= whole.len(),
            decreases width - column,
        {
            proof {
                lemma_packed_index(width as int, height as int, row as int, column as int);
                let i = (row * width + column) * 2;
                assert(i / 2 == row * width + column && (i + 1) / 2 == row * width + column);
                assert(i % 2 == 0 && (i + 1) % 2 == 1);
            }
            out.push(u[u_start + column]);
            out.push(v[v_start + column]);
            column += 1;
            assert(out@ =~= whole.take((row * width + column) * 2));
        }
        assert((row + 1) * width == row * width + width) by (nonlinear_arith);
        row += 1;
    }
    assert(height * width == width * height) by (nonlinear_arith);
    assert(whole.take(row * width * 2) =~= whole);
    out
}

// ---------------------------------------------------------------------------
// Ten bits
// ---------------------------------------------------------------------------

/// The sample of two bytes with its ten low bits moved to the top.
pub open spec fn raised_sample(low: u8, high: u8) -> nat {
    ((low + high * 0x100) % 0x400 * 0x40) as nat
}

/// A byte of a raised sample: the low one first.
pub open spec fn raised_byte(low: u8, high: u8, second: bool) -> u8 {
    if second {
        (raised_sample(low, high) / 0x100) as u8
    } else {
        (raised_sample(low, high) % 0x100) as u8
    }
}

/// Raises a sample, and appends its bytes.
fn push_raised(out: &mut Vec<u8>, low: u8, high: u8)
    ensures
        final(out)@ == old(out)@.push(raised_byte(low, high, false)).push(
            raised_byte(low, high, true),
        ),
{
    let value: u16 = low as u16 + high as u16 * 0x100;
    assert((value & 0x3ff) << 6 == value % 0x400 * 0x40) by (bit_vector);
    let sample: u16 = (value & 0x3ff) << 6;
    out.push((sample % 0x100) as u8);
    out.push((sample / 0x100) as u8);
}

/// A plane of ten-bit samples, raised and packed.
pub open spec fn raised_plane(bytes: Seq<u8>, stride: nat, width: nat, height: nat) -> Seq<u8> {
    Seq::new(
        width * height * 2,
        |i: int|
            {
                let at = (i / 2 / width as int) * stride + (i / 2 % width as int) * 2;
                raised_byte(bytes[at], bytes[at + 1], i % 2 == 1)
            },
    )
}

/// Reads a plane of ten-bit samples as raised ones.
fn raise_plane(bytes: &Vec<u8>, stride: usize, width: usize, height: usize) -> (result: Vec<u8>)
    requires
        width > 0,
        stride >= width * 2,
        height > 0 ==> (height - 1) * stride + width * 2 <= bytes@.len(),
        width * height * 2 <= usize::MAX,
    ensures
        result@ == raised_plane(bytes@, stride as nat, width as nat, height as nat),
{
    let mut out: Vec<u8> = Vec::new();
    let available: usize = bytes.len();
    let ghost whole = raised_plane(bytes@, stride as nat, width as nat, height as nat);
    let mut row: usize = 0;
    assert(0 * width == 0) by (nonlinear_arith);
    assert(out@ =~= whole.take(0));
    while row < height
        invariant
            row <= height,
            width > 0,
            stride >= width * 2,
            available == bytes@.len(),
            height > 0 ==> (height - 1) * stride + width * 2 <= available,
            whole == raised_plane(bytes@, stride as nat, width as nat, height as nat),
            out@ == whole.take(row * width * 2),
            row * width * 2 <= whole.len(),
        decreases height - row,
    {
        proof {
            lemma_row_start(
                stride as int,
                width * 2,
                height as int,
                row as int,
                available as int,
            );
        }
        let start: usize = row * stride;
        let mut column: usize = 0;
        while column < width
            invariant
                column <= width,
                row < height,
                start == row * stride,
                start + width * 2 <= bytes@.len() <= usize::MAX,
                whole == raised_plane(bytes@, stride as nat, width as nat, height as nat),
                out@ == whole.take((row * width + column) * 2),
                (row * width + column) * 2 <= whole.len(),
            decreases width - column,
        {
            proof {
                lemma_packed_index(width as int, height as int, row as int, column as int);
                let i = (row * width + column) * 2;
                assert(i / 2 == row * width + column && (i + 1) / 2 == row * width + column);
                assert(i % 2 == 0 && (i + 1) % 2 == 1);
            }
            push_raised(&mut out, bytes[start + column * 2], bytes[start + column * 2 + 1]);
            column += 1;
            assert(out@ =~= whole.take((row * width + column) * 2));
        }
        assert((row + 1) * width == row * width + width) by (nonlinear_arith);
        row += 1;
    }
    assert(height * width == width * height) by (nonlinear_arith);
    assert(whole.take(row * width * 2) =~= whole);
    out
}

/// Two planes of ten-bit samples, raised and interleaved.
pub open spec fn raised_chroma(
    u: Seq<u8>,
    u_stride: nat,
    v: Seq<u8>,
    v_stride: nat,
    width: nat,
    height: nat,
) -> Seq<u8> {
    Seq::new(
        width * height * 4,
        |i: int|
            {
                let row = i / 4 / width as int;
                let column = i / 4 % width as int;
                let u_at = row * u_stride + column * 2;
                let v_at = row * v_stride + column * 2;
                if i % 4 < 2 {
                    raised_byte(u[u_at], u[u_at + 1], i % 4 == 1)
                } else {
                    raised_byte(v[v_at], v[v_at + 1], i % 4 == 3)
                }
            },
    )
}

/// Interleaves two planes of ten-bit samples as raised ones.
fn raise_chroma(
    u: &Vec<u8>,
    u_stride: usize,
    v: &Vec<u8>,
    v_stride: usize,
    width: usize,
    height: usize,
) -> (result: Vec<u8>)
    requires
        width > 0,
        u_stride >= width * 2,
        v_stride >= width * 2,
        height > 0 ==> (height - 1) * u_stride + width * 2 <= u@.len(),
        height > 0 ==> (height - 1) * v_stride + width * 2 <= v@.len(),
        width * height * 4 <= usize::MAX,
    ensures
        result@ == raised_chroma(
            u@,
            u_stride as nat,
            v@,
            v_stride as nat,
            width as nat,
            height as nat,
        ),
{
    let mut out: Vec<u8> = Vec::new();
    let u_size: usize = u.len();
    let v_size: usize = v.len();
    let ghost whole = raised_chroma(
        u@,
        u_stride as nat,
        v@,
        v_stride as nat,
        width as nat,
        height as nat,
    );
    let mut row: usize = 0;
    assert(0 * width == 0) by (nonlinear_arith);
    assert(out@ =~= whole.take(0));
    while row < height
        invariant
            row <= height,
            width > 0,
            u_stride >= width * 2,
            v_stride >= width * 2,
            u_size == u@.len(),
            v_size == v@.len(),
            height > 0 ==> (height - 1) * u_stride + width * 2 <= u_size,
            height > 0 ==> (height - 1) * v_stride + width * 2 <= v_size,
            whole == raised_chroma(
                u@,
                u_stride as nat,
                v@,
                v_stride as nat,
                width as nat,
                height as nat,
            ),
            out@ == whole.take(row * width * 4),
            row * width * 4 <= whole.len(),
        decreases height - row,
    {
        proof {
            lemma_row_start(u_stride as int, width * 2, height as int, row as int, u_size as int);
            lemma_row_start(v_stride as int, width * 2, height as int, row as int, v_size as int);
        }
        let u_start: usize = row * u_stride;
        let v_start: usize = row * v_stride;
        let mut column: usize = 0;
        while column < width
            invariant
                column <= width,
                row < height,
                u_start == row * u_stride,
                v_start == row * v_stride,
                u_start + width * 2 <= u@.len() <= usize::MAX,
                v_start + width * 2 <= v@.len() <= usize::MAX,
                whole == raised_chroma(
                    u@,
                    u_stride as nat,
                    v@,
                    v_stride as nat,
                    width as nat,
                    height as nat,
                ),
                out@ == whole.take((row * width + column) * 4),
                (row * width + column) * 4 <= whole.len(),
            decreases width - column,
        {
            proof {
                lemma_packed_index(width as int, height as int, row as int, column as int);
                let i = (row * width + column) * 4;
                assert(i / 4 == row * width + column && (i + 1) / 4 == row * width + column);
                assert((i + 2) / 4 == row * width + column && (i + 3) / 4 == row * width + column);
                assert(i % 4 == 0 && (i + 1) % 4 == 1 && (i + 2) % 4 == 2 && (i + 3) % 4 == 3);
            }
            push_raised(&mut out, u[u_start + column * 2], u[u_start + column * 2 + 1]);
            push_raised(&mut out, v[v_start + column * 2], v[v_start + column * 2 + 1]);
            column += 1;
            assert(out@ =~= whole.take((row * width + column) * 4));
        }
        assert((row + 1) * width == row * width + width) by (nonlinear_arith);
        row += 1;
    }
    assert(height * width == width * height) by (nonlinear_arith);
    assert(whole.take(row * width * 4) =~= whole);
    out
}

// ---------------------------------------------------------------------------
// Frames
// ---------------------------------------------------------------------------

impl SourceFrame {
    /// Whether the frame has pixels, and an even number in each direction.
    pub open spec fn has_even_size(self) -> bool {
        self.width > 0 && self.height > 0 && self.width % 2 == 0 && self.height % 2 == 0
    }

    /// The width of the chroma.
    pub open spec fn chroma_width(self) -> nat {
        (self.width / 2) as nat
    }

    /// The height of the chroma.
    pub open spec fn chroma_height(self) -> nat {
        (self.height / 2) as nat
    }

    /// Whether the planes of the format are as long as their rows, and the
    /// packed ones can be held in memory.
    pub open spec fn is_backed(self) -> bool {
        let width = self.width as nat;
        let height = self.height as nat;
        let half = self.chroma_width();
        let rows = self.chroma_height();
        &&& width * height * 2 <= usize::MAX
        &&& match self.format {
            SourcePixelFormat::Yuv420p => {
                &&& reaches(self.first, width, height)
                &&& reaches(self.second, half, rows)
                &&& reaches(self.third, half, rows)
            },
            SourcePixelFormat::Nv12 => {
                &&& reaches(self.first, width, height)
                &&& reaches(self.second, half * 2, rows)
            },
            SourcePixelFormat::Yuv420p10Le => {
                &&& reaches(self.first, width * 2, height)
                &&& reaches(self.second, half * 2, rows)
                &&& reaches(self.third, half * 2, rows)
            },
            SourcePixelFormat::P010Le => {
                &&& reaches(self.first, width * 2, height)
                &&& reaches(self.second, half * 4, rows)
            },
            SourcePixelFormat::Other => true,
        }
    }

    /// The eight-bit planes, packed tightly, if the frame has them.
    pub open spec fn nv12_planes(self) -> Option<(Seq<u8>, Seq<u8>)> {
        let width = self.width as nat;
        let half = self.chroma_width();
        let rows = self.chroma_height();
        if !self.has_even_size() || !has_rows(self.first, width) {
            None
        } else {
            let luma = packed_rows(
                self.first->0.bytes@,
                row_length(self.first->0),
                width,
                self.height as nat,
            );
            match self.format {
                SourcePixelFormat::Yuv420p => if has_rows(self.second, half) && has_rows(
                    self.third,
                    half,
                ) {
                    Some(
                        (
                            luma,
                            interleaved(
                                self.second->0.bytes@,
                                row_length(self.second->0),
                                self.third->0.bytes@,
                                row_length(self.third->0),
                                half,
                                rows,
                            ),
                        ),
                    )
                } else {
                    None
                },
                SourcePixelFormat::Nv12 => if has_rows(self.second, half * 2) {
                    Some(
                        (
                            luma,
                            packed_rows(
                                self.second->0.bytes@,
                                row_length(self.second->0),
                                half * 2,
                                rows,
                            ),
                        ),
                    )
                } else {
                    None
                },
                _ => None,
            }
        }
    }

    /// The sixteen-bit planes, packed tightly, if the frame has them.
    pub open spec fn p010_planes(self) -> Option<(Seq<u8>, Seq<u8>)> {
        let width = self.width as nat;
        let height = self.height as nat;
        let half = self.chroma_width();
        let rows = self.chroma_height();
        if !self.has_even_size() || !has_rows(self.first, width * 2) {
            None
        } else {
            match self.format {
                SourcePixelFormat::Yuv420p10Le => if has_rows(self.second, half * 2) && has_rows(
                    self.third,
                    half * 2,
                ) {
                    Some(
                        (
                            raised_plane(
                                self.first->0.bytes@,
                                row_length(self.first->0),
                                width,
                                height,
                            ),
                            raised_chroma(
                                self.second->0.bytes@,
                                row_length(self.second->0),
                                self.third->0.bytes@,
                                row_length(self.third->0),
                                half,
                                rows,
                            ),
                        ),
                    )
                } else {
                    None
                },
                SourcePixelFormat::P010Le => if has_rows(self.second, half * 4) {
                    Some(
                        (
                            packed_rows(
                                self.first->0.bytes@,
                                row_length(self.first->0),
                                width * 2,
                                height,
                            ),
                            packed_rows(
                                self.second->0.bytes@,
                                row_length(self.second->0),
                                half * 4,
                                rows,
                            ),
                        ),
                    )
                } else {
                    None
                },
                _ => None,
            }
        }
    }

    /// Packs the planes of an eight-bit frame. Other frames, and those with an
    /// odd size or a missing plane, give none.
    pub fn to_nv12(&self) -> (result: Option<Nv12Frame>)
        requires
            self.is_backed(),
        ensures
            match self.nv12_planes() {
                None => result is None,
                Some((luma, chroma)) => result matches Some(frame) && frame.width == self.width
                    && frame.height == self.height && frame.luma@ == luma && frame.chroma@
                    == chroma,
            },
    {
        if self.width == 0 || self.height == 0 || self.width % 2 != 0 || self.height % 2 != 0 {
            return None;
        }
        let width: usize = self.width as usize;
        let height: usize = self.height as usize;
        let half: usize = width / 2;
        let rows: usize = height / 2;
        proof {
            lemma_half_area(width as int, height as int, half as int, rows as int);
        }
        let luma = match &self.first {
            Some(plane) => {
                let stride: usize = to_row_length(plane);
                if stride < width {
                    return None;
                }
                match self.format {
                    SourcePixelFormat::Yuv420p | SourcePixelFormat::Nv12 => pack_rows(
                        &plane.bytes,
                        stride,
                        width,
                        height,
                    ),
                    _ => {
                        return None;
                    },
                }
            },
            None => {
                return None;
            },
        };
        let chroma = match self.format {
            SourcePixelFormat::Yuv420p => match (&self.second, &self.third) {
                (Some(u), Some(v)) => {
                    let u_stride: usize = to_row_length(u);
                    let v_stride: usize = to_row_length(v);
                    if u_stride < half || v_stride < half {
                        return None;
                    }
                    interleave(&u.bytes, u_stride, &v.bytes, v_stride, half, rows)
                },
                _ => {
                    return None;
                },
            },
            _ => match &self.second {
                Some(uv) => {
                    let stride: usize = to_row_length(uv);
                    if stride < half * 2 {
                        return None;
                    }
                    pack_rows(&uv.bytes, stride, half * 2, rows)
                },
                None => {
                    return None;
                },
            },
        };
        Some(Nv12Frame { width: self.width, height: self.height, luma, chroma })
    }

    /// Packs the planes of a frame: eight bits as they are, ten bits as the high
    /// ones of sixteen.
    pub fn to_planar_frame(&self) -> (result: Option<PlanarFrame>)
        requires
            self.is_backed(),
        ensures
            match self.format {
                SourcePixelFormat::Yuv420p | SourcePixelFormat::Nv12 => match self.nv12_planes() {
                    None => result is None,
                    Some((luma, chroma)) => result matches Some(frame) && frame.format
                        == PlanarPixelFormat::Nv12 && frame.width == self.width && frame.height
                        == self.height && frame.luma@ == luma && frame.chroma@ == chroma,
                },
                _ => match self.p010_planes() {
                    None => result is None,
                    Some((luma, chroma)) => result matches Some(frame) && frame.format
                        == PlanarPixelFormat::P010 && frame.width == self.width && frame.height
                        == self.height && frame.luma@ == luma && frame.chroma@ == chroma,
                },
            },
    {
        match self.format {
            SourcePixelFormat::Yuv420p | SourcePixelFormat::Nv12 => match self.to_nv12() {
                Some(frame) => Some(
                    PlanarFrame {
                        format: PlanarPixelFormat::Nv12,
                        width: frame.width,
                        height: frame.height,
                        luma: frame.luma,
                        chroma: frame.chroma,
                    },
                ),
                None => None,
            },
            _ => self.to_p010(),
        }
    }

    fn to_p010(&self) -> (result: Option<PlanarFrame>)
        requires
            self.is_backed(),
            !(self.format is Yuv420p) && !(self.format is Nv12),
        ensures
            match self.p010_planes() {
                None => result is None,
                Some((luma, chroma)) => result matches Some(frame) && frame.format
                    == PlanarPixelFormat::P010 && frame.width == self.width && frame.height
                    == self.height && frame.luma@ == luma && frame.chroma@ == chroma,
            },
    {
        if self.width == 0 || self.height == 0 || self.width % 2 != 0 || self.height % 2 != 0 {
            return None;
        }
        let width: usize = self.width as usize;
        let height: usize = self.height as usize;
        let half: usize = width / 2;
        let rows: usize = height / 2;
        proof {
            lemma_half_area(width as int, height as int, half as int, rows as int);
            assert(width * 2 <= width * height * 2) by (nonlinear_arith)
                requires
                    width > 0,
                    height > 0,
            ;
            assert(width * 2 * height == width * height * 2) by (nonlinear_arith);
            assert(half * 4 * rows == half * rows * 4) by (nonlinear_arith);
        }
        let plane = match &self.first {
            Some(plane) => plane,
            None => {
                return None;
            },
        };
        let stride: usize = to_row_length(plane);
        if stride < width * 2 {
            return None;
        }
        match self.format {
            SourcePixelFormat::Yuv420p10Le => match (&self.second, &self.third) {
                (Some(u), Some(v)) => {
                    let u_stride: usize = to_row_length(u);
                    let v_stride: usize = to_row_length(v);
                    if u_stride < half * 2 || v_stride < half * 2 {
                        return None;
                    }
                    let luma = raise_plane(&plane.bytes, stride, width, height);
                    let chroma = raise_chroma(&u.bytes, u_stride, &v.bytes, v_stride, half, rows);
                    Some(
                        PlanarFrame {
                            format: PlanarPixelFormat::P010,
                            width: self.width,
                            height: self.height,
                            luma,
                            chroma,
                        },
                    )
                },
                _ => None,
            },
            SourcePixelFormat::P010Le => match &self.second {
                Some(uv) => {
                    let uv_stride: usize = to_row_length(uv);
                    if uv_stride < half * 4 {
                        return None;
                    }
                    let luma = pack_rows(&plane.bytes, stride, width * 2, height);
                    let chroma = pack_rows(&uv.bytes, uv_stride, half * 4, rows);
                    Some(
                        PlanarFrame {
                            format: PlanarPixelFormat::P010,
                            width: self.width,
                            height: self.height,
                            luma,
                            chroma,
                        },
                    )
                },
                None => None,
            },
            _ => None,
        }
    }
}

fn to_row_length(plane: &SourcePlane) -> (result: usize)
    ensures
        result == row_length(*plane),
{
    if plane.stride < 0 {
        0
    } else {
        plane.stride as usize
    }
}

/// The chroma takes half the bytes of the luma.
proof fn lemma_half_area(width: int, height: int, half: int, rows: int)
    requires
        width > 0,
        height > 0,
        width == half * 2,
        height == rows * 2,
    ensures
        half * rows * 2 <= width * height,
        half * rows * 4 == width * height,
        half * 2 * rows == half * rows * 2,
        half > 0,
        rows > 0,
        width * height > 0,
{
    assert(half * rows * 4 == width * height && half * 2 * rows == half * rows * 2 && half * rows
        > 0) by (nonlinear_arith)
        requires
            width == half * 2,
            height == rows * 2,
            half > 0,
            rows > 0,
    ;
}

/// The packed planes of a frame have the sizes that a renderer expects: one or
/// two bytes for each luma sample, and half as many for the chroma.
pub proof fn law_packed_planes_have_their_sizes(frame: SourceFrame)
    ensures
        frame.nv12_planes() matches Some((luma, chroma)) ==> luma.len() == frame.width
            * frame.height && chroma.len() * 2 == frame.width * frame.height,
        frame.p010_planes() matches Some((luma, chroma)) ==> luma.len() == frame.width
            * frame.height * 2 && chroma.len() == frame.width * frame.height,
{
    if frame.has_even_size() {
        let half = frame.chroma_width() as int;
        let rows = frame.chroma_height() as int;
        let width = frame.width as int;
        let height = frame.height as int;
        lemma_half_area(width, height, half, rows);
        assert(width * 2 * height == width * height * 2) by (nonlinear_arith);
        assert(half * 4 * rows == half * rows * 4) by (nonlinear_arith);
        assert(half * rows * 2 * 2 == half * rows * 4) by (nonlinear_arith);
        assert(half * 2 * rows * 2 == half * rows * 4) by (nonlinear_arith);
    }
}

/// Rows are packed place by place: whatever the stride, the byte in a row and a
/// column is the one that stood there.
pub proof fn law_packed_rows_keep_their_places(
    bytes: Seq<u8>,
    stride: nat,
    row_bytes: nat,
    rows: nat,
    row: int,
    column: int,
)
    requires
        0 <= row < rows,
        0 <= column < row_bytes,
    ensures
        0 <= row * row_bytes + column < packed_rows(bytes, stride, row_bytes, rows).len(),
        packed_rows(bytes, stride, row_bytes, rows)[row * row_bytes + column] == bytes[row * stride
            + column],
{
    lemma_packed_index(row_bytes as int, rows as int, row, column);
}

/// Chroma planes are interleaved place by place: for each row and column, first the
/// byte of the one plane that stood there, then that of the other.
pub proof fn law_interleaved_planes_keep_their_places(
    u: Seq<u8>,
    u_stride: nat,
    v: Seq<u8>,
    v_stride: nat,
    width: nat,
    height: nat,
    row: int,
    column: int,
)
    requires
        0 <= row < height,
        0 <= column < width,
    ensures
        ({
            let packed = interleaved(u, u_stride, v, v_stride, width, height);
            let at = 2 * (row * width + column);
            &&& 0 <= at && at + 1 < packed.len()
            &&& packed[at] == u[row * u_stride + column]
            &&& packed[at + 1] == v[row * v_stride + column]
        }),
{
    lemma_packed_index(width as int, height as int, row, column);
    let at = 2 * (row * width + column);
    assert(at / 2 == row * width + column && (at + 1) / 2 == row * width + column);
    assert(at % 2 == 0 && (at + 1) % 2 == 1);
}

/// An eight-bit frame is packed place by place: each luma sample is the one in its
/// row and column of the first plane, and each pair of chroma samples is a U and a V
/// sample from their row and column, whether the frame has them in one plane or in
/// two.
pub proof fn law_eight_bit_frames_keep_their_samples(frame: SourceFrame, row: int, column: int)
    requires
        frame.nv12_planes() is Some,
    ensures
        0 <= row < frame.height && 0 <= column < frame.width ==> {
            let luma = (frame.nv12_planes()->0).0;
            &&& 0 <= row * frame.width + column < luma.len()
            &&& luma[row * frame.width + column] == frame.first->0.bytes@[row
                * frame.first->0.stride + column]
        },
        0 <= 2 * row < frame.height && 0 <= 2 * column < frame.width ==> {
            let chroma = (frame.nv12_planes()->0).1;
            let at = 2 * (row * (frame.width / 2) + column);
            &&& 0 <= at && at + 1 < chroma.len()
            &&& frame.format == SourcePixelFormat::Yuv420p ==> {
                &&& chroma[at] == frame.second->0.bytes@[row * frame.second->0.stride + column]
                &&& chroma[at + 1] == frame.third->0.bytes@[row * frame.third->0.stride + column]
            }
            &&& frame.format == SourcePixelFormat::Nv12 ==> {
                let from = row * frame.second->0.stride + 2 * column;
                &&& chroma[at] == frame.second->0.bytes@[from]
                &&& chroma[at + 1] == frame.second->0.bytes@[from + 1]
            }
        },
{
    let half = frame.chroma_width();
    let rows = frame.chroma_height();
    let first = frame.first->0;
    let second = frame.second->0;
    let third = frame.third->0;
    if 0 <= row < frame.height && 0 <= column < frame.width {
        law_packed_rows_keep_their_places(
            first.bytes@,
            row_length(first),
            frame.width as nat,
            frame.height as nat,
            row,
            column,
        );
    }
    if 0 <= 2 * row < frame.height && 0 <= 2 * column < frame.width {
        law_interleaved_planes_keep_their_places(
            second.bytes@,
            row_length(second),
            third.bytes@,
            row_length(third),
            half,
            rows,
            row,
            column,
        );
        law_packed_rows_keep_their_places(
            second.bytes@,
            row_length(second),
            half * 2,
            rows,
            row,
            2 * column,
        );
        law_packed_rows_keep_their_places(
            second.bytes@,
            row_length(second),
            half * 2,
            rows,
            row,
            2 * column + 1,
        );
        assert(row * (half * 2) + 2 * column == 2 * (row * half + column)) by (nonlinear_arith);
    }
}

/// A frame of even size whose planes are there, with rows long enough, is packed;
/// one with an odd size is not.
pub proof fn law_complete_frames_are_packed(frame: SourceFrame)
    ensures
        frame.width % 2 == 1 || frame.height % 2 == 1 ==> frame.nv12_planes() is None
            && frame.p010_planes() is None,
        frame.width > 0 && frame.height > 0 && frame.width % 2 == 0 && frame.height % 2 == 0
            && frame.first is Some && frame.second is Some && frame.third is Some ==> {
            let luma = frame.first->0.stride;
            let u = frame.second->0.stride;
            let v = frame.third->0.stride;
            match frame.format {
                SourcePixelFormat::Yuv420p => luma >= frame.width && 2 * u >= frame.width && 2 * v
                    >= frame.width ==> frame.nv12_planes() is Some,
                SourcePixelFormat::Nv12 => luma >= frame.width && u >= frame.width
                    ==> frame.nv12_planes() is Some,
                SourcePixelFormat::Yuv420p10Le => luma >= 2 * frame.width && u >= frame.width && v
                    >= frame.width ==> frame.p010_planes() is Some,
                SourcePixelFormat::P010Le => luma >= 2 * frame.width && u >= 2 * frame.width
                    ==> frame.p010_planes() is Some,
                SourcePixelFormat::Other => frame.nv12_planes() is None && frame.p010_planes()
                    is None,
            }
        },
{
}

/// The sample of two bytes, the low one first, that starts at a place.
pub open spec fn sample_at(bytes: Seq<u8>, at: int) -> int {
    bytes[at] + 256 * bytes[at + 1]
}

/// A ten-bit frame is packed place by place, and its samples are moved to the high
/// bits: a sample is 64 times the one that stood in its row and column, so that
/// none of its ten bits is lost. Samples that stand high already stay as they are.
pub proof fn law_ten_bit_frames_keep_their_samples(frame: SourceFrame, row: int, column: int)
    requires
        frame.p010_planes() is Some,
    ensures
        0 <= row < frame.height && 0 <= column < frame.width ==> {
            let luma = (frame.p010_planes()->0).0;
            let at = 2 * (row * frame.width + column);
            let from = sample_at(
                frame.first->0.bytes@,
                row * frame.first->0.stride + 2 * column,
            );
            &&& 0 <= at && at + 1 < luma.len()
            &&& frame.format == SourcePixelFormat::P010Le ==> sample_at(luma, at) == from
            &&& frame.format == SourcePixelFormat::Yuv420p10Le && from < 1024 ==> sample_at(luma, at)
                == 64 * from
        },
        0 <= 2 * row < frame.height && 0 <= 2 * column < frame.width ==> {
            let chroma = (frame.p010_planes()->0).1;
            let at = 4 * (row * (frame.width / 2) + column);
            &&& 0 <= at && at + 3 < chroma.len()
            &&& frame.format == SourcePixelFormat::P010Le ==> {
                let from = row * frame.second->0.stride + 4 * column;
                &&& sample_at(chroma, at) == sample_at(frame.second->0.bytes@, from)
                &&& sample_at(chroma, at + 2) == sample_at(frame.second->0.bytes@, from + 2)
            }
            &&& frame.format == SourcePixelFormat::Yuv420p10Le ==> {
                let u = sample_at(
                    frame.second->0.bytes@,
                    row * frame.second->0.stride + 2 * column,
                );
                let v = sample_at(frame.third->0.bytes@, row * frame.third->0.stride + 2 * column);
                &&& u < 1024 ==> sample_at(chroma, at) == 64 * u
                &&& v < 1024 ==> sample_at(chroma, at + 2) == 64 * v
            }
        },
{
    let half = frame.chroma_width();
    let rows = frame.chroma_height();
    let width = frame.width as nat;
    let height = frame.height as nat;
    let first = frame.first->0;
    let second = frame.second->0;
    if 0 <= row < height && 0 <= column < width {
        lemma_packed_index(width as int, height as int, row, column);
        let at = 2 * (row * width + column);
        assert(at / 2 == row * width + column && (at + 1) / 2 == row * width + column);
        assert(at % 2 == 0 && (at + 1) % 2 == 1);
        law_packed_rows_keep_their_places(
            first.bytes@,
            row_length(first),
            width * 2,
            height,
            row,
            2 * column,
        );
        law_packed_rows_keep_their_places(
            first.bytes@,
            row_length(first),
            width * 2,
            height,
            row,
            2 * column + 1,
        );
        assert(row * (width * 2) + 2 * column == 2 * (row * width + column)) by (nonlinear_arith);
    }
    if 0 <= 2 * row < height && 0 <= 2 * column < width {
        lemma_packed_index(half as int, rows as int, row, column);
        let at = 4 * (row * half + column);
        assert(at / 4 == row * half + column && (at + 1) / 4 == row * half + column);
        assert((at + 2) / 4 == row * half + column && (at + 3) / 4 == row * half + column);
        assert(at % 4 == 0 && (at + 1) % 4 == 1 && (at + 2) % 4 == 2 && (at + 3) % 4 == 3);
        assert(row * (half * 4) + 4 * column == 4 * (row * half + column)) by (nonlinear_arith);
        assert forall|k: int| 0 <= k < 4 implies packed_rows(
            second.bytes@,
            row_length(second),
            half * 4,
            rows,
        )[#[trigger] (at + k)] == second.bytes@[row * row_length(second) + 4 * column + k] by {
            law_packed_rows_keep_their_places(
                second.bytes@,
                row_length(second),
                half * 4,
                rows,
                row,
                4 * column + k,
            );
        }
        let packed = packed_rows(second.bytes@, row_length(second), half * 4, rows);
        lemma_packed_index((half * 4) as int, rows as int, row, 4 * column + 3);
        assert(packed[at + 0] == second.bytes@[row * row_length(second) + 4 * column + 0]);
        assert(packed[at + 1] == second.bytes@[row * row_length(second) + 4 * column + 1]);
        assert(packed[at + 2] == second.bytes@[row * row_length(second) + 4 * column + 2]);
        assert(packed[at + 3] == second.bytes@[row * row_length(second) + 4 * column + 3]);
    }
}

} // verus!
