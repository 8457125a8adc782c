//! Where in a strip the header and the payload bytes are painted.

use vstd::prelude::*;

verus! {

/// The column that carries the header pixel.
pub const HEADER_COLUMN: u32 = 0;

/// The column at which the scan for data pixels starts.
pub const FIRST_SCANNED_COLUMN: u32 = 2;

/// The scan for data pixels never looks at this column or beyond.
pub const SCAN_LIMIT: u32 = 400;

/// Payload bytes carried by one data pixel: its red, green and blue channel.
pub const BYTES_PER_PIXEL: u32 = 3;

/// Whether a column carries payload: every fifth column and the one three
/// after it do, the rest is spacing.
pub open spec fn is_data_column(index: int) -> bool {
    index % 5 == 0 || index % 5 == 3
}

/// The index of the `k`-th data column that the scan meets, counting from
/// zero: 3, 5, 8, 10, 13, 15, ...
pub open spec fn data_column(k: int) -> int {
    5 * (k / 2) + 3 + 2 * (k % 2)
}

/// How many data pixels a payload of `size` bytes takes up.
pub open spec fn columns_needed(size: int) -> int {
    (size + 2) / 3
}

/// The first column that the scan does not look at in a strip of this width.
pub open spec fn scan_limit(width: int) -> int {
    if width < SCAN_LIMIT {
        width
    } else {
        SCAN_LIMIT as int
    }
}

pub fn is_data_pixel(i: u32) -> (data: bool)
    ensures
        data == is_data_column(i as int),
{
    let x: u32 = i % 5;
    x == 0 || x == 3
}

/// The number of data pixels that carry `size` payload bytes.
pub fn pixels_needed(size: u8) -> (count: u32)
    ensures
        count == columns_needed(size as int),
        count <= 85,
{
    (size as u32 + 2) / 3
}

/// The data columns are exactly the values of `data_column`, in ascending
/// order: each is a data column, the first is the first one at or after the
/// start of the scan, and no data column lies between two consecutive ones.
pub proof fn lemma_data_columns_enumerated(k: int)
    requires
        0 <= k,
    ensures
        is_data_column(data_column(k)),
        data_column(k) < data_column(k + 1),
        forall|i: int| data_column(k) < i < data_column(k + 1) ==> !is_data_column(i),
        forall|i: int| FIRST_SCANNED_COLUMN <= i < data_column(0) ==> !is_data_column(i),
        data_column(0) == 3,
{
}

/// A payload of the largest size that a header can declare fits below the
/// scan limit: its last data pixel is in column 213.
pub proof fn lemma_largest_payload_fits(size: int)
    requires
        0 < size <= 255,
    ensures
        data_column(columns_needed(size) - 1) <= 213,
        data_column(columns_needed(size) - 1) < SCAN_LIMIT,
{
}

} // verus!
