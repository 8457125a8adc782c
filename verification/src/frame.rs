//! Reading a frame off a captured strip: the header vote, the scan over the
//! data columns, and the checksum.

use vstd::prelude::*;
use crate::error::DecodeError;
use crate::layout::{
    columns_needed, data_column, is_data_pixel, lemma_data_columns_enumerated,
    lemma_largest_payload_fits, pixels_needed,
    scan_limit, FIRST_SCANNED_COLUMN, HEADER_COLUMN, SCAN_LIMIT,
};
use crate::payload::{assemble_payload, channel, checksum_of, payload_bytes, validate_checksum};
use crate::pixel::{header_from_pixel, header_of_pixel, FrameHeader, Pixel};
use crate::raster::{pixel_validate_get, Raster, RasterView, REQUIRED_AGREEMENT};
use crate::vote::lemma_unanimous;

verus! {

/// What reading the header column gives: the header that the resolved pixel
/// encodes, or no header where the rows of the column do not agree.
pub open spec fn header_outcome(view: RasterView) -> Result<FrameHeader, DecodeError> {
    match view.resolved(HEADER_COLUMN as int) {
        Some(pixel) => Ok(header_of_pixel(pixel)),
        None => Err(DecodeError::NoHeaderConsensus),
    }
}

/// Data column `k` lies within the scanned range and its rows agree.
pub open spec fn column_settled(view: RasterView, k: int) -> bool {
    data_column(k) < scan_limit(view.width as int) && view.resolved(data_column(k)) is Some
}

/// What scanning for the first `n` data pixels gives. The columns are taken
/// in ascending order and the first one that fails decides: one beyond the
/// scanned range means that the strip cannot carry the payload, one whose
/// rows disagree means that the capture is torn.
pub open spec fn resolve_columns(view: RasterView, n: int) -> Result<Seq<Pixel>, DecodeError>
    decreases n,
{
    if n <= 0 {
        Ok(Seq::empty())
    } else {
        match resolve_columns(view, n - 1) {
            Err(e) => Err(e),
            Ok(pixels) => {
                let x = data_column(n - 1);
                if x >= scan_limit(view.width as int) {
                    Err(DecodeError::PayloadTooShort)
                } else {
                    match view.resolved(x) {
                        Some(pixel) => Ok(pixels.push(pixel)),
                        None => Err(DecodeError::NoColumnConsensus(x as u32)),
                    }
                }
            },
        }
    }
}

/// What extracting a payload of `size` bytes gives: the bytes of the resolved
/// data pixels, cut to `size`.
pub open spec fn payload_outcome(view: RasterView, size: int) -> Result<Seq<u8>, DecodeError> {
    match resolve_columns(view, columns_needed(size)) {
        Ok(pixels) => Ok(payload_bytes(pixels, size)),
        Err(e) => Err(e),
    }
}

/// What decoding a strip gives: its header and payload, if the header column
/// resolves, the data columns resolve, and the payload adds up to the
/// checksum of the header.
pub open spec fn frame_outcome(view: RasterView) -> Result<(FrameHeader, Seq<u8>), DecodeError> {
    match header_outcome(view) {
        Err(e) => Err(e),
        Ok(header) => match payload_outcome(view, header.size as int) {
            Err(e) => Err(e),
            Ok(bytes) => if checksum_of(bytes) == header.checksum {
                Ok((header, bytes))
            } else {
                Err(DecodeError::ChecksumMismatch)
            },
        },
    }
}

/// Once the scan has failed, asking for more pixels fails in the same way.
pub proof fn lemma_scan_failure_persists(view: RasterView, m: int, n: int)
    requires
        m <= n,
        resolve_columns(view, m) is Err,
    ensures
        resolve_columns(view, n) == resolve_columns(view, m),
    decreases n - m,
{
    if m < n {
        lemma_scan_failure_persists(view, m, n - 1);
    }
}

/// The scan succeeds exactly if each of the first `n` data columns is within
/// range and settled, and then it yields the resolved pixel of each.
pub proof fn lemma_scan_success(view: RasterView, n: int)
    requires
        0 <= n,
    ensures
        resolve_columns(view, n) is Ok <==> forall|k: int|
            0 <= k < n ==> #[trigger] column_settled(view, k),
        resolve_columns(view, n) matches Ok(pixels) ==> pixels.len() == n && forall|k: int|
            0 <= k < n ==> view.resolved(data_column(k)) == Some(#[trigger] pixels[k]),
    decreases n,
{
    if n > 0 {
        lemma_scan_success(view, n - 1);
        if resolve_columns(view, n) is Ok {
            assert(column_settled(view, n - 1));
        }
        if forall|k: int| 0 <= k < n ==> #[trigger] column_settled(view, k) {
            assert(column_settled(view, n - 1));
        }
    }
}

/// Where the scan fails, it fails at the first data column that is out of
/// range or unsettled, and the error names which of the two it was.
pub proof fn lemma_scan_failure(view: RasterView, n: int)
    requires
        resolve_columns(view, n) is Err,
    ensures
        exists|k: int|
            {
                &&& 0 <= k < n
                &&& !#[trigger] column_settled(view, k)
                &&& forall|j: int| 0 <= j < k ==> #[trigger] column_settled(view, j)
                &&& resolve_columns(view, n) == if data_column(k) >= scan_limit(
                    view.width as int,
                ) {
                    Err::<Seq<Pixel>, DecodeError>(DecodeError::PayloadTooShort)
                } else {
                    Err::<Seq<Pixel>, DecodeError>(
                        DecodeError::NoColumnConsensus(data_column(k) as u32),
                    )
                }
            },
    decreases n,
{
    if n > 0 {
        if resolve_columns(view, n - 1) is Err {
            lemma_scan_failure(view, n - 1);
            let k = choose|k: int|
                {
                    &&& 0 <= k < n - 1
                    &&& !#[trigger] column_settled(view, k)
                    &&& forall|j: int| 0 <= j < k ==> #[trigger] column_settled(view, j)
                    &&& resolve_columns(view, n - 1) == if data_column(k) >= scan_limit(
                        view.width as int,
                    ) {
                        Err::<Seq<Pixel>, DecodeError>(DecodeError::PayloadTooShort)
                    } else {
                        Err::<Seq<Pixel>, DecodeError>(
                            DecodeError::NoColumnConsensus(data_column(k) as u32),
                        )
                    }
                };
            assert(0 <= k < n && !column_settled(view, k));
        } else {
            lemma_scan_success(view, n - 1);
            assert(!column_settled(view, n - 1));
        }
    }
}

/// On a strip that is at least 214 pixels wide the scan never runs out of
/// columns, whatever size the header declares.
pub proof fn lemma_wide_strip_never_short(view: RasterView, size: u8)
    requires
        view.width >= 214,
    ensures
        resolve_columns(view, columns_needed(size as int)) != Err::<Seq<Pixel>, DecodeError>(
            DecodeError::PayloadTooShort,
        ),
{
    let n = columns_needed(size as int);
    if resolve_columns(view, n) is Err {
        lemma_scan_failure(view, n);
        if size > 0 {
            lemma_largest_payload_fits(size as int);
        }
    }
}

/// The pixel carries the three payload bytes from offset `3 * k` on, as far
/// as the payload reaches; what it holds beyond the end of the payload is
/// padding and may be anything.
pub open spec fn pixel_carries(pixel: Pixel, payload: Seq<u8>, k: int) -> bool {
    forall|c: int| 0 <= c < 3 && 3 * k + c < payload.len() ==> channel(pixel, c) == payload[3 * k + c]
}

/// The strip shows this header and payload: its header column resolves to a
/// pixel that encodes the header, and each data column that the payload takes
/// up lies within the scanned range and resolves to a pixel that carries its
/// three bytes.
pub open spec fn shows_frame(view: RasterView, header: FrameHeader, payload: Seq<u8>) -> bool {
    &&& payload.len() == header.size
    &&& view.resolved(HEADER_COLUMN as int) matches Some(pixel) && header_of_pixel(pixel) == header
    &&& forall|k: int|
        0 <= k < columns_needed(header.size as int) ==> #[trigger] column_settled(view, k)
            && pixel_carries(view.resolved(data_column(k))->0, payload, k)
}

/// Every row of column `x` shows the same pixel.
pub open spec fn column_shows(view: RasterView, x: int, pixel: Pixel) -> bool {
    &&& 0 <= x < view.width
    &&& forall|y: int| 0 <= y < view.height ==> #[trigger] view.pixel_at(x, y) == pixel
}

/// A column whose rows all show the same pixel resolves to that pixel, if
/// the strip has at least two rows.
pub proof fn lemma_uniform_column_resolves(view: RasterView, x: int, pixel: Pixel)
    requires
        column_shows(view, x, pixel),
        view.height >= REQUIRED_AGREEMENT,
    ensures
        view.resolved(x) == Some(pixel),
{
    let samples = view.column(x);
    assert forall|i: int| 0 <= i < samples.len() implies #[trigger] samples[i] == pixel by {
        assert(samples[i] == view.pixel_at(x, i));
    }
    lemma_unanimous(samples, pixel, REQUIRED_AGREEMENT as nat);
}

/// Data column `k` is painted with the bytes of the payload from offset
/// `3 * k` on: it lies within the scanned range and every row of it shows one
/// and the same pixel that carries them.
pub open spec fn column_painted(view: RasterView, payload: Seq<u8>, k: int) -> bool {
    &&& data_column(k) < scan_limit(view.width as int)
    &&& exists|pixel: Pixel| #[trigger]
        column_shows(view, data_column(k), pixel) && pixel_carries(pixel, payload, k)
}

/// The strip is an untorn painting of this header and payload: it has at
/// least two rows, every row of the header column shows a pixel that encodes
/// the header, and every data column that the payload takes up is painted
/// with its bytes.
pub open spec fn painted(view: RasterView, header: FrameHeader, payload: Seq<u8>) -> bool {
    &&& payload.len() == header.size
    &&& view.height >= REQUIRED_AGREEMENT
    &&& exists|pixel: Pixel| #[trigger]
        column_shows(view, HEADER_COLUMN as int, pixel) && header_of_pixel(pixel) == header
    &&& forall|k: int|
        0 <= k < columns_needed(header.size as int) ==> #[trigger] column_painted(view, payload, k)
}

/// An untorn painting of a header and payload shows them, so it decodes to
/// them.
pub proof fn lemma_painted_frame_shows(view: RasterView, header: FrameHeader, payload: Seq<u8>)
    requires
        painted(view, header, payload),
    ensures
        shows_frame(view, header, payload),
{
    let head = choose|pixel: Pixel| #[trigger]
        column_shows(view, HEADER_COLUMN as int, pixel) && header_of_pixel(pixel) == header;
    lemma_uniform_column_resolves(view, HEADER_COLUMN as int, head);
    assert forall|k: int| 0 <= k < columns_needed(header.size as int) implies #[trigger]
        column_settled(view, k) && pixel_carries(
        view.resolved(data_column(k))->0,
        payload,
        k,
    ) by {
        assert(column_painted(view, payload, k));
        let pixel = choose|pixel: Pixel| #[trigger]
            column_shows(view, data_column(k), pixel) && pixel_carries(pixel, payload, k);
        lemma_uniform_column_resolves(view, data_column(k), pixel);
    }
}

/// Round trip: a strip that shows a header and a payload decodes to exactly
/// that header and payload, whatever else it holds, if the header carries the
/// checksum of the payload; with another checksum the frame is rejected.
pub proof fn lemma_shown_frame_decodes(view: RasterView, header: FrameHeader, payload: Seq<u8>)
    requires
        shows_frame(view, header, payload),
    ensures
        header_outcome(view) == Ok::<FrameHeader, DecodeError>(header),
        payload_outcome(view, header.size as int) == Ok::<Seq<u8>, DecodeError>(payload),
        header.checksum == checksum_of(payload) ==> frame_outcome(view) == Ok::<
            (FrameHeader, Seq<u8>),
            DecodeError,
        >((header, payload)),
        header.checksum != checksum_of(payload) ==> frame_outcome(view) == Err::<
            (FrameHeader, Seq<u8>),
            DecodeError,
        >(DecodeError::ChecksumMismatch),
{
    let size = header.size as int;
    let n = columns_needed(size);
    lemma_scan_success(view, n);
    assert(resolve_columns(view, n) is Ok);
    let pixels = resolve_columns(view, n)->Ok_0;
    let bytes = payload_bytes(pixels, size);
    assert(bytes.len() == size);
    assert forall|i: int| 0 <= i < size implies bytes[i] == payload[i] by {
        let k = i / 3;
        let c = i % 3;
        assert(column_settled(view, k));
        assert(view.resolved(data_column(k)) == Some(pixels[k]));
        assert(pixel_carries(pixels[k], payload, k));
        assert(3 * k + c == i);
    }
    assert(bytes =~= payload);
}

/// A decoded frame: the header and the payload that it announces.
#[derive(Debug, PartialEq, Eq)]
pub struct DecodedFrame {
    pub header: FrameHeader,
    pub payload: Vec<u8>,
}

/// Reads the header of a strip by majority vote over the header column.
pub fn read_header(img: &Raster) -> (header: Result<FrameHeader, DecodeError>)
    ensures
        header == header_outcome(img@),
{
    match pixel_validate_get(img, HEADER_COLUMN) {
        Some(pixel) => Ok(header_from_pixel(&pixel)),
        None => Err(DecodeError::NoHeaderConsensus),
    }
}

/// A captured strip together with the header that was read off it.
pub struct Frame {
    pub size: u8,
    pub checksum: u8,
    pub clock: u8,
    pub img: Raster,
}

impl Frame {
    /// The header fields of the frame.
    pub open spec fn header_spec(self) -> FrameHeader {
        FrameHeader { size: self.size, checksum: self.checksum, sequence: self.clock }
    }

    /// Reads the header of a strip and keeps the strip for the payload scan.
    pub fn new(img: Raster) -> (frame: Result<Frame, DecodeError>)
        ensures
            match header_outcome(img@) {
                Ok(header) => frame matches Ok(f) && f.header_spec() == header && f.img@ == img@,
                Err(e) => frame matches Err(f) && f == e,
            },
    {
        match read_header(&img) {
            Ok(header) => Ok(
                Frame {
                    size: header.size,
                    checksum: header.checksum,
                    clock: header.sequence,
                    img,
                },
            ),
            Err(e) => Err(e),
        }
    }

    pub fn header(&self) -> (header: FrameHeader)
        ensures
            header == self.header_spec(),
    {
        FrameHeader { size: self.size, checksum: self.checksum, sequence: self.clock }
    }

    /// Resolves data column `x` by majority vote over its rows.
    pub fn pixel_validate_get(&self, x: u32) -> (pixel: Result<Pixel, DecodeError>)
        ensures
            pixel == match self.img@.resolved(x as int) {
                Some(p) => Ok::<Pixel, DecodeError>(p),
                None => Err::<Pixel, DecodeError>(DecodeError::NoColumnConsensus(x)),
            },
    {
        match pixel_validate_get(&self.img, x) {
            Some(p) => Ok(p),
            None => Err(DecodeError::NoColumnConsensus(x)),
        }
    }

    pub fn is_data_pixel(i: u32) -> (data: bool)
        ensures
            data == crate::layout::is_data_column(i as int),
    {
        is_data_pixel(i)
    }

    /// Scans the data columns in ascending order and resolves as many pixels
    /// as the declared size takes up.
    pub fn get_all_pixels(&self) -> (pixels: Result<Vec<Pixel>, DecodeError>)
        ensures
            match resolve_columns(self.img@, columns_needed(self.size as int)) {
                Ok(resolved) => pixels matches Ok(v) && v@ == resolved,
                Err(e) => pixels matches Err(f) && f == e,
            },
            pixels matches Ok(v) ==> v@.len() == columns_needed(self.size as int),
    {
        let ghost view = self.img@;
        let needed: usize = pixels_needed(self.size) as usize;
        let mut pix_vec: Vec<Pixel> = Vec::new();
        if needed == 0 {
            return Ok(pix_vec);
        }
        let width: u32 = self.img.width();
        let limit: u32 = if width < SCAN_LIMIT {
            width
        } else {
            SCAN_LIMIT
        };
        let mut i: u32 = FIRST_SCANNED_COLUMN;
        while i < limit
            invariant
                view == self.img@,
                limit == scan_limit(view.width as int),
                limit <= SCAN_LIMIT,
                needed == columns_needed(self.size as int),
                FIRST_SCANNED_COLUMN <= i,
                pix_vec@.len() < needed,
                resolve_columns(view, pix_vec@.len() as int) == Ok::<Seq<Pixel>, DecodeError>(
                    pix_vec@,
                ),
                i <= data_column(pix_vec@.len() as int),
                pix_vec@.len() > 0 ==> data_column(pix_vec@.len() - 1) < i,
            decreases limit - i,
        {
            let ghost found = pix_vec@.len() as int;
            proof {
                lemma_data_columns_enumerated(found);
                if found > 0 {
                    lemma_data_columns_enumerated(found - 1);
                }
            }
            if is_data_pixel(i) {
                assert(i == data_column(found));
                match self.pixel_validate_get(i) {
                    Ok(p) => {
                        pix_vec.push(p);
                        assert(resolve_columns(view, found + 1) == Ok::<Seq<Pixel>, DecodeError>(
                            pix_vec@,
                        ));
                        if pix_vec.len() == needed {
                            return Ok(pix_vec);
                        }
                    },
                    Err(e) => {
                        proof {
                            assert(resolve_columns(view, found + 1) == Err::<
                                Seq<Pixel>,
                                DecodeError,
                            >(e));
                            lemma_scan_failure_persists(view, found + 1, needed as int);
                        }
                        return Err(e);
                    },
                }
            }
            i = i + 1;
        }
        proof {
            let found = pix_vec@.len() as int;
            assert(resolve_columns(view, found + 1) == Err::<Seq<Pixel>, DecodeError>(
                DecodeError::PayloadTooShort,
            ));
            lemma_scan_failure_persists(view, found + 1, needed as int);
        }
        Err(DecodeError::PayloadTooShort)
    }

    /// Extracts the payload that the header announces.
    pub fn payload(&self) -> (bytes: Result<Vec<u8>, DecodeError>)
        ensures
            match payload_outcome(self.img@, self.size as int) {
                Ok(expected) => bytes matches Ok(v) && v@ == expected,
                Err(e) => bytes matches Err(f) && f == e,
            },
            bytes matches Ok(v) ==> v@.len() == self.size,
    {
        match self.get_all_pixels() {
            Ok(pixels) => Ok(assemble_payload(&pixels, self.size)),
            Err(e) => Err(e),
        }
    }

    /// Extracts the payload and holds it against the checksum of the header.
    pub fn decode(&self) -> (decoded: Result<DecodedFrame, DecodeError>)
        ensures
            match payload_outcome(self.img@, self.size as int) {
                Ok(expected) => if checksum_of(expected) == self.checksum {
                    decoded matches Ok(d) && d.header == self.header_spec() && d.payload@
                        == expected
                } else {
                    decoded matches Err(f) && f == DecodeError::ChecksumMismatch
                },
                Err(e) => decoded matches Err(f) && f == e,
            },
            decoded matches Ok(d) ==> d.payload@.len() == d.header.size,
    {
        match self.payload() {
            Ok(payload) => match validate_checksum(&payload, self.checksum) {
                Ok(()) => Ok(DecodedFrame { header: self.header(), payload }),
                Err(e) => Err(e),
            },
            Err(e) => Err(e),
        }
    }
}

/// Decodes one captured strip: header, payload and checksum.
pub fn decode_frame(img: Raster) -> (decoded: Result<DecodedFrame, DecodeError>)
    ensures
        match frame_outcome(img@) {
            Ok((header, bytes)) => decoded matches Ok(d) && d.header == header && d.payload@
                == bytes,
            Err(e) => decoded matches Err(f) && f == e,
        },
        decoded matches Ok(d) ==> d.payload@.len() == d.header.size,
{
    match Frame::new(img) {
        Ok(frame) => frame.decode(),
        Err(e) => Err(e),
    }
}

} // verus!
