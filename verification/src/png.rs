//! Loading and saving images as PNG streams. The bit stream itself (chunks,
//! checksums, compression, filters) is the `png` crate's work; this module
//! checks what the codec reports, gathers its rows into the three channels,
//! and hands it interleaved bytes to write.

use vstd::prelude::*;
use vstd::std_specs::convert::FromSpecImpl;
use crate::image::{planar_of_rows, rows_fit, rows_view, RgbImg};

verus! {

/// `png::DecodingError`: why the codec could not read a stream. It is carried
/// to the caller unread.
#[verifier::external_type_specification]
#[verifier::external_body]
pub struct ExDecodingError(png::DecodingError);

/// `png::EncodingError`: why the codec could not write a stream. It is
/// carried to the caller unread.
#[verifier::external_type_specification]
#[verifier::external_body]
pub struct ExEncodingError(png::EncodingError);

/// The codec's reader on a stream held in memory, `png::Reader<&[u8]>`, from
/// which the rows of the image are taken one by one. Nothing is known of its
/// inside; `reader_stream` and `reader_taken` say where it stands.
#[verifier::external_body]
pub struct Rows<'a> {
    reader: png::Reader<&'a [u8]>,
}

/// The colour type code of truecolour pixels: red, green, blue.
pub const COLOR_RGB: u8 = 2;

/// The colour type code of truecolour pixels with alpha.
pub const COLOR_RGBA: u8 = 6;

/// What the codec reports of a stream before its first row.
#[derive(Clone, Copy, Debug, PartialEq, Eq, Structural)]
pub struct Header {
    /// The colour type, by its code in the PNG header.
    pub color_type: u8,
    /// The number of bits in a sample.
    pub bit_depth: u8,
    /// The number of rows.
    pub height: u32,
    /// The number of pixels in a row.
    pub width: u32,
}

impl Header {
    /// The number of bytes that a pixel occupies in a row, for the colour
    /// types that can be loaded.
    pub open spec fn pixel_bytes(self) -> Option<nat> {
        if self.color_type == COLOR_RGB {
            Some(3)
        } else if self.color_type == COLOR_RGBA {
            Some(4)
        } else {
            None
        }
    }

    /// The stream holds RGB or RGBA pixels of eight bits a sample.
    pub open spec fn accepted(self) -> bool {
        self.pixel_bytes() is Some && self.bit_depth == 8
    }

    /// Checks the colour type, then the bit depth, and gives the number of
    /// bytes that a pixel occupies in a row: three for RGB, four for RGBA.
    pub fn channels(&self) -> (res: Result<usize, Error>)
        ensures
            match res {
                Ok(n) => self.accepted() && Some(n as nat) == self.pixel_bytes(),
                Err(Error::InvalidColorType(found)) => self.pixel_bytes() is None && found
                    == self.color_type,
                Err(Error::InvalidBitDepth(found)) => self.pixel_bytes() is Some && found
                    == self.bit_depth && found != 8,
                Err(_) => false,
            },
    {
        if self.color_type != COLOR_RGB && self.color_type != COLOR_RGBA {
            return Err(Error::InvalidColorType(self.color_type));
        }
        if self.bit_depth != 8 {
            return Err(Error::InvalidBitDepth(self.bit_depth));
        }
        if self.color_type == COLOR_RGBA {
            Ok(4)
        } else {
            Ok(3)
        }
    }
}

/// Why an image could not be loaded or saved.
#[derive(Debug)]
pub enum Error {
    /// The codec could not read the stream.
    Decoding(png::DecodingError),
    /// The stream's pixels are neither RGB nor RGBA; the code is the one found.
    InvalidColorType(u8),
    /// The stream's samples are not eight bits wide; the depth is the one found.
    InvalidBitDepth(u8),
    /// The codec could not write the image.
    Encoding(png::EncodingError),
}

impl From<png::DecodingError> for Error {
    /// A failure of the codec to read is a decoding error.
    fn from(err: png::DecodingError) -> (res: Error) {
        Error::Decoding(err)
    }
}

impl FromSpecImpl<png::DecodingError> for Error {
    open spec fn obeys_from_spec() -> bool {
        true
    }

    open spec fn from_spec(err: png::DecodingError) -> Error {
        Error::Decoding(err)
    }
}

impl From<png::EncodingError> for Error {
    /// A failure of the codec to write is an encoding error.
    fn from(err: png::EncodingError) -> (res: Error) {
        Error::Encoding(err)
    }
}

impl FromSpecImpl<png::EncodingError> for Error {
    open spec fn obeys_from_spec() -> bool {
        true
    }

    open spec fn from_spec(err: png::EncodingError) -> Error {
        Error::Encoding(err)
    }
}

/// The header that the codec reads from a stream, or `None` where it fails
/// before the first row.
pub uninterp spec fn stream_header(bytes: Seq<u8>) -> Option<Header>;

/// What the codec gives as row `index` of a stream whose header it has read:
/// `None` where it fails, `Some(None)` where it has no more rows, else the
/// row's bytes.
pub uninterp spec fn stream_row(bytes: Seq<u8>, index: nat) -> Option<Option<Seq<u8>>>;

/// The stream that a reader was opened on.
pub uninterp spec fn reader_stream(rows: Rows) -> Seq<u8>;

/// The number of rows that a reader has been asked for.
pub uninterp spec fn reader_taken(rows: Rows) -> nat;

/// `png::Decoder::new`, `set_transformations` with `STRIP_ALPHA`, and
/// `read_info`, on a stream held in memory. The codec either fails or hands
/// out the header fields of its `OutputInfo`, the two enums as their codes,
/// with a reader that has given no row yet. Decoding reads nothing but the
/// bytes, so equal streams fare alike.
#[verifier::external_body]
fn open_stream<'a>(bytes: &'a [u8]) -> (res: Result<
    (Header, Rows<'a>),
    png::DecodingError,
>)
    ensures
        res is Ok <==> stream_header(bytes@) is Some,
        res matches Ok(opened) ==> {
            &&& Some(opened.0) == stream_header(bytes@)
            &&& reader_stream(opened.1) == bytes@
            &&& reader_taken(opened.1) == 0
        },
{
    let mut decoder = png::Decoder::new(bytes);
    decoder.set_transformations(png::Transformations::STRIP_ALPHA);
    let (info, reader) = decoder.read_info()?;
    let header = Header {
        color_type: info.color_type as u8,
        bit_depth: info.bit_depth as u8,
        height: info.height,
        width: info.width,
    };
    Ok((header, Rows { reader }))
}

/// `png::Reader::next_row`, the row copied out of the reader's buffer. The
/// reader stays on its stream and counts one more row asked for; what comes
/// back is what the codec gives for that row of that stream. A reader that
/// has failed once must not be asked again: the codec may then never answer.
#[verifier::external_body]
fn next_row(rows: &mut Rows) -> (res: Result<Option<Vec<u8>>, png::DecodingError>)
    requires
        forall|y: nat|
            y < reader_taken(*old(rows)) ==> (#[trigger] stream_row(
                reader_stream(*old(rows)),
                y,
            )) is Some,
    ensures
        reader_stream(*final(rows)) == reader_stream(*old(rows)),
        reader_taken(*final(rows)) == reader_taken(*old(rows)) + 1,
        match stream_row(reader_stream(*old(rows)), reader_taken(*old(rows))) {
            None => res is Err,
            Some(None) => res == Ok::<Option<Vec<u8>>, png::DecodingError>(None),
            Some(Some(row)) => res matches Ok(Some(bytes)) && bytes@ == row,
        },
{
    Ok(rows.reader.next_row()?.map(|row| row.to_vec()))
}

/// `From<String>` for `png::DecodingError`: the codec's error that carries a
/// message.
#[verifier::external_body]
fn decoding_error(message: &str) -> png::DecodingError {
    png::DecodingError::from(message.to_string())
}

/// The PNG stream that the codec writes for an RGB image of eight bits a
/// sample with these dimensions and these interleaved bytes, or `None` where
/// it refuses to write one.
pub uninterp spec fn rgb8_stream(width: u32, height: u32, data: Seq<u8>) -> Option<Seq<u8>>;

/// `png::Encoder::new` on a vector, `set_color` with `RGB`, `set_depth` with
/// `Eight`, `write_header` and `Writer::write_image_data`; the writer is
/// dropped before the return, which ends the stream. The codec only ever
/// appends to the vector. It refuses an image without rows or without
/// columns, and no other: with this colour type and depth, and data of the
/// length the dimensions ask for, its remaining failures are those of the
/// sink, and appending to a vector does not fail. Encoding reads nothing but
/// its arguments, so equal images give equal streams.
#[verifier::external_body]
fn encode_rgb8(out: &mut Vec<u8>, width: u32, height: u32, data: &[u8]) -> (res: Result<
    (),
    png::EncodingError,
>)
    requires
        data@.len() == 3 * width * height,
    ensures
        res is Ok <==> rgb8_stream(width, height, data@) is Some,
        res is Ok ==> final(out)@ == old(out)@ + rgb8_stream(width, height, data@)->Some_0,
        old(out)@.is_prefix_of(final(out)@),
        width == 0 || height == 0 ==> res is Err,
        width > 0 && height > 0 ==> res is Ok,
{
    let mut encoder = png::Encoder::new(out, width, height);
    encoder.set_color(png::ColorType::RGB);
    encoder.set_depth(png::BitDepth::Eight);
    let mut writer = encoder.write_header()?;
    writer.write_image_data(data)
}

/// The codec gives each of the first `count` rows of the stream.
pub open spec fn rows_given(bytes: Seq<u8>, count: nat) -> bool {
    forall|y: nat| y < count ==> (#[trigger] stream_row(bytes, y)) matches Some(Some(_))
}

/// The first `count` rows of the stream, as the codec gives them.
pub open spec fn stream_rows(bytes: Seq<u8>, count: nat) -> Seq<Seq<u8>> {
    Seq::new(count, |y: int| stream_row(bytes, y as nat)->Some_0->Some_0)
}

/// The codec gives every row that a header with these fields announces, and
/// each row holds all its pixels.
pub open spec fn frame_complete(bytes: Seq<u8>, header: Header) -> bool {
    &&& header.pixel_bytes() is Some
    &&& rows_given(bytes, header.height as nat)
    &&& rows_fit(
        stream_rows(bytes, header.height as nat),
        header.height as nat,
        header.width as nat,
        header.pixel_bytes()->Some_0,
    )
}

/// Takes `height` rows from a reader that has given none yet. Fails where the
/// codec fails on one of them or runs out of rows.
fn read_rows(rows: &mut Rows, height: u32) -> (res: Result<Vec<Vec<u8>>, png::DecodingError>)
    requires
        reader_taken(*old(rows)) == 0,
    ensures
        res is Ok <==> rows_given(reader_stream(*old(rows)), height as nat),
        res matches Ok(taken) ==> rows_view(taken@) == stream_rows(
            reader_stream(*old(rows)),
            height as nat,
        ),
{
    let ghost stream = reader_stream(*rows);
    let mut taken: Vec<Vec<u8>> = Vec::new();
    let mut y: u32 = 0;
    while y < height
        invariant
            y <= height,
            stream == reader_stream(*old(rows)),
            reader_stream(*rows) == stream,
            reader_taken(*rows) == y,
            rows_given(stream, y as nat),
            rows_view(taken@) == stream_rows(stream, y as nat),
        decreases height - y,
    {
        let ghost before = taken@;
        match next_row(rows) {
            Err(e) => {
                assert(stream_row(stream, y as nat) is None);
                return Err(e);
            },
            Ok(None) => {
                assert(stream_row(stream, y as nat) == Some(None::<Seq<u8>>));
                return Err(decoding_error("the stream ends before the last row of the image"));
            },
            Ok(Some(row)) => {
                assert(rows_view(before).len() == y);
                taken.push(row);
            },
        }
        y += 1;
        assert forall|k: int| 0 <= k < y implies rows_view(taken@)[k] == stream_rows(
            stream,
            y as nat,
        )[k] by {
            if k < y - 1 {
                assert(rows_view(before)[k] == stream_rows(stream, (y - 1) as nat)[k]);
            }
        }
        assert(rows_view(taken@) =~= stream_rows(stream, y as nat));
    }
    Ok(taken)
}

/// Loads an image from a PNG stream held in memory. The stream must hold RGB
/// or RGBA pixels of eight bits a sample; of each pixel the red, green and
/// blue byte are kept and a fourth byte is dropped.
pub fn read_rgb8(bytes: &[u8]) -> (res: Result<RgbImg, Error>)
    ensures
        match res {
            Ok(img) => stream_header(bytes@) matches Some(header) && header.accepted()
                && frame_complete(bytes@, header) && img@ == planar_of_rows(
                stream_rows(bytes@, header.height as nat),
                header.height as nat,
                header.width as nat,
                header.pixel_bytes()->Some_0,
            ) && img@.well_formed(),
            Err(Error::Decoding(_)) => match stream_header(bytes@) {
                None => true,
                Some(header) => header.accepted() && !frame_complete(bytes@, header),
            },
            Err(Error::InvalidColorType(found)) => stream_header(bytes@) matches Some(header)
                && header.pixel_bytes() is None && found == header.color_type,
            Err(Error::InvalidBitDepth(found)) => stream_header(bytes@) matches Some(header)
                && header.pixel_bytes() is Some && found == header.bit_depth && found != 8,
            Err(Error::Encoding(_)) => false,
        },
{
    let (header, mut rows) = match open_stream(bytes) {
        Ok(opened) => opened,
        Err(e) => {
            return Err(Error::from(e));
        },
    };
    let channels = match header.channels() {
        Ok(n) => n,
        Err(e) => {
            return Err(e);
        },
    };
    let taken = match read_rows(&mut rows, header.height) {
        Ok(taken) => taken,
        Err(e) => {
            return Err(Error::from(e));
        },
    };
    match RgbImg::from_rows(&taken, header.height, header.width, channels) {
        Some(img) => Ok(img),
        None => Err(Error::from(decoding_error("a row of the stream holds too few bytes"))),
    }
}

/// Saves an image as a PNG stream of RGB pixels, eight bits a sample, behind
/// what `out` holds already. Every image with pixels is saved; one without
/// cannot be, and `out` may then have grown by the part of a stream.
pub fn write_rgb8(img: &RgbImg, out: &mut Vec<u8>) -> (res: Result<(), Error>)
    ensures
        res is Ok <==> img@.width > 0 && img@.height > 0,
        match rgb8_stream(img@.width as u32, img@.height as u32, img@.packed()) {
            Some(stream) => res is Ok && final(out)@ == old(out)@ + stream,
            None => res matches Err(Error::Encoding(_)) && old(out)@.is_prefix_of(final(out)@),
        },
{
    let height = img.height();
    let width = img.width();
    let data = img.to_packed_buf();
    assert(3 * width * height == 3 * height * width) by (nonlinear_arith);
    match encode_rgb8(out, width, height, data.as_slice()) {
        Ok(()) => Ok(()),
        Err(e) => Err(Error::from(e)),
    }
}

} // verus!
