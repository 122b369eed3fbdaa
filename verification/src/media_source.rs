//! The artwork of a media source as the columns of its database row: how
//! a row is read into artwork and how artwork is written into a row.

use vstd::prelude::*;

verus! {

/// Where the artwork of a media source comes from, as stored in the row:
/// 0 for missing, 1 for embedded, 2 for linked.
#[derive(Debug, Clone, Copy, PartialEq, Eq, Structural)]
pub enum ArtworkSource {
    Missing,
    Embedded,
    Linked,
}

pub open spec fn source_code(source: ArtworkSource) -> i16 {
    match source {
        ArtworkSource::Missing => 0,
        ArtworkSource::Embedded => 1,
        ArtworkSource::Linked => 2,
    }
}

pub open spec fn source_of_code(code: i16) -> Option<ArtworkSource> {
    if code == 0 {
        Some(ArtworkSource::Missing)
    } else if code == 1 {
        Some(ArtworkSource::Embedded)
    } else if code == 2 {
        Some(ArtworkSource::Linked)
    } else {
        None
    }
}

/// The picture types of ID3v2 (`APIC`), from 0 ("other") to 20
/// ("publisher logo").
pub open spec fn is_apic_type(code: int) -> bool {
    0 <= code <= 20
}

/// The length of an artwork digest.
pub const DIGEST_LEN: usize = 32;

/// The length of an artwork thumbnail: 4x4 RGB pixels.
pub const THUMBNAIL_LEN: usize = 48;

/// An artwork image: its picture type, media type, size in pixels, and
/// optionally a digest and a thumbnail.
pub struct ArtworkImage {
    pub apic_type: u8,
    pub media_type: String,
    pub size: Option<(u16, u16)>,
    pub digest: Option<Vec<u8>>,
    pub thumbnail: Option<Vec<u8>>,
}

/// The artwork of a media source.
pub enum ArtworkRecord {
    Missing,
    Embedded(ArtworkImage),
    Linked { uri: String, image: ArtworkImage },
}

/// The artwork columns of a media source row.
pub struct ArtworkColumns {
    pub source: Option<i16>,
    pub uri: Option<String>,
    pub apic_type: Option<i16>,
    pub media_type: Option<String>,
    pub digest: Option<Vec<u8>>,
    pub width: Option<i16>,
    pub height: Option<i16>,
    pub thumbnail: Option<Vec<u8>>,
}

/// Why artwork columns cannot be read.
#[derive(Debug, Clone, Copy, PartialEq, Eq, Structural)]
pub enum DecodeError {
    /// Linked artwork without a URI.
    MissingUri,
    /// A picture type out of range.
    InvalidApicType(i16),
}

pub struct ArtworkImageView {
    pub apic_type: u8,
    pub media_type: Seq<char>,
    pub size: Option<(u16, u16)>,
    pub digest: Option<Seq<u8>>,
    pub thumbnail: Option<Seq<u8>>,
}

pub enum ArtworkRecordView {
    Missing,
    Embedded(ArtworkImageView),
    Linked(Seq<char>, ArtworkImageView),
}

pub struct ArtworkColumnsView {
    pub source: Option<i16>,
    pub uri: Option<Seq<char>>,
    pub apic_type: Option<i16>,
    pub media_type: Option<Seq<char>>,
    pub digest: Option<Seq<u8>>,
    pub width: Option<i16>,
    pub height: Option<i16>,
    pub thumbnail: Option<Seq<u8>>,
}

pub open spec fn opt_string(s: Option<String>) -> Option<Seq<char>> {
    match s {
        Some(s) => Some(s@),
        None => None,
    }
}

pub open spec fn opt_bytes(b: Option<Vec<u8>>) -> Option<Seq<u8>> {
    match b {
        Some(b) => Some(b@),
        None => None,
    }
}

impl View for ArtworkImage {
    type V = ArtworkImageView;

    open spec fn view(&self) -> ArtworkImageView {
        ArtworkImageView {
            apic_type: self.apic_type,
            media_type: self.media_type@,
            size: self.size,
            digest: opt_bytes(self.digest),
            thumbnail: opt_bytes(self.thumbnail),
        }
    }
}

impl View for ArtworkRecord {
    type V = ArtworkRecordView;

    open spec fn view(&self) -> ArtworkRecordView {
        match self {
            ArtworkRecord::Missing => ArtworkRecordView::Missing,
            ArtworkRecord::Embedded(image) => ArtworkRecordView::Embedded(image@),
            ArtworkRecord::Linked { uri, image } => ArtworkRecordView::Linked(uri@, image@),
        }
    }
}

impl View for ArtworkColumns {
    type V = ArtworkColumnsView;

    open spec fn view(&self) -> ArtworkColumnsView {
        ArtworkColumnsView {
            source: self.source,
            uri: opt_string(self.uri),
            apic_type: self.apic_type,
            media_type: opt_string(self.media_type),
            digest: opt_bytes(self.digest),
            width: self.width,
            height: self.height,
            thumbnail: opt_bytes(self.thumbnail),
        }
    }
}

pub open spec fn record_option_view(artwork: Option<ArtworkRecord>) -> Option<ArtworkRecordView> {
    match artwork {
        Some(a) => Some(a@),
        None => None,
    }
}

pub open spec fn decoded_view(result: Result<Option<ArtworkRecord>, DecodeError>) -> Result<
    Option<ArtworkRecordView>,
    DecodeError,
> {
    match result {
        Ok(artwork) => Ok(record_option_view(artwork)),
        Err(e) => Err(e),
    }
}

/// Bytes of the expected length, or none.
pub open spec fn sized_bytes(bytes: Option<Seq<u8>>, len: nat) -> Option<Seq<u8>> {
    match bytes {
        Some(b) => if b.len() == len {
            Some(b)
        } else {
            None
        },
        None => None,
    }
}

/// The image that the columns describe: picture type "other" where none is
/// stored, an empty media type where none is stored, a size where both
/// width and height are stored, and digest and thumbnail only where they
/// have their lengths.
pub open spec fn decoded_image(c: ArtworkColumnsView) -> Result<ArtworkImageView, DecodeError> {
    match c.apic_type {
        Some(t) if !is_apic_type(t as int) => Err(DecodeError::InvalidApicType(t)),
        _ => Ok(
            ArtworkImageView {
                apic_type: match c.apic_type {
                    Some(t) => t as u8,
                    None => 0,
                },
                media_type: match c.media_type {
                    Some(m) => m,
                    None => Seq::empty(),
                },
                size: match (c.width, c.height) {
                    (Some(w), Some(h)) => Some((w as u16, h as u16)),
                    _ => None,
                },
                digest: sized_bytes(c.digest, DIGEST_LEN as nat),
                thumbnail: sized_bytes(c.thumbnail, THUMBNAIL_LEN as nat),
            },
        ),
    }
}

/// The artwork that the columns describe: none without a known source;
/// missing artwork; or an embedded or linked image, where linked artwork
/// needs a URI.
pub open spec fn decoded_artwork(c: ArtworkColumnsView) -> Result<Option<ArtworkRecordView>, DecodeError> {
    match c.source {
        Some(code) => match source_of_code(code) {
            Some(ArtworkSource::Missing) => Ok(Some(ArtworkRecordView::Missing)),
            Some(ArtworkSource::Linked) if c.uri is None => Err(DecodeError::MissingUri),
            Some(source) => match decoded_image(c) {
                Ok(image) => if source == ArtworkSource::Embedded {
                    Ok(Some(ArtworkRecordView::Embedded(image)))
                } else {
                    Ok(Some(ArtworkRecordView::Linked(c.uri.unwrap(), image)))
                },
                Err(e) => Err(e),
            },
            None => Ok(None),
        },
        None => Ok(None),
    }
}

pub open spec fn image_columns(source: i16, uri: Option<Seq<char>>, image: ArtworkImageView) -> ArtworkColumnsView {
    ArtworkColumnsView {
        source: Some(source),
        uri,
        apic_type: Some(image.apic_type as i16),
        media_type: Some(image.media_type),
        digest: image.digest,
        width: match image.size {
            Some((w, _)) => Some(w as i16),
            None => None,
        },
        height: match image.size {
            Some((_, h)) => Some(h as i16),
            None => None,
        },
        thumbnail: image.thumbnail,
    }
}

/// The columns that artwork is written into.
pub open spec fn encoded_artwork(artwork: Option<ArtworkRecordView>) -> ArtworkColumnsView {
    match artwork {
        None => ArtworkColumnsView {
            source: None,
            uri: None,
            apic_type: None,
            media_type: None,
            digest: None,
            width: None,
            height: None,
            thumbnail: None,
        },
        Some(ArtworkRecordView::Missing) => ArtworkColumnsView {
            source: Some(0),
            uri: None,
            apic_type: None,
            media_type: None,
            digest: None,
            width: None,
            height: None,
            thumbnail: None,
        },
        Some(ArtworkRecordView::Embedded(image)) => image_columns(1, None, image),
        Some(ArtworkRecordView::Linked(uri, image)) => image_columns(2, Some(uri), image),
    }
}

/// An image that can be stored: a picture type in range, and digest and
/// thumbnail of their lengths.
pub open spec fn image_wf(image: ArtworkImageView) -> bool {
    &&& is_apic_type(image.apic_type as int)
    &&& (image.digest matches Some(d) ==> d.len() == DIGEST_LEN)
    &&& (image.thumbnail matches Some(t) ==> t.len() == THUMBNAIL_LEN)
}

pub open spec fn artwork_wf(artwork: Option<ArtworkRecordView>) -> bool {
    match artwork {
        Some(ArtworkRecordView::Embedded(image)) => image_wf(image),
        Some(ArtworkRecordView::Linked(_, image)) => image_wf(image),
        _ => true,
    }
}

fn sized(bytes: Option<Vec<u8>>, len: usize) -> (sized: Option<Vec<u8>>)
    ensures
        opt_bytes(sized) == sized_bytes(opt_bytes(bytes), len as nat),
{
    match bytes {
        Some(b) => if b.len() == len {
            Some(b)
        } else {
            None
        },
        None => None,
    }
}

fn decode_image(c: ArtworkColumns) -> (image: Result<ArtworkImage, DecodeError>)
    ensures
        match (image, decoded_image(c@)) {
            (Ok(i), Ok(v)) => i@ == v,
            (Err(e), Err(f)) => e == f,
            _ => false,
        },
{
    let apic_type: u8 = match c.apic_type {
        Some(t) => if 0 <= t && t <= 20 {
            t as u8
        } else {
            return Err(DecodeError::InvalidApicType(t));
        },
        None => 0,
    };
    let media_type = match c.media_type {
        Some(m) => m,
        None => String::new(),
    };
    let size = match (c.width, c.height) {
        (Some(w), Some(h)) => Some((w as u16, h as u16)),
        _ => None,
    };
    Ok(
        ArtworkImage {
            apic_type,
            media_type,
            size,
            digest: sized(c.digest, DIGEST_LEN),
            thumbnail: sized(c.thumbnail, THUMBNAIL_LEN),
        },
    )
}

/// Reads the artwork columns of a media source row.
pub fn decode_artwork_columns(c: ArtworkColumns) -> (artwork: Result<Option<ArtworkRecord>, DecodeError>)
    ensures
        decoded_view(artwork) == decoded_artwork(c@),
{
    let ghost view = c@;
    let code = match c.source {
        Some(code) => code,
        None => return Ok(None),
    };
    if code == 0 {
        return Ok(Some(ArtworkRecord::Missing));
    }
    if code != 1 && code != 2 {
        return Ok(None);
    }
    if code == 2 && c.uri.is_none() {
        return Err(DecodeError::MissingUri);
    }
    let ArtworkColumns { source, uri, apic_type, media_type, digest, width, height, thumbnail } = c;
    let image = decode_image(
        ArtworkColumns { source, uri: None, apic_type, media_type, digest, width, height, thumbnail },
    );
    match image {
        Ok(image) => if code == 1 {
            Ok(Some(ArtworkRecord::Embedded(image)))
        } else {
            match uri {
                Some(uri) => Ok(Some(ArtworkRecord::Linked { uri, image })),
                None => Err(DecodeError::MissingUri),
            }
        },
        Err(e) => Err(e),
    }
}

fn encode_image(source: i16, uri: Option<String>, image: ArtworkImage) -> (c: ArtworkColumns)
    ensures
        c@ == image_columns(source, opt_string(uri), image@),
{
    let (width, height) = match image.size {
        Some((w, h)) => (Some(w as i16), Some(h as i16)),
        None => (None, None),
    };
    ArtworkColumns {
        source: Some(source),
        uri,
        apic_type: Some(image.apic_type as i16),
        media_type: Some(image.media_type),
        digest: image.digest,
        width,
        height,
        thumbnail: image.thumbnail,
    }
}

/// Writes artwork into the artwork columns of a media source row.
pub fn encode_artwork_columns(artwork: Option<ArtworkRecord>) -> (c: ArtworkColumns)
    ensures
        c@ == encoded_artwork(record_option_view(artwork)),
{
    match artwork {
        None => ArtworkColumns {
            source: None,
            uri: None,
            apic_type: None,
            media_type: None,
            digest: None,
            width: None,
            height: None,
            thumbnail: None,
        },
        Some(ArtworkRecord::Missing) => ArtworkColumns {
            source: Some(0),
            uri: None,
            apic_type: None,
            media_type: None,
            digest: None,
            width: None,
            height: None,
            thumbnail: None,
        },
        Some(ArtworkRecord::Embedded(image)) => encode_image(1, None, image),
        Some(ArtworkRecord::Linked { uri, image }) => encode_image(2, Some(uri), image),
    }
}

proof fn lemma_image_round_trip(source: i16, uri: Option<Seq<char>>, image: ArtworkImageView)
    requires
        image_wf(image),
    ensures
        decoded_image(image_columns(source, uri, image)) == Ok::<ArtworkImageView, DecodeError>(image),
{
    let c = image_columns(source, uri, image);
    let t = image.apic_type;
    assert((t as i16) as u8 == t) by (bit_vector)
        requires
            t <= 20u8,
    ;
    if let Some((w, h)) = image.size {
        assert((w as i16) as u16 == w) by (bit_vector);
        assert((h as i16) as u16 == h) by (bit_vector);
    }
    assert(decoded_image(c) matches Ok(v) && v == image);
}

/// Artwork that can be stored is read back as it was written.
pub proof fn law_artwork_columns_round_trip(artwork: Option<ArtworkRecordView>)
    requires
        artwork_wf(artwork),
    ensures
        decoded_artwork(encoded_artwork(artwork)) == Ok::<Option<ArtworkRecordView>, DecodeError>(artwork),
{
    match artwork {
        Some(ArtworkRecordView::Embedded(image)) => lemma_image_round_trip(1, None, image),
        Some(ArtworkRecordView::Linked(uri, image)) => lemma_image_round_trip(2, Some(uri), image),
        _ => {},
    }
}


/// The part of a media source that its row stores in columns of integers,
/// text and bytes: where it is, what it is, its digest, its number of
/// audio channels, its encoder and its artwork.
pub struct MediaSourceRecord {
    pub path: String,
    pub content_type: String,
    pub content_digest: Option<Vec<u8>>,
    pub audio_channel_count: Option<u16>,
    pub audio_encoder: Option<String>,
    pub artwork: Option<ArtworkRecord>,
}

/// Those columns of a media source row.
pub struct MediaSourceColumns {
    pub path: String,
    pub content_type: String,
    pub content_digest: Option<Vec<u8>>,
    pub audio_channel_count: Option<i16>,
    pub audio_encoder: Option<String>,
    pub artwork: ArtworkColumns,
}

pub struct MediaSourceRecordView {
    pub path: Seq<char>,
    pub content_type: Seq<char>,
    pub content_digest: Option<Seq<u8>>,
    pub audio_channel_count: Option<u16>,
    pub audio_encoder: Option<Seq<char>>,
    pub artwork: Option<ArtworkRecordView>,
}

pub struct MediaSourceColumnsView {
    pub path: Seq<char>,
    pub content_type: Seq<char>,
    pub content_digest: Option<Seq<u8>>,
    pub audio_channel_count: Option<i16>,
    pub audio_encoder: Option<Seq<char>>,
    pub artwork: ArtworkColumnsView,
}

impl View for MediaSourceRecord {
    type V = MediaSourceRecordView;

    open spec fn view(&self) -> MediaSourceRecordView {
        MediaSourceRecordView {
            path: self.path@,
            content_type: self.content_type@,
            content_digest: opt_bytes(self.content_digest),
            audio_channel_count: self.audio_channel_count,
            audio_encoder: opt_string(self.audio_encoder),
            artwork: record_option_view(self.artwork),
        }
    }
}

impl View for MediaSourceColumns {
    type V = MediaSourceColumnsView;

    open spec fn view(&self) -> MediaSourceColumnsView {
        MediaSourceColumnsView {
            path: self.path@,
            content_type: self.content_type@,
            content_digest: opt_bytes(self.content_digest),
            audio_channel_count: self.audio_channel_count,
            audio_encoder: opt_string(self.audio_encoder),
            artwork: self.artwork@,
        }
    }
}

/// The media source that the columns describe; the number of channels is
/// the stored 16 bits read as unsigned.
pub open spec fn decoded_media_source(c: MediaSourceColumnsView) -> Result<MediaSourceRecordView, DecodeError> {
    match decoded_artwork(c.artwork) {
        Ok(artwork) => Ok(
            MediaSourceRecordView {
                path: c.path,
                content_type: c.content_type,
                content_digest: c.content_digest,
                audio_channel_count: match c.audio_channel_count {
                    Some(n) => Some(n as u16),
                    None => None,
                },
                audio_encoder: c.audio_encoder,
                artwork,
            },
        ),
        Err(e) => Err(e),
    }
}

/// The columns that a media source is written into; the number of channels
/// is stored as its 16 bits.
pub open spec fn encoded_media_source(r: MediaSourceRecordView) -> MediaSourceColumnsView {
    MediaSourceColumnsView {
        path: r.path,
        content_type: r.content_type,
        content_digest: r.content_digest,
        audio_channel_count: match r.audio_channel_count {
            Some(n) => Some(n as i16),
            None => None,
        },
        audio_encoder: r.audio_encoder,
        artwork: encoded_artwork(r.artwork),
    }
}

pub open spec fn media_source_result_view(r: Result<MediaSourceRecord, DecodeError>) -> Result<
    MediaSourceRecordView,
    DecodeError,
> {
    match r {
        Ok(record) => Ok(record@),
        Err(e) => Err(e),
    }
}

/// Reads those columns of a media source row.
pub fn decode_media_source_columns(c: MediaSourceColumns) -> (record: Result<MediaSourceRecord, DecodeError>)
    ensures
        media_source_result_view(record) == decoded_media_source(c@),
{
    let MediaSourceColumns { path, content_type, content_digest, audio_channel_count, audio_encoder, artwork } = c;
    let artwork = match decode_artwork_columns(artwork) {
        Ok(artwork) => artwork,
        Err(e) => return Err(e),
    };
    let audio_channel_count = match audio_channel_count {
        Some(n) => Some(n as u16),
        None => None,
    };
    Ok(MediaSourceRecord { path, content_type, content_digest, audio_channel_count, audio_encoder, artwork })
}

/// Writes a media source into those columns of its row.
pub fn encode_media_source_columns(r: MediaSourceRecord) -> (c: MediaSourceColumns)
    ensures
        c@ == encoded_media_source(r@),
{
    let MediaSourceRecord { path, content_type, content_digest, audio_channel_count, audio_encoder, artwork } = r;
    let audio_channel_count = match audio_channel_count {
        Some(n) => Some(n as i16),
        None => None,
    };
    MediaSourceColumns {
        path,
        content_type,
        content_digest,
        audio_channel_count,
        audio_encoder,
        artwork: encode_artwork_columns(artwork),
    }
}

/// A media source that can be stored is read back as it was written.
pub proof fn law_media_source_columns_round_trip(r: MediaSourceRecordView)
    requires
        artwork_wf(r.artwork),
    ensures
        decoded_media_source(encoded_media_source(r)) == Ok::<MediaSourceRecordView, DecodeError>(r),
{
    law_artwork_columns_round_trip(r.artwork);
    if let Some(n) = r.audio_channel_count {
        assert((n as i16) as u16 == n) by (bit_vector);
    }
}

} // verus!
