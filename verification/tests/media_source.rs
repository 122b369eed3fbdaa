use aoide_library::media_source::{
    decode_artwork_columns, decode_media_source_columns, encode_artwork_columns,
    encode_media_source_columns, ArtworkColumns, ArtworkImage, ArtworkRecord, DecodeError,
    MediaSourceColumns, MediaSourceRecord,
};

fn empty_columns() -> ArtworkColumns {
    ArtworkColumns {
        source: None,
        uri: None,
        apic_type: None,
        media_type: None,
        digest: None,
        width: None,
        height: None,
        thumbnail: None,
    }
}

fn image() -> ArtworkImage {
    ArtworkImage {
        apic_type: 3,
        media_type: "image/jpeg".to_string(),
        size: Some((40000, 300)),
        digest: Some(vec![7; 32]),
        thumbnail: Some(vec![1; 48]),
    }
}

#[test]
fn no_source_no_artwork() {
    assert!(matches!(decode_artwork_columns(empty_columns()), Ok(None)));
    assert!(matches!(decode_artwork_columns(ArtworkColumns { source: Some(9), ..empty_columns() }), Ok(None)));
}

#[test]
fn missing_artwork() {
    let c = encode_artwork_columns(Some(ArtworkRecord::Missing));
    assert_eq!(Some(0), c.source);
    assert!(matches!(decode_artwork_columns(c), Ok(Some(ArtworkRecord::Missing))));
}

#[test]
fn linked_artwork_needs_a_uri() {
    let c = ArtworkColumns { source: Some(2), ..empty_columns() };
    assert!(matches!(decode_artwork_columns(c), Err(DecodeError::MissingUri)));
}

#[test]
fn picture_type_out_of_range() {
    let c = ArtworkColumns { source: Some(1), apic_type: Some(21), ..empty_columns() };
    assert!(matches!(decode_artwork_columns(c), Err(DecodeError::InvalidApicType(21))));
}

#[test]
fn defaults_and_lengths_on_reading() {
    let c = ArtworkColumns {
        source: Some(1),
        width: Some(10),
        digest: Some(vec![1, 2, 3]),
        ..empty_columns()
    };
    match decode_artwork_columns(c) {
        Ok(Some(ArtworkRecord::Embedded(image))) => {
            assert_eq!(0, image.apic_type);
            assert_eq!("", image.media_type);
            assert_eq!(None, image.size);
            assert_eq!(None, image.digest);
            assert_eq!(None, image.thumbnail);
        }
        _ => panic!("embedded artwork expected"),
    }
}

#[test]
fn linked_artwork_round_trip() {
    let c = encode_artwork_columns(Some(ArtworkRecord::Linked { uri: "file:///a.jpg".to_string(), image: image() }));
    assert_eq!(Some(2), c.source);
    assert_eq!(Some(40000u16 as i16), c.width);
    match decode_artwork_columns(c) {
        Ok(Some(ArtworkRecord::Linked { uri, image: decoded })) => {
            let expected = image();
            assert_eq!("file:///a.jpg", uri);
            assert_eq!(expected.apic_type, decoded.apic_type);
            assert_eq!(expected.media_type, decoded.media_type);
            assert_eq!(expected.size, decoded.size);
            assert_eq!(expected.digest, decoded.digest);
            assert_eq!(expected.thumbnail, decoded.thumbnail);
        }
        _ => panic!("linked artwork expected"),
    }
}

#[test]
fn media_source_round_trip() {
    let record = MediaSourceRecord {
        path: "music/a.flac".to_string(),
        content_type: "audio/flac".to_string(),
        content_digest: Some(vec![9; 32]),
        audio_channel_count: Some(40000),
        audio_encoder: Some("libFLAC".to_string()),
        artwork: Some(ArtworkRecord::Embedded(image())),
    };
    let columns = encode_media_source_columns(record);
    assert_eq!(Some(40000u16 as i16), columns.audio_channel_count);
    assert_eq!(Some(1), columns.artwork.source);
    let decoded = match decode_media_source_columns(columns) {
        Ok(decoded) => decoded,
        Err(err) => panic!("decoding failed: {err:?}"),
    };
    assert_eq!("music/a.flac", decoded.path);
    assert_eq!("audio/flac", decoded.content_type);
    assert_eq!(Some(vec![9; 32]), decoded.content_digest);
    assert_eq!(Some(40000), decoded.audio_channel_count);
    assert_eq!(Some("libFLAC".to_string()), decoded.audio_encoder);
    assert!(matches!(decoded.artwork, Some(ArtworkRecord::Embedded(_))));
}

#[test]
fn media_source_with_invalid_artwork() {
    let columns = MediaSourceColumns {
        path: "a".to_string(),
        content_type: "audio/mpeg".to_string(),
        content_digest: None,
        audio_channel_count: None,
        audio_encoder: None,
        artwork: ArtworkColumns { source: Some(2), ..empty_columns() },
    };
    assert!(matches!(decode_media_source_columns(columns), Err(DecodeError::MissingUri)));
}
