use aoide_library::media_util::{
    guess_mime_from_path, guess_mime_from_url, parse_key_signature, push_next_actor_role_name, Actor,
    ActorKind, ActorRole, Error, KeyMode, KeySignature,
};

fn summary(actors: &[Actor]) -> Vec<(ActorRole, ActorKind, &str)> {
    actors.iter().map(|a| (a.role, a.kind, a.name.as_str())).collect()
}

#[test]
fn first_actor_of_a_role_is_the_summary() {
    let mut actors = Vec::new();
    push_next_actor_role_name(&mut actors, ActorRole::Artist, "A".to_string());
    assert_eq!(vec![(ActorRole::Artist, ActorKind::Summary, "A")], summary(&actors));
    assert_eq!(None, actors[0].role_notes);
}

#[test]
fn second_actor_of_a_role_makes_both_primary() {
    let mut actors = Vec::new();
    push_next_actor_role_name(&mut actors, ActorRole::Artist, "A".to_string());
    push_next_actor_role_name(&mut actors, ActorRole::Artist, "B".to_string());
    push_next_actor_role_name(&mut actors, ActorRole::Composer, "C".to_string());
    push_next_actor_role_name(&mut actors, ActorRole::Producer, "D".to_string());
    push_next_actor_role_name(&mut actors, ActorRole::Producer, "E".to_string());
    push_next_actor_role_name(&mut actors, ActorRole::Producer, "F".to_string());
    assert_eq!(
        vec![
            (ActorRole::Artist, ActorKind::Primary, "A"),
            (ActorRole::Artist, ActorKind::Primary, "B"),
            (ActorRole::Composer, ActorKind::Summary, "C"),
            (ActorRole::Producer, ActorKind::Primary, "D"),
            (ActorRole::Producer, ActorKind::Primary, "E"),
            (ActorRole::Producer, ActorKind::Primary, "F"),
        ],
        summary(&actors)
    );
}

#[test]
fn open_key_signatures() {
    assert_eq!(
        Some(KeySignature::OpenKey { code: 1, mode: KeyMode::Major }),
        parse_key_signature("1d")
    );
    assert_eq!(
        Some(KeySignature::OpenKey { code: 12, mode: KeyMode::Minor }),
        parse_key_signature("12m")
    );
    assert_eq!(
        Some(KeySignature::OpenKey { code: 7, mode: KeyMode::Minor }),
        parse_key_signature(" 7 m ")
    );
}

#[test]
fn lancelot_key_signatures() {
    assert_eq!(
        Some(KeySignature::Lancelot { code: 8, mode: KeyMode::Minor }),
        parse_key_signature("8A")
    );
    assert_eq!(
        Some(KeySignature::Lancelot { code: 5, mode: KeyMode::Major }),
        parse_key_signature(" 5 B")
    );
    // A remainder after the mode is tolerated.
    assert_eq!(
        Some(KeySignature::Lancelot { code: 3, mode: KeyMode::Major }),
        parse_key_signature("3B major")
    );
}

#[test]
fn raw_key_codes() {
    assert_eq!(Some(KeySignature::KeyCode(5)), parse_key_signature("5"));
    assert_eq!(Some(KeySignature::KeyCode(24)), parse_key_signature("+24"));
    assert_eq!(Some(KeySignature::KeyCode(0)), parse_key_signature("0"));
}

#[test]
fn invalid_key_signatures() {
    assert_eq!(None, parse_key_signature("13d"));
    assert_eq!(None, parse_key_signature("0A"));
    assert_eq!(None, parse_key_signature(""));
    assert_eq!(None, parse_key_signature("Am"));
    assert_eq!(None, parse_key_signature("256"));
    assert_eq!(None, parse_key_signature(" 5"));
}

#[test]
fn audio_content_types() {
    assert_eq!(Ok("audio/mpeg".to_string()), guess_mime_from_path("/music/a.mp3"));
    assert_eq!(Ok("audio/flac".to_string()), guess_mime_from_path("track.flac"));
    assert_eq!(Err(Error::UnknownContentType), guess_mime_from_path("cover.jpg"));
    assert_eq!(Err(Error::UnknownContentType), guess_mime_from_path("README"));
}

#[test]
fn audio_content_type_of_url() {
    let url = url::Url::parse("file:///home/test/file.mp3").unwrap();
    assert_eq!(Ok("audio/mpeg".to_string()), guess_mime_from_url(&url));
    let url = url::Url::parse("file:///home/test/file.mp3?x=cover.jpg").unwrap();
    assert_eq!(Ok("audio/mpeg".to_string()), guess_mime_from_url(&url));
    let url = url::Url::parse("file:///home/test/image.png").unwrap();
    assert_eq!(Err(Error::UnknownContentType), guess_mime_from_url(&url));
}

use aoide_library::media_util::{local_file_path, OpenUrlError};

#[test]
fn local_file_paths_of_urls() {
    let url = url::Url::parse("file:///home/test/file.mp3").unwrap();
    assert_eq!(Ok(std::path::PathBuf::from("/home/test/file.mp3")), local_file_path(&url));
    let url = url::Url::parse("https://example.com/file.mp3").unwrap();
    assert_eq!(Err(OpenUrlError::UnsupportedScheme), local_file_path(&url));
    let url = url::Url::parse("file://remote.example.com/file.mp3").unwrap();
    assert_eq!(Err(OpenUrlError::InvalidFileUrl), local_file_path(&url));
}
